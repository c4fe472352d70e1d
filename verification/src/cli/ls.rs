//! Listing of files in containers and pods.

use crate::cli::path_parser::PathType;
use crate::cli::path_parser::PathTypeView;
use crate::cli::path_parser::PartView;
use crate::cli::path_parser::Part;
use vstd::prelude::*;

verus! {

/// Whose files are to be listed, and where.
pub enum LsRequest {
    Container { container: String, path: String },
    Pod { context: String, ns: String, pod: String, path: String },
}

/// Why nothing can be listed for a path.
#[derive(Debug, Clone, Copy, PartialEq, Eq, Structural)]
pub enum LsFault {
    /// No path stands behind the colon.
    MissingPath,
    /// The name of the container is not finished.
    ContainerNotResolved,
    /// The path is one of this machine.
    LocalPath,
}

/// What a request is.
pub ghost enum LsRequestView {
    Container { container: Seq<char>, path: Seq<char> },
    Pod { context: Seq<char>, ns: Seq<char>, pod: Seq<char>, path: Seq<char> },
}

impl View for LsRequest {
    type V = LsRequestView;

    open spec fn view(&self) -> LsRequestView {
        match self {
            LsRequest::Container { container, path } => LsRequestView::Container {
                container: container@,
                path: path@,
            },
            LsRequest::Pod { context, ns, pod, path } => LsRequestView::Pod {
                context: context@,
                ns: ns@,
                pod: pod@,
                path: path@,
            },
        }
    }
}

/// What is listed for a typed path: the path inside the container that is
/// named in full, or inside the pod.
pub open spec fn files_request(p: PathTypeView) -> Result<LsRequestView, LsFault> {
    match p {
        PathTypeView::Docker(PartView::Full(container), Some(path)) => Ok(
            LsRequestView::Container { container, path },
        ),
        PathTypeView::Docker(PartView::Full(_), None) => Err(LsFault::MissingPath),
        PathTypeView::Docker(PartView::Partial(_), _) => Err(LsFault::ContainerNotResolved),
        PathTypeView::Kubernetes(k8, Some(path)) => Ok(
            LsRequestView::Pod {
                context: k8.context.text(),
                ns: k8.ns.text(),
                pod: k8.pod.text(),
                path,
            },
        ),
        PathTypeView::Kubernetes(_, None) => Err(LsFault::MissingPath),
        PathTypeView::Fs(_) => Err(LsFault::LocalPath),
    }
}

/// What is to be listed for a typed path.
pub fn get_files(p: &PathType) -> (r: Result<LsRequest, LsFault>)
    ensures
        match files_request(p@) {
            Ok(request) => r is Ok && r->Ok_0@ == request,
            Err(fault) => r == Err::<LsRequest, LsFault>(fault),
        },
{
    match p {
        PathType::Docker(part, path) => match part {
            Part::Full(container) => match path {
                Some(path) => Ok(
                    LsRequest::Container { container: container.clone(), path: path.clone() },
                ),
                None => Err(LsFault::MissingPath),
            },
            Part::Partial(_) => Err(LsFault::ContainerNotResolved),
        },
        PathType::Kubernetes(k8, path) => match path {
            Some(path) => Ok(
                LsRequest::Pod {
                    context: k8.context.text().clone(),
                    ns: k8.ns.text().clone(),
                    pod: k8.pod.text().clone(),
                    path: path.clone(),
                },
            ),
            None => Err(LsFault::MissingPath),
        },
        PathType::Fs(_) => Err(LsFault::LocalPath),
    }
}

} // verus!
