//! Containers.

use crate::text::strip_leading;
use crate::text::without_leading;
use vstd::prelude::*;

verus! {

/// Why the container runtime did not do what was asked.
#[derive(Debug, Clone)]
pub enum Error {
    FailedToInitDocker,
    DockerError(String),
}

/// The channel on which a process in a container has written.
#[derive(Debug, Clone, Copy, PartialEq, Eq, Structural)]
pub enum OutputKind {
    StdErr,
    StdOut,
    StdIn,
    Console,
}

/// Where what a process in a container has written is sent on.
#[derive(Debug, Clone, Copy, PartialEq, Eq, Structural)]
pub enum OutputSink {
    /// To the stream of the process: the multiplexer, or the archive.
    Stream,
    /// To the standard error of this process, as it is.
    Stderr,
    /// Nowhere.
    Dropped,
}

/// Where the output of a process in a container goes: its standard output to
/// the stream, its standard error to the standard error of this process, and
/// all else nowhere.
pub fn output_sink(kind: OutputKind) -> (sink: OutputSink)
    ensures
        sink == match kind {
            OutputKind::StdOut => OutputSink::Stream,
            OutputKind::StdErr => OutputSink::Stderr,
            _ => OutputSink::Dropped,
        },
{
    match kind {
        OutputKind::StdOut => OutputSink::Stream,
        OutputKind::StdErr => OutputSink::Stderr,
        _ => OutputSink::Dropped,
    }
}

/// What the runtime tells of a container: its names, if it has any, and its
/// id.
pub struct ContainerSummary {
    pub names: Option<Vec<String>>,
    pub id: Option<String>,
}

/// The name by which a container is listed: its first name without the
/// slashes in front of it; its id where it has no names. A container with an
/// empty list of names, or with neither names nor id, is listed by nothing.
pub open spec fn container_label(summary: ContainerSummary) -> Option<Seq<char>> {
    match summary.names {
        Some(names) => if names@.len() > 0 {
            Some(without_leading(names@[0]@, '/'))
        } else {
            None
        },
        None => match summary.id {
            Some(id) => Some(id@),
            None => None,
        },
    }
}

/// The name by which a container is listed.
pub fn container_name(summary: &ContainerSummary) -> (name: Option<String>)
    ensures
        match name {
            Some(name) => container_label(*summary) == Some(name@),
            None => container_label(*summary) is None,
        },
{
    match &summary.names {
        Some(names) => {
            if names.len() > 0 {
                Some(strip_leading(names[0].as_str(), '/'))
            } else {
                None
            }
        },
        None => match &summary.id {
            Some(id) => Some(id.clone()),
            None => None,
        },
    }
}

/// The names by which the containers are listed, in order. Where one of them
/// is listed by nothing there is no list.
pub fn list_containers(summaries: &Vec<ContainerSummary>) -> (names: Option<Vec<String>>)
    ensures
        names is Some <==> forall|i: int|
            0 <= i < summaries@.len() ==> container_label(#[trigger] summaries@[i]) is Some,
        names is Some ==> {
            &&& names->0@.len() == summaries@.len()
            &&& forall|i: int|
                0 <= i < summaries@.len() ==> container_label(summaries@[i]) == Some(
                    (#[trigger] names->0@[i])@,
                )
        },
{
    let mut names: Vec<String> = Vec::new();
    let mut i: usize = 0;
    while i < summaries.len()
        invariant
            i <= summaries@.len(),
            names@.len() == i,
            forall|j: int|
                0 <= j < i ==> container_label(summaries@[j]) == Some((#[trigger] names@[j])@),
        decreases summaries@.len() - i,
    {
        match container_name(&summaries[i]) {
            Some(name) => {
                names.push(name);
            },
            None => {
                return None;
            },
        }
        i = i + 1;
    }
    assert forall|k: int| 0 <= k < summaries@.len() implies container_label(
        #[trigger] summaries@[k],
    ) is Some by {
        assert(container_label(summaries@[k]) == Some(names@[k]@));
    }
    Some(names)
}

} // verus!
