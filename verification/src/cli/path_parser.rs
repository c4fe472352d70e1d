//! Paths as they are typed: whole, or up to the cursor.

use crate::endpoint::kube::entry_names;
use crate::endpoint::kube::KubeConfigs;
use crate::text::begins_with;
use crate::text::byte_len;
use crate::text::complete_each;
use crate::text::completions_of;
use crate::text::concat;
use crate::text::contains_char;
use crate::text::ends_in;
use crate::text::ends_with_char;
use crate::text::join;
use crate::text::joined;
use crate::text::lemma_pieces;
use crate::text::pieces;
use crate::text::split;
use crate::text::starts_with_char;
use crate::text::texts;
use vstd::prelude::*;
use vstd::string::StringExecFns;
use vstd::utf8::encode_utf8;

verus! {

/// Context, namespace and pod of a path into a pod.
pub struct K8Path {
    pub context: Part,
    pub ns: Part,
    pub pod: Part,
}

/// A name that was typed in full, or only begun.
pub enum Part {
    Full(String),
    Partial(String),
}

/// What a typed path may mean.
pub enum PathType {
    Kubernetes(K8Path, Option<String>),
    Docker(Part, Option<String>),
    Fs(String),
}

/// What a part is.
pub ghost enum PartView {
    Full(Seq<char>),
    Partial(Seq<char>),
}

/// What a path into a pod is.
pub ghost struct K8PathView {
    pub context: PartView,
    pub ns: PartView,
    pub pod: PartView,
}

/// What a typed path is.
pub ghost enum PathTypeView {
    Kubernetes(K8PathView, Option<Seq<char>>),
    Docker(PartView, Option<Seq<char>>),
    Fs(Seq<char>),
}

/// The text of an optional string.
pub open spec fn option_text(s: Option<String>) -> Option<Seq<char>> {
    match s {
        Some(s) => Some(s@),
        None => None,
    }
}

impl View for Part {
    type V = PartView;

    open spec fn view(&self) -> PartView {
        match self {
            Part::Full(name) => PartView::Full(name@),
            Part::Partial(name) => PartView::Partial(name@),
        }
    }
}

impl View for K8Path {
    type V = K8PathView;

    open spec fn view(&self) -> K8PathView {
        K8PathView { context: self.context@, ns: self.ns@, pod: self.pod@ }
    }
}

impl View for PathType {
    type V = PathTypeView;

    open spec fn view(&self) -> PathTypeView {
        match self {
            PathType::Kubernetes(path, file) => PathTypeView::Kubernetes(path@, option_text(*file)),
            PathType::Docker(container, file) => PathTypeView::Docker(
                container@,
                option_text(*file),
            ),
            PathType::Fs(path) => PathTypeView::Fs(path@),
        }
    }
}

impl PartView {
    /// The name, whether whole or begun.
    pub open spec fn text(self) -> Seq<char> {
        match self {
            PartView::Full(name) => name,
            PartView::Partial(name) => name,
        }
    }
}

impl Part {
    /// The name, whether whole or begun.
    pub fn text(&self) -> (name: &String)
        ensures
            name@ == self@.text(),
    {
        match self {
            Part::Full(name) => name,
            Part::Partial(name) => name,
        }
    }

    /// The name, whether whole or begun.
    pub fn into_text(self) -> (name: String)
        ensures
            name@ == self@.text(),
    {
        match self {
            Part::Full(name) => name,
            Part::Partial(name) => name,
        }
    }
}

/// The typed paths of a sequence, each by its view.
pub open spec fn path_views(paths: Seq<PathType>) -> Seq<PathTypeView> {
    paths.map_values(|path: PathType| path@)
}

/// A path into a pod with these three parts.
pub open spec fn k8_view(context: PartView, ns: PartView, pod: PartView) -> K8PathView {
    K8PathView { context, ns, pod }
}

/// What a text without a colon may mean. Without a slash it begins the name
/// of a container or of a context. With one slash the context is whole and the
/// namespace begun; with two, context and namespace are whole and the pod
/// begun. With more slashes it means nothing.
pub open spec fn partial_paths(path: Seq<char>) -> Seq<PathTypeView> {
    let parts = pieces(path, '/');
    let nothing = Seq::<char>::empty();
    if !path.contains('/') {
        seq![
            PathTypeView::Docker(PartView::Partial(path), None),
            PathTypeView::Kubernetes(
                k8_view(
                    PartView::Partial(path),
                    PartView::Partial(nothing),
                    PartView::Partial(nothing),
                ),
                None,
            ),
        ]
    } else if parts.len() == 2 {
        seq![
            PathTypeView::Kubernetes(
                k8_view(
                    PartView::Full(parts[0]),
                    PartView::Partial(parts[1]),
                    PartView::Partial(nothing),
                ),
                None,
            ),
        ]
    } else if parts.len() == 3 {
        seq![
            PathTypeView::Kubernetes(
                k8_view(
                    PartView::Full(parts[0]),
                    PartView::Full(parts[1]),
                    PartView::Partial(parts[2]),
                ),
                None,
            ),
        ]
    } else {
        Seq::empty()
    }
}

/// A text that begins like a path of the local file system.
pub open spec fn is_fs_path(path: Seq<char>) -> bool {
    begins_with(path, '.') || begins_with(path, '/') || begins_with(path, '~')
}

/// What a typed text may mean. A text that begins with a dot, a slash or a
/// tilde is a local path. Without a colon the text is a name that is not
/// finished. With a colon, what stands in front of it names a container (one
/// part) or a pod (three parts), and what stands between the first colon and
/// the next is the path inside it.
pub open spec fn path_types(path: Seq<char>) -> Seq<PathTypeView> {
    if is_fs_path(path) {
        seq![PathTypeView::Fs(path)]
    } else if !path.contains(':') {
        partial_paths(path)
    } else {
        let url_and_path = pieces(path, ':');
        let parts = pieces(url_and_path[0], '/');
        if parts.len() == 1 {
            seq![PathTypeView::Docker(PartView::Full(url_and_path[0]), Some(url_and_path[1]))]
        } else if parts.len() == 3 {
            seq![
                PathTypeView::Kubernetes(
                    k8_view(
                        PartView::Full(parts[0]),
                        PartView::Full(parts[1]),
                        PartView::Full(parts[2]),
                    ),
                    Some(url_and_path[1]),
                ),
            ]
        } else {
            Seq::empty()
        }
    }
}

/// Reads a text without a colon as the beginning of a container or pod name.
pub fn parse_docker_and_k8_partials(path: &str) -> (res: Vec<PathType>)
    ensures
        path_views(res@) == partial_paths(path@),
{
    let mut res: Vec<PathType> = Vec::new();
    if !contains_char(path, '/') {
        res.push(PathType::Docker(Part::Partial(path.to_owned()), None));
        res.push(
            PathType::Kubernetes(
                K8Path {
                    context: Part::Partial(path.to_owned()),
                    ns: Part::Partial(String::new()),
                    pod: Part::Partial(String::new()),
                },
                None,
            ),
        );
        assert(path_views(res@) =~= partial_paths(path@));
        return res;
    }
    let parts = split(path, '/');
    if parts.len() == 2 {
        proof {
            assert(texts(parts@)[0] == parts@[0]@);
            assert(texts(parts@)[1] == parts@[1]@);
        }
        res.push(
            PathType::Kubernetes(
                K8Path {
                    context: Part::Full(parts[0].clone()),
                    ns: Part::Partial(parts[1].clone()),
                    pod: Part::Partial(String::new()),
                },
                None,
            ),
        );
        assert(path_views(res@) =~= partial_paths(path@));
    } else if parts.len() == 3 {
        proof {
            assert(texts(parts@)[0] == parts@[0]@);
            assert(texts(parts@)[1] == parts@[1]@);
            assert(texts(parts@)[2] == parts@[2]@);
        }
        res.push(
            PathType::Kubernetes(
                K8Path {
                    context: Part::Full(parts[0].clone()),
                    ns: Part::Full(parts[1].clone()),
                    pod: Part::Partial(parts[2].clone()),
                },
                None,
            ),
        );
        assert(path_views(res@) =~= partial_paths(path@));
    } else {
        assert(path_views(res@) =~= partial_paths(path@));
    }
    res
}

/// Reads a typed text.
pub fn parse_path_types(path: &str) -> (res: Vec<PathType>)
    ensures
        path_views(res@) == path_types(path@),
{
    let mut res: Vec<PathType> = Vec::new();
    if starts_with_char(path, '.') || starts_with_char(path, '/') || starts_with_char(path, '~') {
        res.push(PathType::Fs(path.to_owned()));
        assert(path_views(res@) =~= path_types(path@));
        return res;
    }
    if !contains_char(path, ':') {
        return parse_docker_and_k8_partials(path);
    }
    let url_and_path = split(path, ':');
    proof {
        lemma_pieces(path@, ':');
        assert(texts(url_and_path@)[0] == url_and_path@[0]@);
        assert(texts(url_and_path@)[1] == url_and_path@[1]@);
    }
    let parts = split(url_and_path[0].as_str(), '/');
    if parts.len() == 1 {
        res.push(
            PathType::Docker(Part::Full(url_and_path[0].clone()), Some(url_and_path[1].clone())),
        );
    } else if parts.len() == 3 {
        proof {
            assert(texts(parts@)[0] == parts@[0]@);
            assert(texts(parts@)[1] == parts@[1]@);
            assert(texts(parts@)[2] == parts@[2]@);
        }
        res.push(
            PathType::Kubernetes(
                K8Path {
                    context: Part::Full(parts[0].clone()),
                    ns: Part::Full(parts[1].clone()),
                    pod: Part::Full(parts[2].clone()),
                },
                Some(url_and_path[1].clone()),
            ),
        );
    }
    assert(path_views(res@) =~= path_types(path@));
    res
}

/// What must be asked of a container runtime or a cluster before a path can
/// be completed.
pub enum Lookup {
    /// The names of the containers.
    Containers,
    /// The files at `path` in a container.
    ContainerFiles { container: String, path: String },
    /// The namespaces of a context.
    Namespaces { context: String },
    /// The pods of a namespace.
    Pods { context: String, ns: String },
    /// The files at `path` in a pod.
    PodFiles { context: String, ns: String, pod: String, path: String },
}

/// How far the completion of a path has come.
pub enum Suggest {
    /// These are the suggestions.
    Done(Vec<String>),
    /// This must be asked first. The answer is added to the answers, and the
    /// completion is tried again.
    Ask(Lookup),
}

/// What a lookup is.
pub ghost enum LookupView {
    Containers,
    ContainerFiles { container: Seq<char>, path: Seq<char> },
    Namespaces { context: Seq<char> },
    Pods { context: Seq<char>, ns: Seq<char> },
    PodFiles { context: Seq<char>, ns: Seq<char>, pod: Seq<char>, path: Seq<char> },
}

/// What a step of a completion is.
pub ghost enum SuggestView {
    Done(Seq<Seq<char>>),
    Ask(LookupView),
}

impl View for Lookup {
    type V = LookupView;

    open spec fn view(&self) -> LookupView {
        match self {
            Lookup::Containers => LookupView::Containers,
            Lookup::ContainerFiles { container, path } => LookupView::ContainerFiles {
                container: container@,
                path: path@,
            },
            Lookup::Namespaces { context } => LookupView::Namespaces { context: context@ },
            Lookup::Pods { context, ns } => LookupView::Pods { context: context@, ns: ns@ },
            Lookup::PodFiles { context, ns, pod, path } => LookupView::PodFiles {
                context: context@,
                ns: ns@,
                pod: pod@,
                path: path@,
            },
        }
    }
}

impl View for Suggest {
    type V = SuggestView;

    open spec fn view(&self) -> SuggestView {
        match self {
            Suggest::Done(list) => SuggestView::Done(texts(list@)),
            Suggest::Ask(lookup) => SuggestView::Ask(lookup@),
        }
    }
}

/// The answers that were given so far, each as the texts of its list. An
/// answer is missing where the lookup failed.
pub open spec fn answer_texts(answers: Seq<Option<Vec<String>>>) -> Seq<Option<Seq<Seq<char>>>> {
    answers.map_values(
        |answer: Option<Vec<String>>|
            match answer {
                Some(list) => Some(texts(list@)),
                None => None,
            },
    )
}

/// The list of an answer; nothing where the lookup failed.
pub open spec fn listed(answer: Option<Seq<Seq<char>>>) -> Seq<Seq<char>> {
    match answer {
        Some(list) => list,
        None => Seq::empty(),
    }
}

/// A step in the completion of a path inside a container or pod: the
/// suggestions, or the directory that must be listed first.
pub ghost enum FileStep {
    Done(Seq<Seq<char>>),
    List(Seq<char>),
}

/// The directory that is listed to finish the last name of `path`: what
/// stands in front of the last slash. For a pod it ends with a slash.
pub open spec fn parent_dir(path: Seq<char>, in_pod: bool) -> Seq<char> {
    let stem = joined(pieces(path, '/').drop_last(), "/"@);
    if !in_pod {
        stem
    } else if encode_utf8(stem).len() < 1 {
        "/"@
    } else {
        stem + "/"@
    }
}

/// What is set in front of each file of that directory.
pub open spec fn parent_lead(path: Seq<char>, in_pod: bool) -> Seq<char> {
    if in_pod {
        parent_dir(path, in_pod)
    } else {
        parent_dir(path, in_pod) + "/"@
    }
}

/// The completion of a path inside a container or pod.
///
/// A path that ends with a slash names a directory: it is listed, and each of
/// its files is suggested behind the path. Where that fails, or the path ends
/// otherwise, and the path is longer than one byte, the directory in front of
/// the last slash is listed, and those of its files are suggested that begin
/// like what stands behind that slash. Where that fails too, or the path is
/// too short, nothing is suggested.
pub open spec fn file_step(path: Seq<char>, answers: Seq<Option<Seq<Seq<char>>>>, in_pod: bool)
    -> FileStep {
    let whole = ends_in(path, '/');
    if whole && answers.len() == 0 {
        FileStep::List(path)
    } else if whole && answers[0] is Some {
        FileStep::Done(completions_of(answers[0]->0, Seq::empty(), path, Seq::empty()))
    } else if encode_utf8(path).len() > 1 {
        let rest = if whole {
            answers.skip(1)
        } else {
            answers
        };
        if rest.len() == 0 {
            FileStep::List(parent_dir(path, in_pod))
        } else {
            match rest[0] {
                Some(list) => FileStep::Done(
                    completions_of(
                        list,
                        pieces(path, '/').last(),
                        parent_lead(path, in_pod),
                        Seq::empty(),
                    ),
                ),
                None => FileStep::Done(Seq::empty()),
            }
        }
    } else {
        FileStep::Done(Seq::empty())
    }
}

/// The text of an optional path; nothing where there is none.
pub open spec fn path_or_empty(path: Option<Seq<char>>) -> Seq<char> {
    match path {
        Some(path) => path,
        None => Seq::empty(),
    }
}

/// The completion of a path into a container, after `answers`.
///
/// A name that is begun is completed from the names of the containers, each
/// with a colon behind it. A name that is whole is suggested with its colon
/// where files are not wanted; else the path behind it is completed from the
/// files of the container. Any other path yields nothing.
pub open spec fn docker_suggestions(
    p: PathTypeView,
    resolve_fs: bool,
    answers: Seq<Option<Seq<Seq<char>>>>,
) -> SuggestView {
    match p {
        PathTypeView::Docker(PartView::Partial(name), _) => if answers.len() == 0 {
            SuggestView::Ask(LookupView::Containers)
        } else {
            SuggestView::Done(completions_of(listed(answers[0]), name, Seq::empty(), ":"@))
        },
        PathTypeView::Docker(PartView::Full(name), path) => if !resolve_fs {
            SuggestView::Done(seq![name + ":"@])
        } else {
            match file_step(path_or_empty(path), answers, false) {
                FileStep::Done(list) => SuggestView::Done(list),
                FileStep::List(dir) => SuggestView::Ask(
                    LookupView::ContainerFiles { container: name, path: dir },
                ),
            }
        },
        _ => SuggestView::Done(Seq::empty()),
    }
}

/// The completion of a path into a pod, after `answers`, with `contexts`
/// known.
///
/// The first name that is only begun is completed: the context from the
/// contexts, the namespace from the namespaces of the context, the pod from
/// the pods of the namespace. Each suggestion repeats what was typed in front
/// of the name and ends with the sign that follows it. With all three whole,
/// the pod is suggested with its colon where files are not wanted; else the
/// path behind it is completed from the files of the pod. Any other path
/// yields nothing.
pub open spec fn k8_suggestions(
    p: PathTypeView,
    contexts: Seq<Seq<char>>,
    resolve_fs: bool,
    answers: Seq<Option<Seq<Seq<char>>>>,
) -> SuggestView {
    match p {
        PathTypeView::Kubernetes(k8, path) => {
            let context = k8.context.text();
            let ns = k8.ns.text();
            let pod = k8.pod.text();
            if k8.context is Partial {
                SuggestView::Done(completions_of(contexts, context, Seq::empty(), "/"@))
            } else if k8.ns is Partial {
                if answers.len() == 0 {
                    SuggestView::Ask(LookupView::Namespaces { context })
                } else {
                    SuggestView::Done(
                        completions_of(listed(answers[0]), ns, context + "/"@, "/"@),
                    )
                }
            } else if k8.pod is Partial {
                if answers.len() == 0 {
                    SuggestView::Ask(LookupView::Pods { context, ns })
                } else {
                    SuggestView::Done(
                        completions_of(
                            listed(answers[0]),
                            pod,
                            context + "/"@ + ns + "/"@,
                            ":"@,
                        ),
                    )
                }
            } else if !resolve_fs {
                SuggestView::Done(seq![context + "/"@ + ns + "/"@ + pod + ":"@])
            } else {
                match file_step(path_or_empty(path), answers, true) {
                    FileStep::Done(list) => SuggestView::Done(list),
                    FileStep::List(dir) => SuggestView::Ask(
                        LookupView::PodFiles { context, ns, pod, path: dir },
                    ),
                }
            }
        },
        _ => SuggestView::Done(Seq::empty()),
    }
}

/// A step of the completion of a path inside a container or pod, as it is
/// handed on: the suggestions, or the directory to list.
pub enum FileAsk {
    Done(Vec<String>),
    List(String),
}

impl View for FileAsk {
    type V = FileStep;

    open spec fn view(&self) -> FileStep {
        match self {
            FileAsk::Done(list) => FileStep::Done(texts(list@)),
            FileAsk::List(dir) => FileStep::List(dir@),
        }
    }
}

/// Completes a path inside a container or pod as far as `answers` allow.
pub fn complete_file(path: &str, answers: &Vec<Option<Vec<String>>>, in_pod: bool) -> (step:
    FileAsk)
    ensures
        step@ == file_step(path@, answer_texts(answers@), in_pod),
{
    let ghost given = answer_texts(answers@);
    let empty = String::new();
    let whole = ends_with_char(path, '/');
    if whole && answers.len() == 0 {
        return FileAsk::List(path.to_owned());
    }
    let mut next: usize = 0;
    if whole {
        match &answers[0] {
            Some(list) => {
                assert(given[0] == Some(texts(list@)));
                return FileAsk::Done(complete_each(list, empty.as_str(), path, empty.as_str()));
            },
            None => {
                assert(given[0] is None);
            },
        }
        next = 1;
    }
    if byte_len(path) > 1 {
        let words = split(path, '/');
        proof {
            lemma_pieces(path@, '/');
            assert(texts(words@).take(words@.len() - 1) =~= texts(words@).drop_last());
            assert(texts(words@).last() == words@[words@.len() - 1]@);
        }
        let stem = join(&words, words.len() - 1, "/");
        let dir = if !in_pod {
            stem
        } else if byte_len(stem.as_str()) < 1 {
            "/".to_owned()
        } else {
            concat(stem.as_str(), "/")
        };
        assert(dir@ == parent_dir(path@, in_pod));
        if next >= answers.len() {
            assert(given.skip(next as int).len() == 0);
            return FileAsk::List(dir);
        }
        assert(given.skip(next as int)[0] == given[next as int]);
        match &answers[next] {
            Some(list) => {
                assert(given[next as int] == Some(texts(list@)));
                let lead = if in_pod {
                    dir
                } else {
                    concat(dir.as_str(), "/")
                };
                let file = words[words.len() - 1].as_str();
                assert(given.skip(0) =~= given);
                FileAsk::Done(complete_each(list, file, lead.as_str(), empty.as_str()))
            },
            None => {
                assert(given[next as int] is None);
                assert(given.skip(0) =~= given);
                let none: Vec<String> = Vec::new();
                assert(texts(none@) =~= Seq::<Seq<char>>::empty());
                FileAsk::Done(none)
            },
        }
    } else {
        let none: Vec<String> = Vec::new();
        assert(texts(none@) =~= Seq::<Seq<char>>::empty());
        FileAsk::Done(none)
    }
}

/// The list of an answer, or an empty list where the lookup failed.
fn answer_list(answers: &Vec<Option<Vec<String>>>) -> (list: Vec<String>)
    requires
        answers@.len() > 0,
    ensures
        texts(list@) == listed(answer_texts(answers@)[0]),
{
    match &answers[0] {
        Some(list) => {
            let list = list.clone();
            assert(texts(list@) =~= listed(answer_texts(answers@)[0]));
            list
        },
        None => {
            let none: Vec<String> = Vec::new();
            assert(texts(none@) =~= Seq::<Seq<char>>::empty());
            none
        },
    }
}

impl PathType {
    /// Completes a path into a container as far as `answers` allow.
    pub fn get_docker_suggestions(&self, resolve_fs: bool, answers: &Vec<Option<Vec<String>>>) -> (r:
        Suggest)
        ensures
            r@ == docker_suggestions(self@, resolve_fs, answer_texts(answers@)),
    {
        let empty = String::new();
        match self {
            PathType::Docker(Part::Partial(name), _) => {
                if answers.len() == 0 {
                    Suggest::Ask(Lookup::Containers)
                } else {
                    let list = answer_list(answers);
                    Suggest::Done(complete_each(&list, name.as_str(), empty.as_str(), ":"))
                }
            },
            PathType::Docker(Part::Full(name), path) => {
                if !resolve_fs {
                    let mut list: Vec<String> = Vec::new();
                    list.push(concat(name.as_str(), ":"));
                    assert(texts(list@) =~= seq![name@ + ":"@]);
                    return Suggest::Done(list);
                }
                let path = match path {
                    Some(path) => path.clone(),
                    None => String::new(),
                };
                match complete_file(path.as_str(), answers, false) {
                    FileAsk::Done(list) => Suggest::Done(list),
                    FileAsk::List(dir) => Suggest::Ask(
                        Lookup::ContainerFiles { container: name.clone(), path: dir },
                    ),
                }
            },
            _ => {
                let none: Vec<String> = Vec::new();
                assert(texts(none@) =~= Seq::<Seq<char>>::empty());
                Suggest::Done(none)
            },
        }
    }

    /// Completes a path into a pod as far as `answers` allow.
    pub fn get_k8_suggestions(
        &self,
        kube: &KubeConfigs,
        resolve_fs: bool,
        answers: &Vec<Option<Vec<String>>>,
    ) -> (r: Suggest)
        ensures
            r@ == k8_suggestions(
                self@,
                entry_names(kube.entries()),
                resolve_fs,
                answer_texts(answers@),
            ),
    {
        let empty = String::new();
        match self {
            PathType::Kubernetes(k8, path) => {
                let context = k8.context.text();
                if let Part::Partial(_) = &k8.context {
                    let contexts = kube.names();
                    return Suggest::Done(
                        complete_each(&contexts, context.as_str(), empty.as_str(), "/"),
                    );
                }
                let ns = k8.ns.text();
                let mut lead = concat(context.as_str(), "/");
                if let Part::Partial(_) = &k8.ns {
                    if answers.len() == 0 {
                        return Suggest::Ask(Lookup::Namespaces { context: context.clone() });
                    }
                    let list = answer_list(answers);
                    return Suggest::Done(complete_each(&list, ns.as_str(), lead.as_str(), "/"));
                }
                let pod = k8.pod.text();
                lead.append(ns.as_str());
                lead.append("/");
                if let Part::Partial(_) = &k8.pod {
                    if answers.len() == 0 {
                        return Suggest::Ask(
                            Lookup::Pods { context: context.clone(), ns: ns.clone() },
                        );
                    }
                    let list = answer_list(answers);
                    return Suggest::Done(complete_each(&list, pod.as_str(), lead.as_str(), ":"));
                }
                if !resolve_fs {
                    lead.append(pod.as_str());
                    lead.append(":");
                    let mut list: Vec<String> = Vec::new();
                    list.push(lead);
                    assert(texts(list@) =~= seq![context@ + "/"@ + ns@ + "/"@ + pod@ + ":"@]);
                    return Suggest::Done(list);
                }
                let path = match path {
                    Some(path) => path.clone(),
                    None => String::new(),
                };
                match complete_file(path.as_str(), answers, true) {
                    FileAsk::Done(list) => Suggest::Done(list),
                    FileAsk::List(dir) => Suggest::Ask(
                        Lookup::PodFiles {
                            context: context.clone(),
                            ns: ns.clone(),
                            pod: pod.clone(),
                            path: dir,
                        },
                    ),
                }
            },
            _ => {
                let none: Vec<String> = Vec::new();
                assert(texts(none@) =~= Seq::<Seq<char>>::empty());
                Suggest::Done(none)
            },
        }
    }

    /// Completes a typed path as far as `answers` allow. A path of this
    /// machine cannot be completed.
    pub fn get_suggestions(
        &self,
        kube: &KubeConfigs,
        resolve_fs: bool,
        answers: &Vec<Option<Vec<String>>>,
    ) -> (r: Option<Suggest>)
        ensures
            match self@ {
                PathTypeView::Docker(_, _) => r is Some && r->0@ == docker_suggestions(
                    self@,
                    resolve_fs,
                    answer_texts(answers@),
                ),
                PathTypeView::Kubernetes(_, _) => r is Some && r->0@ == k8_suggestions(
                    self@,
                    entry_names(kube.entries()),
                    resolve_fs,
                    answer_texts(answers@),
                ),
                PathTypeView::Fs(_) => r is None,
            },
    {
        match self {
            PathType::Docker(_, _) => Some(self.get_docker_suggestions(resolve_fs, answers)),
            PathType::Kubernetes(_, _) => Some(self.get_k8_suggestions(kube, resolve_fs, answers)),
            PathType::Fs(_) => None,
        }
    }
}

} // verus!
