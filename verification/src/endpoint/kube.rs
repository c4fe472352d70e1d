//! Pods, and the contexts through which clusters are reached.

use crate::text::concat;
use crate::text::decimal;
use crate::text::decimal_text;
use crate::text::lemma_decimal_injective;
use crate::text::part;
use crate::text::same_text;
use crate::text::texts;
use vstd::prelude::*;
use vstd::string::StrSliceExecFns;

verus! {

/// Why the cluster did not do what was asked.
#[derive(Debug)]
pub enum Error {
    KubeError(String),
    KubeConfigError(String),
    ContextNotFound(String),
    ExecError(String),
}

/// A context of a configuration file.
pub struct ContextEntry {
    /// The name under which the context is entered. No two entries share it.
    pub name: String,
    /// The file that holds the context.
    pub file: String,
    /// The name that the context has in its file.
    pub in_file: String,
}

/// What an entry is.
pub ghost struct ContextView {
    pub name: Seq<char>,
    pub file: Seq<char>,
    pub in_file: Seq<char>,
}

impl View for ContextEntry {
    type V = ContextView;

    open spec fn view(&self) -> ContextView {
        ContextView { name: self.name@, file: self.file@, in_file: self.in_file@ }
    }
}

/// The names under which `entries` are entered, in order.
pub open spec fn entry_names(entries: Seq<ContextView>) -> Seq<Seq<char>> {
    entries.map_values(|entry: ContextView| entry.name)
}

/// `name` with an underscore and the number `i` behind it.
pub open spec fn numbered(name: Seq<char>, i: nat) -> Seq<char> {
    name + seq!['_'] + decimal_text(i)
}

/// `entry` is the name under which a context called `name` is entered beside
/// the names `taken`: `name` itself where it is free, else `name` with the
/// lowest number from 2 on that makes a free name.
pub open spec fn is_entry_name(taken: Seq<Seq<char>>, name: Seq<char>, entry: Seq<char>) -> bool {
    if !taken.contains(name) {
        entry == name
    } else {
        exists|i: nat|
            {
                &&& 2 <= i
                &&& entry == #[trigger] numbered(name, i)
                &&& !taken.contains(entry)
                &&& forall|j: nat| 2 <= j < i ==> taken.contains(#[trigger] numbered(name, j))
            }
    }
}

/// A configuration file is one whose path ends with `.config` or `/config`.
pub open spec fn is_config(path: Seq<char>) -> bool {
    ".config"@.is_suffix_of(path) || "/config"@.is_suffix_of(path)
}

/// Names with different numbers differ.
pub proof fn lemma_numbered_injective(name: Seq<char>, a: nat, b: nat)
    requires
        numbered(name, a) == numbered(name, b),
    ensures
        a == b,
{
    let skip = name.len() + 1;
    assert(numbered(name, a).skip(skip as int) =~= decimal_text(a));
    assert(numbered(name, b).skip(skip as int) =~= decimal_text(b));
    lemma_decimal_injective(a, b);
}

/// Where every numbered name below `i` is taken, the taken names are at
/// least that many.
pub proof fn lemma_numbered_bound(taken: Seq<Seq<char>>, name: Seq<char>, i: nat)
    requires
        2 <= i,
        forall|j: nat| 2 <= j < i ==> taken.contains(#[trigger] numbered(name, j)),
    ensures
        i - 2 <= taken.len(),
{
    let range = vstd::set_lib::set_int_range(2, i as int);
    let name_of = |j: int| numbered(name, j as nat);
    let image = range.map(name_of);
    assert forall|x: int, y: int|
        range.contains(x) && range.contains(y) && #[trigger] name_of(x) == #[trigger] name_of(
            y,
        ) implies x == y by {
        lemma_numbered_injective(name, x as nat, y as nat);
    }
    assert(vstd::relations::injective_on(name_of, range));
    vstd::set_lib::lemma_int_range(2, i as int);
    vstd::set_lib::lemma_map_size(range, image, name_of);
    assert forall|text: Seq<char>| image.contains(text) implies taken.to_set().contains(text) by {
        let j = choose|j: int| range.contains(j) && name_of(j) == text;
        assert(taken.contains(numbered(name, j as nat)));
    }
    assert(image.subset_of(taken.to_set()));
    taken.lemma_cardinality_of_set();
    vstd::set_lib::lemma_len_subset(image, taken.to_set());
}

/// Whether `path` is that of a configuration file.
pub fn is_config_path(path: &str) -> (r: bool)
    ensures
        r == is_config(path@),
{
    ends_with(path, ".config") || ends_with(path, "/config")
}

/// Whether `s` ends with `tail`.
fn ends_with(s: &str, tail: &str) -> (r: bool)
    ensures
        r == tail@.is_suffix_of(s@),
{
    let n = s.unicode_len();
    let m = tail.unicode_len();
    if m > n {
        return false;
    }
    let end = part(s, n - m, n);
    same_text(end.as_str(), tail)
}

/// The contexts that were found, each under a name of its own, and the
/// context that is used where none is named.
pub struct KubeConfigs {
    contexts: Vec<ContextEntry>,
    default_context: Option<String>,
}

impl KubeConfigs {
    /// The entries, in the order in which they were added.
    pub closed spec fn entries(&self) -> Seq<ContextView> {
        self.contexts@.map_values(|entry: ContextEntry| entry@)
    }

    /// The context that is used where none is named.
    pub closed spec fn default_name(&self) -> Option<Seq<char>> {
        match self.default_context {
            Some(name) => Some(name@),
            None => None,
        }
    }

    /// No two entries share a name.
    pub open spec fn wf(&self) -> bool {
        entry_names(self.entries()).no_duplicates()
    }

    /// No contexts, and no default.
    pub fn new() -> (kube: KubeConfigs)
        ensures
            kube.wf(),
            kube.entries() == Seq::<ContextView>::empty(),
            kube.default_name() is None,
    {
        let kube = KubeConfigs { contexts: Vec::new(), default_context: None };
        assert(kube.entries() =~= Seq::<ContextView>::empty());
        kube
    }

    /// Whether an entry goes by `name`.
    pub fn has_context(&self, name: &str) -> (r: bool)
        ensures
            r == entry_names(self.entries()).contains(name@),
    {
        let ghost names = entry_names(self.entries());
        let mut i: usize = 0;
        while i < self.contexts.len()
            invariant
                i <= self.contexts@.len(),
                names == entry_names(self.entries()),
                forall|j: int| 0 <= j < i ==> names[j] != name@,
            decreases self.contexts@.len() - i,
        {
            if same_text(self.contexts[i].name.as_str(), name) {
                assert(names[i as int] == name@);
                return true;
            }
            i = i + 1;
        }
        false
    }

    /// The name under which a context called `name` would be entered.
    pub fn entry_name(&self, name: &str) -> (entry: String)
        ensures
            is_entry_name(entry_names(self.entries()), name@, entry@),
    {
        if !self.has_context(name) {
            return name.to_owned();
        }
        let ghost taken = entry_names(self.entries());
        let stem = concat(name, "_");
        proof {
            reveal_strlit("_");
            assert(stem@ =~= name@ + seq!['_']);
        }
        assert(taken.len() == self.contexts.len());
        let mut i: u128 = 2;
        loop
            invariant
                2 <= i <= taken.len() + 2,
                taken == entry_names(self.entries()),
                taken.len() <= usize::MAX,
                stem@ == name@ + seq!['_'],
                taken.contains(name@),
                forall|j: nat| 2 <= j < i ==> taken.contains(#[trigger] numbered(name@, j)),
            decreases taken.len() + 2 - i,
        {
            let entry = concat(stem.as_str(), decimal(i).as_str());
            assert(entry@ =~= numbered(name@, i as nat));
            if !self.has_context(entry.as_str()) {
                return entry;
            }
            proof {
                lemma_numbered_bound(taken, name@, (i + 1) as nat);
            }
            i = i + 1;
        }
    }

    /// Enters the context `name` of `file`. The result is the name under which
    /// it is entered.
    pub fn add_context(&mut self, file: &str, name: &str) -> (entry: String)
        requires
            old(self).wf(),
        ensures
            final(self).wf(),
            is_entry_name(entry_names(old(self).entries()), name@, entry@),
            final(self).entries() == old(self).entries().push(
                ContextView { name: entry@, file: file@, in_file: name@ },
            ),
            final(self).default_name() == old(self).default_name(),
    {
        let entry = self.entry_name(name);
        let ghost before = self.entries();
        let ghost added = ContextView { name: entry@, file: file@, in_file: name@ };
        self.contexts.push(
            ContextEntry { name: entry.clone(), file: file.to_owned(), in_file: name.to_owned() },
        );
        proof {
            assert(self.entries() =~= before.push(added));
            let names = entry_names(before);
            assert(entry_names(self.entries()) =~= names.push(entry@));
            assert(!names.contains(entry@)) by {
                if !names.contains(name@) {
                } else {
                }
            }
            assert forall|i: int, j: int|
                0 <= i < names.len() + 1 && 0 <= j < names.len() + 1 && i != j implies names.push(
                entry@,
            )[i] != names.push(entry@)[j] by {
                if i < names.len() && j < names.len() {
                    assert(names[i] != names[j]);
                } else if i < names.len() {
                    assert(names.contains(names[i]));
                } else {
                    assert(names.contains(names[j]));
                }
            }
        }
        entry
    }

    /// Sets the context that is used where none is named.
    pub fn set_default(&mut self, name: Option<String>)
        ensures
            final(self).entries() == old(self).entries(),
            final(self).default_name() == match name {
                Some(name) => Some(name@),
                None => None,
            },
    {
        self.default_context = name;
    }

    /// The context that is used where none is named.
    pub fn default_context(&self) -> (name: Option<String>)
        ensures
            match name {
                Some(name) => self.default_name() == Some(name@),
                None => self.default_name() is None,
            },
    {
        match &self.default_context {
            Some(name) => Some(name.clone()),
            None => None,
        }
    }

    /// The names under which the contexts are entered, in the order of entry.
    pub fn names(&self) -> (list: Vec<String>)
        ensures
            texts(list@) == entry_names(self.entries()),
    {
        let mut list: Vec<String> = Vec::new();
        let mut i: usize = 0;
        while i < self.contexts.len()
            invariant
                i <= self.contexts@.len(),
                texts(list@) == entry_names(self.entries()).take(i as int),
            decreases self.contexts@.len() - i,
        {
            let name = self.contexts[i].name.clone();
            let ghost so_far = texts(list@);
            assert(texts(list@.push(name)) =~= so_far.push(name@));
            list.push(name);
            assert(texts(list@) =~= entry_names(self.entries()).take(i + 1));
            i = i + 1;
        }
        assert(entry_names(self.entries()).take(i as int) =~= entry_names(self.entries()));
        list
    }

    /// Every context with the file that holds it, in the order of entry.
    pub fn get_contexts(&self) -> (list: Vec<(String, String)>)
        ensures
            list@.len() == self.entries().len(),
            forall|i: int|
                0 <= i < list@.len() ==> {
                    &&& (#[trigger] list@[i]).0@ == self.entries()[i].name
                    &&& list@[i].1@ == self.entries()[i].file
                },
    {
        let mut list: Vec<(String, String)> = Vec::new();
        let mut i: usize = 0;
        while i < self.contexts.len()
            invariant
                i <= self.contexts@.len(),
                list@.len() == i,
                forall|j: int|
                    0 <= j < i ==> {
                        &&& (#[trigger] list@[j]).0@ == self.entries()[j].name
                        &&& list@[j].1@ == self.entries()[j].file
                    },
            decreases self.contexts@.len() - i,
        {
            let entry = &self.contexts[i];
            list.push((entry.name.clone(), entry.file.clone()));
            i = i + 1;
        }
        list
    }

    /// The file that holds the context entered as `context`, and the name that
    /// the context has there.
    pub fn get_context(&self, context: &str) -> (r: Result<(String, String), Error>)
        ensures
            match r {
                Ok((file, in_file)) => exists|i: int|
                    {
                        &&& 0 <= i < self.entries().len()
                        &&& (#[trigger] self.entries()[i]).name == context@
                        &&& self.entries()[i].file == file@
                        &&& self.entries()[i].in_file == in_file@
                    },
                Err(err) => {
                    &&& !entry_names(self.entries()).contains(context@)
                    &&& err is ContextNotFound
                    &&& err->ContextNotFound_0@ == context@
                },
            },
    {
        let ghost names = entry_names(self.entries());
        let mut i: usize = 0;
        while i < self.contexts.len()
            invariant
                i <= self.contexts@.len(),
                names == entry_names(self.entries()),
                forall|j: int| 0 <= j < i ==> names[j] != context@,
            decreases self.contexts@.len() - i,
        {
            let entry = &self.contexts[i];
            if same_text(entry.name.as_str(), context) {
                assert(self.entries()[i as int].name == context@);
                return Ok((entry.file.clone(), entry.in_file.clone()));
            }
            i = i + 1;
        }
        Err(Error::ContextNotFound(context.to_owned()))
    }
}

/// The pipe to one port of a pod. `P` is the handle on the forwarding that
/// the cluster client gave.
pub struct PortForwardPipeEndpoint<P> {
    pf: P,
    port: u16,
}

impl<P> PortForwardPipeEndpoint<P> {
    /// The handle on the forwarding.
    pub closed spec fn forwarder(&self) -> P {
        self.pf
    }

    /// The port of the pod.
    pub closed spec fn port(&self) -> u16 {
        self.port
    }

    /// The pipe to `port` through `pf`.
    pub fn new(pf: P, port: u16) -> (pipe: Self)
        ensures
            pipe.forwarder() == pf,
            pipe.port() == port,
    {
        PortForwardPipeEndpoint { pf, port }
    }

    /// Hands out the handle and the port.
    pub fn into_parts(self) -> (parts: (P, u16))
        ensures
            parts == (self.forwarder(), self.port()),
    {
        (self.pf, self.port)
    }
}

/// What the error output of a command that was just started means: nothing
/// is well, anything is the reason why the copy cannot go on.
pub fn precheck(stderr: &str) -> (r: Result<(), Error>)
    ensures
        stderr@.len() == 0 ==> r is Ok,
        stderr@.len() > 0 ==> r is Err && r->Err_0 is ExecError && r->Err_0->ExecError_0@
            == stderr@,
{
    if stderr.unicode_len() == 0 {
        Ok(())
    } else {
        Err(Error::ExecError(stderr.to_owned()))
    }
}

} // verus!
