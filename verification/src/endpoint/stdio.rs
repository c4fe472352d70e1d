//! Endpoints of this machine: standard input and output, and local paths.

use crate::text::ends_in;
use crate::text::ends_with_char;
use crate::text::is_digit;
use crate::text::chars_of;
use crate::text::digit_of;
use crate::text::number;
use crate::text::part;
use crate::text::read_number;
use std::path::Path;
use vstd::prelude::*;

verus! {

/// Standard input and standard output of this process as one endpoint.
pub struct StdioPipeEndpoint;

/// Why a local copy could not begin.
#[derive(Debug, Clone)]
pub enum Error {
    PathDoesNotExist,
    ExecError(String),
}

/// The last component of a path as `std::path::Path::file_name` gives it.
/// std reads a path by the rules of the system that the crate is built for,
/// so this is the function of that one build.
pub uninterp spec fn path_file_name(path: Seq<char>) -> Option<Seq<char>>;

/// A path without its last component as `std::path::Path::parent` gives it.
/// std reads a path by the rules of the system that the crate is built for,
/// so this is the function of that one build.
pub uninterp spec fn path_parent(path: Seq<char>) -> Option<Seq<char>>;

/// The text of an optional string.
pub open spec fn text_of(s: Option<String>) -> Option<Seq<char>> {
    match s {
        Some(s) => Some(s@),
        None => None,
    }
}

/// `Path::file_name` of std on the path that `path` writes: the last
/// component, where the path has one. Nothing more is claimed than that the
/// result depends on the text of the path alone.
#[verifier::external_body]
pub(crate) fn file_name(path: &str) -> (name: Option<String>)
    ensures
        text_of(name) == path_file_name(path@),
{
    match Path::new(path).file_name() {
        Some(name) => match name.to_str() {
            Some(name) => Some(name.to_owned()),
            None => None,
        },
        None => None,
    }
}

/// `Path::parent` of std on the path that `path` writes: the path without
/// its last component, where it has one. Nothing more is claimed than that
/// the result depends on the text of the path alone.
#[verifier::external_body]
pub(crate) fn parent(path: &str) -> (dir: Option<String>)
    ensures
        text_of(dir) == path_parent(path@),
{
    match Path::new(path).parent() {
        Some(dir) => match dir.to_str() {
            Some(dir) => Some(dir.to_owned()),
            None => None,
        },
        None => None,
    }
}

/// Directory and target of what is copied from `path`. A path that ends with
/// a slash means all that is in it: the directory is the path without that
/// slash, the target a dot. Any other path means its last component, in the
/// directory that is its parent; without either there is nothing to copy.
pub open spec fn source_parts(
    path: Seq<char>,
    name: Option<Seq<char>>,
    dir: Option<Seq<char>>,
) -> Option<(Seq<char>, Seq<char>)> {
    if ends_in(path, '/') {
        Some((path.drop_last(), "."@))
    } else if name is Some && dir is Some {
        Some((dir->0, name->0))
    } else {
        None
    }
}

/// The texts of an optional pair of strings.
pub open spec fn pair_text(pair: Option<(String, String)>) -> Option<(Seq<char>, Seq<char>)> {
    match pair {
        Some((a, b)) => Some((a@, b@)),
        None => None,
    }
}

/// Directory and target of what is copied from `path`, given the last
/// component of the path and its parent.
pub fn split_source_path(path: &str, name: Option<String>, dir: Option<String>) -> (r: Option<
    (String, String),
>)
    ensures
        pair_text(r) == source_parts(path@, text_of(name), text_of(dir)),
{
    if ends_with_char(path, '/') {
        let n = path.unicode_len();
        let stripped = part(path, 0, n - 1);
        assert(stripped@ =~= path@.drop_last());
        return Some((stripped, ".".to_owned()));
    }
    match (name, dir) {
        (Some(name), Some(dir)) => Some((dir, name)),
        _ => None,
    }
}

/// Directory and target of what is copied from `path`.
pub fn copy_source_parts(path: &str) -> (r: Option<(String, String)>)
    ensures
        pair_text(r) == source_parts(path@, path_file_name(path@), path_parent(path@)),
{
    let name = file_name(path);
    let dir = parent(path);
    split_source_path(path, name, dir)
}

/// The digits of `s`, in order.
pub open spec fn digits_of(s: Seq<char>) -> Seq<char>
    decreases s.len(),
{
    if s.len() == 0 {
        Seq::empty()
    } else if is_digit(s.last()) {
        digits_of(s.drop_last()).push(s.last())
    } else {
        digits_of(s.drop_last())
    }
}

/// The size that a byte count printed as `out` states: the number that the
/// digits of `out` write, whatever stands between and around them.
pub open spec fn stated_size(out: Seq<char>) -> Option<u64> {
    match number(digits_of(out), u64::MAX as nat) {
        Some(n) => Some(n as u64),
        None => None,
    }
}

/// Reads the size of an archive from what the counting command printed.
/// Without a digit, or with a number that is too large, there is no size.
pub fn parse_size(out: &str) -> (size: Option<u64>)
    ensures
        size == stated_size(out@),
{
    let chars = chars_of(out);
    let mut digits: Vec<char> = Vec::new();
    let mut i: usize = 0;
    assert(out@.take(0) =~= Seq::<char>::empty());
    while i < chars.len()
        invariant
            chars@ == out@,
            i <= chars@.len(),
            digits@ == digits_of(out@.take(i as int)),
        decreases chars@.len() - i,
    {
        assert(out@.take(i + 1).drop_last() =~= out@.take(i as int));
        if digit_of(chars[i]).is_some() {
            digits.push(chars[i]);
        }
        i = i + 1;
    }
    assert(out@.take(i as int) =~= out@);
    assert(digits@.skip(0) =~= digits@);
    read_number(&digits, 0, u64::MAX)
}

/// What the error output of a command that was just started means: nothing
/// is well, anything is the reason why the copy cannot go on.
pub fn precheck(stderr: &str) -> (r: Result<(), Error>)
    ensures
        stderr@.len() == 0 ==> r is Ok,
        stderr@.len() > 0 ==> r is Err && r->Err_0 is ExecError && r->Err_0->ExecError_0@
            == stderr@,
{
    if stderr.unicode_len() == 0 {
        Ok(())
    } else {
        Err(Error::ExecError(stderr.to_owned()))
    }
}

} // verus!
