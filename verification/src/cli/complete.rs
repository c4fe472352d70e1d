//! Completion of the command line.

use crate::cli::Shell;
use crate::text::begins_with;
use crate::text::complete_each;
use crate::text::completions_of;
use crate::text::pieces;
use crate::text::same_text;
use crate::text::split;
use crate::text::texts;
use vstd::prelude::*;
use vstd::string::StrSliceExecFns;

verus! {

/// What is to be completed.
pub enum Completion {
    /// The name of a command that begins like this.
    Commands(String),
    /// A path to list.
    Ls(String),
    /// A forward point.
    Pf(String),
    /// A copy point.
    Cp(String),
    /// Nothing: the command is not known.
    Nothing,
}

/// What a completion is.
pub ghost enum CompletionView {
    Commands(Seq<char>),
    Ls(Seq<char>),
    Pf(Seq<char>),
    Cp(Seq<char>),
    Nothing,
}

impl View for Completion {
    type V = CompletionView;

    open spec fn view(&self) -> CompletionView {
        match self {
            Completion::Commands(word) => CompletionView::Commands(word@),
            Completion::Ls(word) => CompletionView::Ls(word@),
            Completion::Pf(word) => CompletionView::Pf(word@),
            Completion::Cp(word) => CompletionView::Cp(word@),
            Completion::Nothing => CompletionView::Nothing,
        }
    }
}

/// A word is a flag where it begins with a dash and goes on.
pub open spec fn is_flag(word: Seq<char>) -> bool {
    begins_with(word, '-') && word.len() > 1
}

/// The words of `words` that are no flags, in order.
pub open spec fn without_flags(words: Seq<Seq<char>>) -> Seq<Seq<char>>
    decreases words.len(),
{
    if words.len() == 0 {
        Seq::empty()
    } else if is_flag(words.last()) {
        without_flags(words.drop_last())
    } else {
        without_flags(words.drop_last()).push(words.last())
    }
}

/// What is to be completed on a command line of these words, flags left out.
/// The first word is the program. With one word more, the name of a command is
/// completed; with more, the last argument of `ls`, `pf` or `cp`, where `pf`
/// and `cp` take two.
pub open spec fn completion_of(args: Seq<Seq<char>>) -> Option<CompletionView> {
    if args.len() < 2 {
        None
    } else if args.len() < 3 {
        Some(CompletionView::Commands(args[1]))
    } else {
        let last = if args.len() > 3 {
            args[3]
        } else {
            args[2]
        };
        if args[1] == "ls"@ {
            Some(CompletionView::Ls(args[2]))
        } else if args[1] == "pf"@ {
            Some(CompletionView::Pf(last))
        } else if args[1] == "cp"@ {
            Some(CompletionView::Cp(last))
        } else {
            Some(CompletionView::Nothing)
        }
    }
}

/// The line that teaches a shell to ask this program for completions.
pub fn completion_script(shell: Shell) -> (script: String)
    ensures
        script@ == "complete -C 'rs -cb' -o nospace rs"@,
{
    match shell {
        Shell::Bash => "complete -C 'rs -cb' -o nospace rs".to_owned(),
    }
}

/// Drops the flags from `words`.
fn drop_flags(words: Vec<String>) -> (args: Vec<String>)
    ensures
        texts(args@) == without_flags(texts(words@)),
{
    let mut args: Vec<String> = Vec::new();
    let mut i: usize = 0;
    let ghost all = texts(words@);
    assert(all.take(0) =~= Seq::<Seq<char>>::empty());
    assert(texts(args@) =~= Seq::<Seq<char>>::empty());
    while i < words.len()
        invariant
            i <= words@.len(),
            all == texts(words@),
            texts(args@) == without_flags(all.take(i as int)),
        decreases words@.len() - i,
    {
        proof {
            assert(all.take(i + 1).drop_last() =~= all.take(i as int));
            assert(all.take(i + 1).last() == words@[i as int]@);
        }
        let word = words[i].as_str();
        let n = word.unicode_len();
        if !(n > 1 && word.get_char(0) == '-') {
            let kept = words[i].clone();
            let ghost so_far = texts(args@);
            assert(texts(args@.push(kept)) =~= so_far.push(kept@));
            args.push(kept);
        }
        i = i + 1;
    }
    assert(all.take(i as int) =~= all);
    args
}

/// What is to be completed on the command line `line`. A line of one word
/// asks for nothing that could be answered.
pub fn bash_complete(line: &str) -> (r: Option<Completion>)
    ensures
        match completion_of(without_flags(pieces(line@, ' '))) {
            Some(completion) => r is Some && r->0@ == completion,
            None => r is None,
        },
{
    let args = drop_flags(split(line, ' '));
    if args.len() < 2 {
        return None;
    }
    assert(texts(args@)[1] == args@[1]@);
    if args.len() < 3 {
        return Some(Completion::Commands(args[1].clone()));
    }
    assert(texts(args@)[2] == args@[2]@);
    let last = if args.len() > 3 {
        assert(texts(args@)[3] == args@[3]@);
        args[3].clone()
    } else {
        args[2].clone()
    };
    let command = args[1].as_str();
    if same_text(command, "ls") {
        Some(Completion::Ls(args[2].clone()))
    } else if same_text(command, "pf") {
        Some(Completion::Pf(last))
    } else if same_text(command, "cp") {
        Some(Completion::Cp(last))
    } else {
        Some(Completion::Nothing)
    }
}

/// The commands that begin with `com`, each with a blank behind it.
pub fn complete_commands(com: &str) -> (options: Vec<String>)
    ensures
        texts(options@) == completions_of(
            seq!["pf "@, "ls "@, "cp "@],
            com@,
            Seq::empty(),
            Seq::empty(),
        ),
{
    let mut commands: Vec<String> = Vec::new();
    commands.push("pf ".to_owned());
    commands.push("ls ".to_owned());
    commands.push("cp ".to_owned());
    assert(texts(commands@) =~= seq!["pf "@, "ls "@, "cp "@]);
    let empty = String::new();
    complete_each(&commands, com, empty.as_str(), empty.as_str())
}

/// The local forward points that begin with `local`.
pub fn match_local(local: &str) -> (options: Vec<String>)
    ensures
        texts(options@) == completions_of(
            seq![":"@, "0.0.0.0:"@, "- "@],
            local@,
            Seq::empty(),
            Seq::empty(),
        ),
{
    let mut points: Vec<String> = Vec::new();
    points.push(":".to_owned());
    points.push("0.0.0.0:".to_owned());
    points.push("- ".to_owned());
    assert(texts(points@) =~= seq![":"@, "0.0.0.0:"@, "- "@]);
    let empty = String::new();
    complete_each(&points, local, empty.as_str(), empty.as_str())
}

} // verus!
