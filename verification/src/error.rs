//! The harness's error vocabulary and its one seam onto git.

use vstd::prelude::*;
use crate::prompt::budget::Exhausted;

verus! {

/// `std::io::Error`, carried through as the source of a failure.
#[verifier::external_type_specification]
#[verifier::external_body]
pub struct ExIoError(std::io::Error);

/// The arguments of a git call, each taken by its characters.
pub open spec fn argv(args: Seq<&str>) -> Seq<Seq<char>> {
    args.map_values(|a: &str| a@)
}

/// Strings, each taken by its characters.
pub open spec fn strs(v: Seq<String>) -> Seq<Seq<char>> {
    v.map_values(|a: String| a@)
}

/// Any truth value for a call of kind `tag`: what picks one, per call,
/// where nothing else is known of it.
pub(crate) closed spec fn one_of(tag: int, dest: Seq<char>, args: Seq<Seq<char>>, out: Seq<char>, b: bool) -> bool {
    b || !b
}

/// The slice of git the harness drives: run a command in `dest`, or
/// run it and capture its standard output. A non-zero exit is an `Err`.
/// Production runs the `git` binary; tests script the replies.
///
/// What a repository answers depends on its state, so nothing is said of
/// which calls succeed or what they print. The relations below only
/// record, for each implementation, which calls were seen to succeed, to
/// fail, and what they were seen to print: a contract over them states which
/// command a function runs and what it makes of the reply.
pub trait GitRunner {
    /// `git <args>` inside `dest` can exit zero: a truth value fixed per
    /// call and otherwise unknown.
    closed spec fn succeeds(&self, dest: Seq<char>, args: Seq<Seq<char>>) -> bool {
        choose|b: bool| one_of(0, dest, args, seq![], b)
    }

    /// `git <args>` inside `dest` can fail: a truth value fixed per call and
    /// otherwise unknown.
    closed spec fn fails(&self, dest: Seq<char>, args: Seq<Seq<char>>) -> bool {
        choose|b: bool| one_of(1, dest, args, seq![], b)
    }

    /// `git <args>` inside `dest` can exit zero printing `out`: a truth
    /// value fixed per call and reply and otherwise unknown.
    closed spec fn prints(&self, dest: Seq<char>, args: Seq<Seq<char>>, out: Seq<char>) -> bool {
        choose|b: bool| one_of(2, dest, args, out, b)
    }

    /// Run `git <args>` inside `dest`.
    fn run(&self, dest: &str, args: &[&str]) -> (r: std::io::Result<()>)
        ensures
            r is Ok ==> self.succeeds(dest@, argv(args@)),
            r is Err ==> self.fails(dest@, argv(args@)),
    ;

    /// Run `git <args>` inside `dest` and return its standard output.
    fn run_capture(&self, dest: &str, args: &[&str]) -> (r: std::io::Result<String>)
        ensures
            r matches Ok(out) ==> self.prints(dest@, argv(args@), out@),
            r is Err ==> self.fails(dest@, argv(args@)),
    ;
}

/// What went wrong in a harness operation.
#[derive(Debug)]
pub enum Error {
    /// A git invocation failed; `op` names which one.
    Git { op: &'static str, source: std::io::Error },
    /// A filesystem operation failed.
    Io(std::io::Error),
    /// A control file could not be read from the governing config commit;
    /// `path` is `<commit>:<path>`.
    ControlRead { path: String, source: std::io::Error },
    /// A dispatch the declared `budgets:` forbid: refused before the
    /// fork, so no branch, worktree or inbox was made.
    DispatchRefused { child: String, parent: String, exhausted: Exhausted },
    /// A tool call's accumulated input is not JSON; `json` is that input.
    AdapterJson { json: String },
    /// A workflow binding named an action this seam does not run.
    ActionUnsupported { action: String, event: &'static str },
}

/// `std::io::Error::other(message)`: an error of kind `Other` carrying
/// `message`.
#[verifier::external_body]
pub(crate) fn other_io_error(message: String) -> std::io::Error {
    std::io::Error::other(message)
}

/// The `Git` error for `op`.
pub fn git_error(op: &'static str, source: std::io::Error) -> (e: Error)
    ensures
        e matches Error::Git { op: o, .. } && o == op,
{
    Error::Git { op, source }
}

} // verus!
