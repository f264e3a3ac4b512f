//! What the library hands the shell around it: a git command to run with the
//! line to print when it succeeds, and what a finished git process left.
use vstd::prelude::*;

use crate::error::{error_message, SupgitError};
use crate::text::views;

verus! {

/// What a finished `git` process left behind.
pub struct GitOutput {
    pub success: bool,
    /// The exit code, when the process exited normally.
    pub code: Option<i32>,
    pub stdout: String,
    pub stderr: String,
}

/// A git command: its arguments (without `git`) and the line to print once
/// it has succeeded.
#[derive(Debug)]
pub struct GitCall {
    pub args: Vec<String>,
    pub message: String,
}

/// The arguments and the message of a call, as views.
pub open spec fn call_view(c: GitCall) -> (Seq<Seq<char>>, Seq<char>) {
    (views(c.args@), c.message@)
}

/// A refused-or-planned call, as views.
pub open spec fn call_result_view(r: Result<GitCall, SupgitError>) -> Result<
    (Seq<Seq<char>>, Seq<char>),
    SupgitError,
> {
    match r {
        Ok(c) => Ok(call_view(c)),
        Err(e) => Err(e),
    }
}

/// A refused-or-planned call, with a refusal taken by the text it prints.
pub open spec fn outcome(r: Result<GitCall, SupgitError>) -> Result<
    (Seq<Seq<char>>, Seq<char>),
    Seq<char>,
> {
    match r {
        Ok(c) => Ok(call_view(c)),
        Err(e) => Err(error_message(e)),
    }
}

/// What a command does with its flags: ask the user, or run a git command.
pub enum Request {
    Prompt,
    Run(GitCall),
}

pub open spec fn request_view(r: Request) -> Option<(Seq<Seq<char>>, Seq<char>)> {
    match r {
        Request::Prompt => None,
        Request::Run(c) => Some(call_view(c)),
    }
}

/// A call that cannot be refused, from its arguments and message.
pub fn git_call(args: Vec<String>, message: String) -> (r: GitCall)
    ensures
        call_view(r) == (views(args@), message@),
{
    GitCall { args, message }
}

/// A call from literal arguments and message.
pub fn literal_call(args: &[&str], message: &str) -> (r: GitCall)
    ensures
        call_view(r) == (args@.map_values(|a: &str| a@), message@),
{
    let mut v: Vec<String> = Vec::new();
    let mut i: usize = 0;
    while i < args.len()
        invariant
            i <= args.len(),
            views(v@) == args@.take(i as int).map_values(|a: &str| a@),
        decreases args.len() - i,
    {
        crate::text::push_str(&mut v, args[i]);
        assert(args@.take(i + 1).map_values(|a: &str| a@) =~= args@.take(i as int).map_values(
            |a: &str| a@,
        ).push(args@[i as int]@));
        i += 1;
    }
    assert(args@.take(args.len() as int) =~= args@);
    git_call(v, String::from_str(message))
}

/// A call whose arguments are `prefix` followed by `rest`.
pub fn call_with(prefix: &[&str], rest: &Vec<String>, message: String) -> (r: GitCall)
    ensures
        call_view(r) == (prefix@.map_values(|a: &str| a@) + views(rest@), message@),
{
    let c = literal_call(prefix, "");
    let mut v = c.args;
    let mut i: usize = 0;
    let ghost start = views(v@);
    while i < rest.len()
        invariant
            i <= rest.len(),
            views(v@) == start + views(rest@).take(i as int),
        decreases rest.len() - i,
    {
        crate::text::push_string(&mut v, crate::text::copy_string(&rest[i]));
        assert(views(rest@).take(i + 1) =~= views(rest@).take(i as int).push(rest@[i as int]@));
        i += 1;
    }
    assert(views(rest@).take(rest.len() as int) =~= views(rest@));
    git_call(v, message)
}

} // verus!
