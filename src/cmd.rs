//! External commands: their names in messages, and the arguments of the git
//! invocations that materialize a repository.
use vstd::prelude::*;

verus! {

/// A program to run, by name or path.
pub struct Cmd(pub String);

impl Cmd {
    pub fn new(command: String) -> (r: Cmd)
        ensures
            r.0 == command,
    {
        Cmd(command)
    }
}

/// `command`, followed by a space and `subcommand` when there is one.
pub open spec fn joined_command(command: Seq<char>, subcommand: Option<Seq<char>>) -> Seq<char> {
    match subcommand {
        Some(s) => command + seq![' '] + s,
        None => command,
    }
}

/// How a command is named in an error message.
pub fn join_cmd(command: &str, subcommand: &Option<String>) -> (r: String)
    ensures
        r@ == joined_command(
            command@,
            match subcommand {
                Some(s) => Some(s@),
                None => None,
            },
        ),
{
    let mut r = command.to_string();
    match subcommand {
        Some(s) => {
            r.append(" ");
            r.append(s.as_str());
            proof {
                reveal_strlit(" ");
            }
        },
        None => {},
    }
    r
}

/// The arguments of a shallow `git clone` of `url` into `path`, checking
/// out `branch` when one is given.
pub open spec fn clone_arguments(branch: Option<Seq<char>>, url: Seq<char>, path: Seq<char>) -> Seq<
    Seq<char>,
> {
    match branch {
        Some(b) => seq![
            seq!['c', 'l', 'o', 'n', 'e'],
            seq!['-', '-', 'd', 'e', 'p', 't', 'h', '=', '1'],
            seq!['-', '-', 'b', 'r', 'a', 'n', 'c', 'h'],
            b,
            url,
            path,
        ],
        None => seq![
            seq!['c', 'l', 'o', 'n', 'e'],
            seq!['-', '-', 'd', 'e', 'p', 't', 'h', '=', '1'],
            url,
            path,
        ],
    }
}

/// The arguments to hand to git to clone `url` into `path`.
pub fn clone_args(branch: &Option<String>, url: &str, path: &str) -> (r: Vec<String>)
    ensures
        r@.len() == clone_arguments(
            match branch {
                Some(b) => Some(b@),
                None => None,
            },
            url@,
            path@,
        ).len(),
        forall|i: int|
            0 <= i < r@.len() ==> #[trigger] r@[i]@ == clone_arguments(
                match branch {
                    Some(b) => Some(b@),
                    None => None,
                },
                url@,
                path@,
            )[i],
{
    let mut r: Vec<String> = Vec::new();
    r.push("clone".to_string());
    r.push("--depth=1".to_string());
    proof {
        reveal_strlit("clone");
        reveal_strlit("--depth=1");
        assert("clone"@ =~= seq!['c', 'l', 'o', 'n', 'e']);
        assert("--depth=1"@ =~= seq!['-', '-', 'd', 'e', 'p', 't', 'h', '=', '1']);
    }
    match branch {
        Some(b) => {
            r.push("--branch".to_string());
            r.push(b.clone());
            proof {
                reveal_strlit("--branch");
                assert("--branch"@ =~= seq!['-', '-', 'b', 'r', 'a', 'n', 'c', 'h']);
            }
        },
        None => {},
    }
    r.push(url.to_string());
    r.push(path.to_string());
    r
}

} // verus!
