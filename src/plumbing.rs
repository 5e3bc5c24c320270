//! Invocations of the git binary as values: the argument list, the
//! environment overrides and the standard input of one command, and the
//! reading of its exit status and output.
use vstd::prelude::*;
use vstd::string::*;
use crate::checkpoint::CheckpointError;
use crate::meta::{decimal, decimal_text};
use crate::text::{trim, trim_text};

verus! {

/// One run of git, in the repository's working directory.
pub struct GitCommand {
    pub args: Vec<String>,
    pub envs: Vec<(String, String)>,
    pub stdin: Option<String>,
}

/// What a `GitCommand` asks for, with its strings as character sequences.
pub struct GitCall {
    pub args: Seq<Seq<char>>,
    pub envs: Seq<(Seq<char>, Seq<char>)>,
    pub stdin: Option<Seq<char>>,
}

pub open spec fn strings_view(v: Seq<String>) -> Seq<Seq<char>> {
    v.map_values(|s: String| s@)
}

pub open spec fn pairs_view(v: Seq<(String, String)>) -> Seq<(Seq<char>, Seq<char>)> {
    v.map_values(|p: (String, String)| (p.0@, p.1@))
}

impl View for GitCommand {
    type V = GitCall;

    open spec fn view(&self) -> GitCall {
        GitCall {
            args: strings_view(self.args@),
            envs: pairs_view(self.envs@),
            stdin: match self.stdin {
                Some(s) => Some(s@),
                None => None,
            },
        }
    }
}

/// A call with no environment override and no input.
pub open spec fn plain_call(args: Seq<Seq<char>>) -> GitCall {
    GitCall { args, envs: seq![], stdin: None }
}

/// `args` joined by single spaces.
pub open spec fn join_words(args: Seq<Seq<char>>) -> Seq<char>
    decreases args.len(),
{
    if args.len() == 0 {
        seq![]
    } else if args.len() == 1 {
        args[0]
    } else {
        join_words(args.drop_last()) + " "@ + args.last()
    }
}

/// The command line that a failure report names: `git` and its arguments.
pub open spec fn command_line(args: Seq<Seq<char>>) -> Seq<char> {
    "git "@ + join_words(args)
}

/// What a failed command is reported with: its trimmed standard error, or
/// where that is empty its trimmed standard output, or else its exit code.
pub open spec fn failure_message(stderr: Seq<char>, stdout: Seq<char>, code: Option<u32>) -> Seq<
    char,
> {
    if trim(stderr).len() > 0 {
        trim(stderr)
    } else if trim(stdout).len() > 0 {
        trim(stdout)
    } else {
        match code {
            Some(c) => "exit code "@ + decimal(c as nat),
            None => "exit code unknown"@,
        }
    }
}

fn join_args(args: &Vec<String>) -> (r: String)
    ensures
        r@ == join_words(strings_view(args@)),
{
    let mut r = String::new();
    let mut i: usize = 0;
    while i < args.len()
        invariant
            i <= args@.len(),
            r@ == join_words(strings_view(args@.subrange(0, i as int))),
        decreases args@.len() - i,
    {
        proof {
            reveal_strlit(" ");
            let pre = strings_view(args@.subrange(0, i + 1));
            assert(pre.drop_last() =~= strings_view(args@.subrange(0, i as int)));
            assert(pre.last() == args@[i as int]@);
        }
        if i > 0 {
            r.append(" ");
        } else {
            assert(strings_view(args@.subrange(0, 0)) =~= seq![]);
        }
        r.append(args[i].as_str());
        i = i + 1;
    }
    assert(args@.subrange(0, args@.len() as int) == args@);
    r
}

/// The error for a git command that exited with a non-zero status. `code`
/// is the exit code where the process had one.
pub fn command_failed(args: &Vec<String>, stderr: &str, stdout: &str, code: Option<u32>) -> (r:
    CheckpointError)
    ensures
        r matches CheckpointError::Git { command, message } && command@ == command_line(
            strings_view(args@),
        ) && message@ == failure_message(stderr@, stdout@, code),
{
    let mut command = String::from_str("git ");
    let joined = join_args(args);
    command.append(joined.as_str());
    let err = trim_text(stderr);
    let out = trim_text(stdout);
    let message = if err.as_str().unicode_len() > 0 {
        err
    } else if out.as_str().unicode_len() > 0 {
        out
    } else {
        match code {
            Some(c) => {
                let mut m = String::from_str("exit code ");
                let digits = decimal_text(c as u64);
                m.append(digits.as_str());
                m
            },
            None => String::from_str("exit code unknown"),
        }
    };
    CheckpointError::Git { command, message }
}

/// Reads a finished git command: its trimmed output where it succeeded,
/// else the failure.
pub fn git_reply(args: &Vec<String>, success: bool, stdout: &str, stderr: &str, code: Option<u32>) -> (r:
    Result<String, CheckpointError>)
    ensures
        success ==> (r matches Ok(o) && o@ == trim(stdout@)),
        !success ==> (r matches Err(CheckpointError::Git { command, message }) && command@
            == command_line(strings_view(args@)) && message@ == failure_message(
            stderr@,
            stdout@,
            code,
        )),
{
    if success {
        Ok(trim_text(stdout))
    } else {
        Err(command_failed(args, stderr, stdout, code))
    }
}

/// Whether `p` is an absolute path.
pub open spec fn is_absolute(p: Seq<char>) -> bool {
    p.len() > 0 && p[0] == '/'
}

/// `rel` taken from `base`, as `Path::join` does it: an absolute `rel`
/// stands alone, and one separator stands between the two parts.
pub open spec fn join_path(base: Seq<char>, rel: Seq<char>) -> Seq<char> {
    if is_absolute(rel) || base.len() == 0 {
        rel
    } else if base.last() == '/' {
        base + rel
    } else {
        base + "/"@ + rel
    }
}

pub fn join_path_text(base: &str, rel: &str) -> (r: String)
    ensures
        r@ == join_path(base@, rel@),
{
    let nr = rel.unicode_len();
    let nb = base.unicode_len();
    if (nr > 0 && rel.get_char(0) == '/') || nb == 0 {
        return rel.to_owned();
    }
    let mut r = base.to_owned();
    if base.get_char(nb - 1) != '/' {
        r.append("/");
    }
    r.append(rel);
    r
}

} // verus!
