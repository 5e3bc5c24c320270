//! Repository facts read from git's output: names, branches, the command
//! lines of worktree and sparse-checkout operations.
use vstd::prelude::*;
use vstd::string::*;
use crate::meta::line_end;
use crate::plumbing::strings_view;
use crate::text::{has_suffix, same_text, trim, trim_text};

verus! {

/// Scripts configured for a repository.
#[derive(Debug, Clone, Default)]
pub struct RepoScripts {
    pub setup: Option<String>,
    pub run: Option<String>,
    pub archive: Option<String>,
    pub run_script_mode: Option<String>,
}

/// What is recorded of a repository when it is added.
#[derive(Debug, Clone)]
pub struct RepoIdentity {
    pub root_path: String,
    pub name: String,
    pub remote_url: Option<String>,
    pub default_branch: String,
}

/// One changed path of a working tree.
#[derive(Debug, Clone)]
pub struct GitStatusEntry {
    pub path: String,
    pub index_status: String,
    pub worktree_status: String,
    pub additions: Option<u32>,
    pub deletions: Option<u32>,
}

#[derive(Debug)]
pub enum GitError {
    Io(String),
    InvalidUtf8,
    CommandFailed { command: String, message: String },
    Parse(String),
    MissingPath(String),
}

/// The text by which a git error is reported.
pub open spec fn git_error_text(e: GitError) -> Seq<char> {
    match e {
        GitError::Io(m) => "Git IO error: "@ + m@,
        GitError::InvalidUtf8 => "Git output was not valid UTF-8"@,
        GitError::CommandFailed { command, message } => "Git command failed ("@ + command@ + "): "@
            + message@,
        GitError::Parse(m) => "Git config parse error: "@ + m@,
        GitError::MissingPath(m) => "Git path error: "@ + m@,
    }
}

impl GitError {
    /// The text by which this error is reported.
    pub fn message(&self) -> (r: String)
        ensures
            r@ == git_error_text(*self),
    {
        match self {
            GitError::Io(m) => {
                let mut r = String::from_str("Git IO error: ");
                r.append(m.as_str());
                r
            },
            GitError::InvalidUtf8 => String::from_str("Git output was not valid UTF-8"),
            GitError::CommandFailed { command, message } => {
                let mut r = String::from_str("Git command failed (");
                r.append(command.as_str());
                r.append("): ");
                r.append(message.as_str());
                r
            },
            GitError::Parse(m) => {
                let mut r = String::from_str("Git config parse error: ");
                r.append(m.as_str());
                r
            },
            GitError::MissingPath(m) => {
                let mut r = String::from_str("Git path error: ");
                r.append(m.as_str());
                r
            },
        }
    }
}

/// The index of the last `c` in `s`, or -1.
pub open spec fn last_index(s: Seq<char>, c: char) -> int
    decreases s.len(),
{
    if s.len() == 0 {
        -1
    } else if s.last() == c {
        s.len() - 1
    } else {
        last_index(s.drop_last(), c)
    }
}

/// `s` without the copies of `c` at its end.
pub open spec fn strip_trailing(s: Seq<char>, c: char) -> Seq<char>
    decreases s.len(),
{
    if s.len() > 0 && s.last() == c {
        strip_trailing(s.drop_last(), c)
    } else {
        s
    }
}

/// `s` without the copies of `p` at its end, as `trim_end_matches` does it.
pub open spec fn strip_suffixes(s: Seq<char>, p: Seq<char>) -> Seq<char>
    decreases s.len(),
{
    if p.len() > 0 && has_suffix(s, p) {
        strip_suffixes(s.subrange(0, s.len() - p.len()), p)
    } else {
        s
    }
}

/// The name of the repository at a git URL: its last segment after a `/`
/// (or else after a `:`), trailing slashes and `.git` left out.
pub open spec fn url_repo_name(url: Seq<char>) -> Seq<char> {
    let t = strip_trailing(url, '/');
    let slash = last_index(t, '/');
    let colon = last_index(t, ':');
    let seg = if slash >= 0 {
        t.subrange(slash + 1, t.len() as int)
    } else if colon >= 0 {
        t.subrange(colon + 1, t.len() as int)
    } else {
        t
    };
    strip_suffixes(seg, ".git"@)
}

proof fn lemma_last_index(s: Seq<char>, c: char)
    ensures
        -1 <= last_index(s, c) < s.len(),
        last_index(s, c) >= 0 ==> s[last_index(s, c)] == c,
        forall|k: int| last_index(s, c) < k < s.len() ==> #[trigger] s[k] != c,
    decreases s.len(),
{
    if s.len() > 0 && s.last() != c {
        lemma_last_index(s.drop_last(), c);
        assert forall|k: int| last_index(s, c) < k < s.len() implies #[trigger] s[k] != c by {
            if k < s.len() - 1 {
                assert(s[k] == s.drop_last()[k]);
            }
        }
    }
}

proof fn lemma_last_index_at(s: Seq<char>, c: char, i: int)
    requires
        -1 <= i < s.len(),
        i >= 0 ==> s[i] == c,
        forall|k: int| i < k < s.len() ==> #[trigger] s[k] != c,
    ensures
        last_index(s, c) == i,
    decreases s.len(),
{
    if s.len() > 0 && s.last() != c {
        assert forall|k: int| i < k < s.len() - 1 implies #[trigger] s.drop_last()[k] != c by {
            assert(s.drop_last()[k] == s[k]);
        }
        lemma_last_index_at(s.drop_last(), c, i);
    }
}

fn find_last(s: &str, c: char) -> (r: Option<usize>)
    ensures
        match r {
            Some(i) => last_index(s@, c) == i && i < s@.len(),
            None => last_index(s@, c) == -1,
        },
{
    let n = s.unicode_len();
    let mut j: usize = n;
    while j > 0
        invariant
            j <= n == s@.len(),
            forall|k: int| j <= k < n ==> #[trigger] s@[k] != c,
        decreases j,
    {
        if s.get_char(j - 1) == c {
            proof {
                lemma_last_index_at(s@, c, j - 1);
            }
            return Some(j - 1);
        }
        j = j - 1;
    }
    proof {
        lemma_last_index_at(s@, c, -1);
    }
    None
}

fn strip_trailing_text(s: &str, c: char) -> (r: &str)
    ensures
        r@ == strip_trailing(s@, c),
{
    let n = s.unicode_len();
    let mut j: usize = n;
    assert(s@.subrange(0, n as int) == s@);
    while j > 0 && s.get_char(j - 1) == c
        invariant
            j <= n == s@.len(),
            strip_trailing(s@, c) == strip_trailing(s@.subrange(0, j as int), c),
        decreases j,
    {
        proof {
            let t = s@.subrange(0, j as int);
            assert(t.drop_last() == s@.subrange(0, j - 1));
        }
        j = j - 1;
    }
    proof {
        assert(s@.subrange(0, n as int) == s@);
    }
    s.substring_char(0, j)
}

fn strip_suffixes_text<'a>(s: &'a str, p: &str) -> (r: &'a str)
    ensures
        r@ == strip_suffixes(s@, p@),
{
    let m = p.unicode_len();
    let mut cur: &str = s;
    assert(s@.subrange(0, s@.len() as int) == s@);
    while m > 0 && crate::text::ends_with(cur, p)
        invariant
            m == p@.len(),
            strip_suffixes(s@, p@) == strip_suffixes(cur@, p@),
        decreases cur@.len(),
    {
        let n = cur.unicode_len();
        cur = cur.substring_char(0, n - m);
    }
    cur
}

/// Derives a repository's name from a git URL.
pub fn repo_name_from_url(url: &str) -> (r: String)
    ensures
        r@ == url_repo_name(url@),
{
    let t = strip_trailing_text(url, '/');
    let n = t.unicode_len();
    let seg = match find_last(t, '/') {
        Some(i) => t.substring_char(i + 1, n),
        None => match find_last(t, ':') {
            Some(i) => t.substring_char(i + 1, n),
            None => t,
        },
    };
    proof {
        lemma_last_index(t@, '/');
        lemma_last_index(t@, ':');
    }
    strip_suffixes_text(seg, ".git").to_owned()
}

/// The file name of a path, as `Path::file_name` gives it: its last
/// component, where that is a name; `.` components after the first count for
/// nothing, and repeated or trailing separators neither.
pub open spec fn file_name_of(s: Seq<char>) -> Option<Seq<char>>
    decreases s.len(),
{
    if s.len() == 0 {
        None
    } else if s.last() == '/' {
        file_name_of(s.drop_last())
    } else {
        let i = last_index(s, '/') + 1;
        let seg = s.subrange(i, s.len() as int);
        if seg == "."@ {
            if i == 0 {
                None
            } else {
                file_name_of(s.drop_last())
            }
        } else if seg == ".."@ {
            None
        } else {
            Some(seg)
        }
    }
}

/// Derives a repository's name from its local path.
pub fn repo_name_from_path(path: &str) -> (r: Option<String>)
    ensures
        match file_name_of(path@) {
            Some(v) => r matches Some(t) && t@ == v,
            None => r is None,
        },
{
    let mut cur: &str = path;
    proof {
        reveal_strlit(".");
        reveal_strlit("..");
    }
    loop
        invariant
            file_name_of(path@) == file_name_of(cur@),
        decreases cur@.len(),
    {
        let n = cur.unicode_len();
        if n == 0 {
            return None;
        }
        if cur.get_char(n - 1) == '/' {
            proof {
                assert(cur@.drop_last() == cur@.subrange(0, n - 1));
            }
            cur = cur.substring_char(0, n - 1);
        } else {
            let i = match find_last(cur, '/') {
                Some(k) => k + 1,
                None => 0,
            };
            proof {
                lemma_last_index(cur@, '/');
            }
            let seg = cur.substring_char(i, n);
            if same_text(seg, ".") {
                if i == 0 {
                    return None;
                }
                proof {
                    assert(cur@.drop_last() == cur@.subrange(0, n - 1));
                }
                cur = cur.substring_char(0, n - 1);
            } else if same_text(seg, "..") {
                return None;
            } else {
                return Some(seg.to_owned());
            }
        }
    }
}

/// Whether the output of `rev-parse --is-inside-work-tree` says yes.
pub fn is_git_repo(output: &str) -> (r: bool)
    ensures
        r == (output@ == "true"@),
{
    same_text(output, "true")
}

/// The repository root that `rev-parse --show-toplevel` printed, and the
/// arguments that ask for it from `path`.
pub fn resolve_repo_root(path: &str) -> (r: Vec<String>)
    ensures
        strings_view(r@) == seq!["-C"@, path@, "rev-parse"@, "--show-toplevel"@],
{
    let r = vec![String::from_str("-C"), path.to_owned(), String::from_str("rev-parse"), String::from_str("--show-toplevel")];
    assert(strings_view(r@) =~= seq!["-C"@, path@, "rev-parse"@, "--show-toplevel"@]);
    r
}

/// The arguments that add a worktree at `workspace_path` for `branch`,
/// without tracking.
pub fn create_worktree(repo_path: &str, workspace_path: &str, branch: &str) -> (r: Vec<String>)
    ensures
        strings_view(r@) == seq![
            "-C"@,
            repo_path@,
            "worktree"@,
            "add"@,
            "--no-track"@,
            workspace_path@,
            branch@,
        ],
{
    let r = vec![
        String::from_str("-C"),
        repo_path.to_owned(),
        String::from_str("worktree"),
        String::from_str("add"),
        String::from_str("--no-track"),
        workspace_path.to_owned(),
        branch.to_owned(),
    ];
    assert(strings_view(r@) =~= seq![
        "-C"@,
        repo_path@,
        "worktree"@,
        "add"@,
        "--no-track"@,
        workspace_path@,
        branch@,
    ]);
    r
}

/// The arguments that remove the worktree at `workspace_path`.
pub fn remove_worktree(repo_path: &str, workspace_path: &str) -> (r: Vec<String>)
    ensures
        strings_view(r@) == seq!["-C"@, repo_path@, "worktree"@, "remove"@, workspace_path@],
{
    let r = vec![
        String::from_str("-C"),
        repo_path.to_owned(),
        String::from_str("worktree"),
        String::from_str("remove"),
        workspace_path.to_owned(),
    ];
    assert(strings_view(r@) =~= seq!["-C"@, repo_path@, "worktree"@, "remove"@, workspace_path@]);
    r
}

/// The patterns that are kept: each one trimmed, blank ones left out.
pub open spec fn kept_patterns(ps: Seq<Seq<char>>) -> Seq<Seq<char>>
    decreases ps.len(),
{
    if ps.len() == 0 {
        seq![]
    } else {
        let rest = kept_patterns(ps.drop_last());
        if trim(ps.last()).len() > 0 {
            rest.push(trim(ps.last()))
        } else {
            rest
        }
    }
}

pub open spec fn sparse_missing_message() -> Seq<char> {
    "Sparse checkout requires at least one pattern"@
}

/// The arguments that set the sparse-checkout patterns of the worktree at
/// `worktree_path`: no pattern at all turns sparse checkout off, and a list
/// of blank patterns only is refused.
pub fn set_sparse_checkout(worktree_path: &str, patterns: &Vec<String>) -> (r: Result<Vec<String>, GitError>)
    ensures
        patterns@.len() == 0 ==> (r matches Ok(a) && strings_view(a@) == seq![
            "-C"@,
            worktree_path@,
            "sparse-checkout"@,
            "disable"@,
        ]),
        patterns@.len() > 0 && kept_patterns(strings_view(patterns@)).len() == 0 ==> (r matches Err(
            GitError::MissingPath(m),
        ) && m@ == sparse_missing_message()),
        patterns@.len() > 0 && kept_patterns(strings_view(patterns@)).len() > 0 ==> (r matches Ok(a)
            && strings_view(a@) == seq!["-C"@, worktree_path@, "sparse-checkout"@, "set"@]
            + kept_patterns(strings_view(patterns@))),
{
    if patterns.len() == 0 {
        let r = vec![
            String::from_str("-C"),
            worktree_path.to_owned(),
            String::from_str("sparse-checkout"),
            String::from_str("disable"),
        ];
        assert(strings_view(r@) =~= seq!["-C"@, worktree_path@, "sparse-checkout"@, "disable"@]);
        return Ok(r);
    }
    let mut args = vec![
        String::from_str("-C"),
        worktree_path.to_owned(),
        String::from_str("sparse-checkout"),
        String::from_str("set"),
    ];
    let ghost head = seq!["-C"@, worktree_path@, "sparse-checkout"@, "set"@];
    assert(strings_view(args@) =~= head);
    let mut i: usize = 0;
    while i < patterns.len()
        invariant
            i <= patterns@.len(),
            strings_view(args@) == head + kept_patterns(strings_view(patterns@.subrange(0, i as int))),
        decreases patterns@.len() - i,
    {
        let t = trim_text(patterns[i].as_str());
        proof {
            let pre = strings_view(patterns@.subrange(0, i + 1));
            assert(pre.drop_last() =~= strings_view(patterns@.subrange(0, i as int)));
            assert(pre.last() == patterns@[i as int]@);
        }
        if t.as_str().unicode_len() > 0 {
            let ghost before = args@;
            args.push(t);
            assert(strings_view(args@) =~= strings_view(before).push(t@));
        }
        i = i + 1;
    }
    assert(patterns@.subrange(0, patterns@.len() as int) == patterns@);
    if args.len() == 4 {
        return Err(GitError::MissingPath(String::from_str("Sparse checkout requires at least one pattern")));
    }
    Ok(args)
}

/// The names in the output of `for-each-ref --format=%(refname:short)`:
/// each line trimmed, blank lines left out.
pub open spec fn branch_names(s: Seq<char>) -> Seq<Seq<char>>
    decreases s.len(),
{
    if s.len() == 0 {
        seq![]
    } else {
        let e = line_end(s) as int;
        let l = trim(s.subrange(0, e));
        let first: Seq<Seq<char>> = if l.len() > 0 {
            seq![l]
        } else {
            seq![]
        };
        if e < s.len() {
            first + branch_names(s.subrange(e + 1, s.len() as int))
        } else {
            first
        }
    }
}

/// Reads the local branch names from `for-each-ref` output.
pub fn list_branches(output: &str) -> (r: Vec<String>)
    ensures
        strings_view(r@) == branch_names(output@),
{
    let n = output.unicode_len();
    let mut r: Vec<String> = Vec::new();
    let mut pos: usize = 0;
    assert(output@.subrange(0, n as int) == output@);
    assert(strings_view(r@) =~= seq![]);
    while pos < n
        invariant
            n == output@.len(),
            pos <= n,
            branch_names(output@) == strings_view(r@) + branch_names(output@.subrange(pos as int, n as int)),
        decreases n - pos,
    {
        let ghost rest = output@.subrange(pos as int, n as int);
        let mut e: usize = pos;
        while e < n && output.get_char(e) != '\n'
            invariant
                n == output@.len(),
                pos <= e <= n,
                forall|k: int| pos <= k < e ==> #[trigger] output@[k] != '\n',
            decreases n - e,
        {
            e = e + 1;
        }
        proof {
            assert forall|k: int| 0 <= k < e - pos implies #[trigger] rest[k] != '\n' by {
                assert(rest[k] == output@[k + pos]);
            }
            crate::meta::lemma_line_end(rest, e - pos);
            assert(rest.subrange(0, e - pos) == output@.subrange(pos as int, e as int));
            if e < n {
                assert(rest.subrange(e - pos + 1, rest.len() as int) == output@.subrange(
                    e + 1,
                    n as int,
                ));
            }
        }
        let t = trim_text(output.substring_char(pos, e));
        let ghost before = r@;
        if t.as_str().unicode_len() > 0 {
            r.push(t);
            assert(strings_view(r@) =~= strings_view(before) + seq![t@]);
        } else {
            assert(strings_view(r@) =~= strings_view(before) + Seq::<Seq<char>>::empty());
        }
        if e == n {
            pos = n;
            assert(output@.subrange(n as int, n as int) =~= Seq::<char>::empty());
        } else {
            pos = e + 1;
        }
    }
    r
}

/// Whether `branch` is among `branches`; a blank name never is.
pub fn branch_exists(branches: &Vec<String>, branch: &str) -> (r: bool)
    ensures
        r == (trim(branch@).len() > 0 && exists|i: int|
            0 <= i < branches@.len() && (#[trigger] branches@[i])@ == branch@),
{
    let t = trim_text(branch);
    if t.as_str().unicode_len() == 0 {
        return false;
    }
    assert(trim(branch@).len() > 0);
    let mut i: usize = 0;
    while i < branches.len()
        invariant
            i <= branches@.len(),
            trim(branch@).len() > 0,
            forall|k: int| 0 <= k < i ==> (#[trigger] branches@[k])@ != branch@,
        decreases branches@.len() - i,
    {
        if same_text(branches[i].as_str(), branch) {
            return true;
        }
        i = i + 1;
    }
    false
}

/// Whether the output of `git remote` names a remote called `origin`.
pub open spec fn names_origin(s: Seq<char>) -> bool {
    exists|i: int| 0 <= i < branch_names(s).len() && #[trigger] branch_names(s)[i] == "origin"@
}

/// Whether `git remote` output lists `origin`.
pub fn has_origin(remotes: &str) -> (r: bool)
    ensures
        r == names_origin(remotes@),
{
    let names = list_branches(remotes);
    let mut i: usize = 0;
    while i < names.len()
        invariant
            i <= names@.len(),
            strings_view(names@) == branch_names(remotes@),
            forall|k: int| 0 <= k < i ==> #[trigger] branch_names(remotes@)[k] != "origin"@,
        decreases names@.len() - i,
    {
        assert(strings_view(names@)[i as int] == names@[i as int]@);
        if same_text(names[i].as_str(), "origin") {
            return true;
        }
        i = i + 1;
    }
    false
}

/// The default branch taken from `origin/HEAD`'s short name, where it has
/// the `origin/` prefix.
pub open spec fn origin_branch(s: Seq<char>) -> Option<Seq<char>> {
    if crate::text::has_prefix(s, "origin/"@) {
        Some(s.subrange(7, s.len() as int))
    } else {
        None
    }
}

pub fn strip_origin(short_name: &str) -> (r: Option<String>)
    ensures
        match origin_branch(short_name@) {
            Some(v) => r matches Some(t) && t@ == v,
            None => r is None,
        },
{
    proof {
        reveal_strlit("origin/");
    }
    if crate::text::starts_with(short_name, "origin/") {
        let n = short_name.unicode_len();
        Some(short_name.substring_char(7, n).to_owned())
    } else {
        None
    }
}

/// What is recorded of the repository at `root_path`: its name is the last
/// component of that path, or `repository` where it has none.
pub fn inspect_repo(root_path: String, remote_url: Option<String>, default_branch: String) -> (r:
    RepoIdentity)
    ensures
        r.root_path == root_path,
        r.remote_url == remote_url,
        r.default_branch == default_branch,
        match file_name_of(root_path@) {
            Some(v) => r.name@ == v,
            None => r.name@ == "repository"@,
        },
{
    let name = match repo_name_from_path(root_path.as_str()) {
        Some(n) => n,
        None => String::from_str("repository"),
    };
    RepoIdentity { root_path, name, remote_url, default_branch }
}

} // verus!
