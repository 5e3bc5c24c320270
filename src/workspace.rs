//! Workspace records and the names of their directories.
use vstd::prelude::*;
use vstd::string::*;
use crate::text::{is_space, push_char, space_char};

verus! {

/// A workspace as it is stored.
#[derive(Debug)]
pub struct WorkspaceRecord {
    pub id: String,
    pub repo_id: String,
    pub branch: String,
    pub directory_name: Option<String>,
    pub path: String,
    pub state: String,
    pub pinned_at: Option<String>,
    pub unread: bool,
    pub base_port: Option<i64>,
    pub setup_log_path: Option<String>,
    pub archive_log_path: Option<String>,
    pub intended_target_branch: Option<String>,
    pub pr_number: Option<i64>,
    pub pr_url: Option<String>,
    pub pr_last_comment_id: Option<String>,
    pub linked_workspace_ids: Option<Vec<String>>,
}

/// What is needed to store a new workspace.
#[derive(Debug)]
pub struct NewWorkspace {
    pub id: String,
    pub repo_id: String,
    pub branch: String,
    pub directory_name: Option<String>,
    pub path: String,
    pub state: String,
    pub base_port: Option<i64>,
    pub setup_log_path: Option<String>,
    pub archive_log_path: Option<String>,
    pub intended_target_branch: Option<String>,
    pub pr_number: Option<i64>,
    pub pr_url: Option<String>,
    pub pr_last_comment_id: Option<String>,
}

/// A to-do item that a user keeps for a workspace.
#[derive(Debug)]
pub struct ManualTodoItem {
    pub id: String,
    pub text: String,
    pub completed: bool,
}

/// The state of a workspace in use.
pub fn active_state() -> (r: &'static str)
    ensures
        r@ == "active"@,
{
    "active"
}

/// The state of an archived workspace.
pub fn archived_state() -> (r: &'static str)
    ensures
        r@ == "archived"@,
{
    "archived"
}

pub open spec fn is_ascii_alnum(c: char) -> bool {
    ('0' <= c && c <= '9') || ('a' <= c && c <= 'z') || ('A' <= c && c <= 'Z')
}

pub open spec fn ascii_lower(c: char) -> char {
    if 'A' <= c && c <= 'Z' {
        ((c as u32) + 32) as char
    } else {
        c
    }
}

/// What a character of a name becomes in a directory name: letters and
/// digits in lower case, `-` kept, `_`, white space and path separators as
/// `-`; anything else is dropped.
pub open spec fn segment_chars(s: Seq<char>) -> Seq<char>
    decreases s.len(),
{
    if s.len() == 0 {
        seq![]
    } else {
        let rest = segment_chars(s.drop_last());
        let c = s.last();
        if is_ascii_alnum(c) || c == '-' {
            rest.push(ascii_lower(c))
        } else if c == '_' || is_space(c) || c == '/' || c == '\\' || c == ':' {
            rest.push('-')
        } else {
            rest
        }
    }
}

/// A name made safe for a directory; `workspace` where nothing is left.
pub open spec fn sanitized(s: Seq<char>) -> Seq<char> {
    if segment_chars(s).len() == 0 {
        "workspace"@
    } else {
        segment_chars(s)
    }
}

fn lower_char(c: char) -> (r: char)
    ensures
        r == ascii_lower(c),
{
    if 'A' <= c && c <= 'Z' {
        let b = c as u8;
        assert(b as u32 == c as u32);
        (b + 32) as char
    } else {
        c
    }
}

pub fn sanitize_segment(value: &str) -> (r: String)
    ensures
        r@ == sanitized(value@),
{
    let n = value.unicode_len();
    let mut out = String::new();
    let mut i: usize = 0;
    assert(value@.subrange(0, 0) =~= Seq::<char>::empty());
    while i < n
        invariant
            i <= n == value@.len(),
            out@ == segment_chars(value@.subrange(0, i as int)),
        decreases n - i,
    {
        let c = value.get_char(i);
        proof {
            let pre = value@.subrange(0, i + 1);
            assert(pre.drop_last() =~= value@.subrange(0, i as int));
        }
        if ('0' <= c && c <= '9') || ('a' <= c && c <= 'z') || ('A' <= c && c <= 'Z') || c == '-' {
            push_char(&mut out, lower_char(c));
        } else if c == '_' || space_char(c) || c == '/' || c == '\\' || c == ':' {
            push_char(&mut out, '-');
        }
        i = i + 1;
    }
    assert(value@.subrange(0, n as int) == value@);
    if out.as_str().unicode_len() == 0 {
        String::from_str("workspace")
    } else {
        out
    }
}

/// The number of bytes that `c` takes in UTF-8.
pub open spec fn utf8_width(c: char) -> int {
    let u = c as u32;
    if u < 0x80 {
        1
    } else if u < 0x800 {
        2
    } else if u < 0x10000 {
        3
    } else {
        4
    }
}

/// The number of bytes that the first `k` characters of `s` take in UTF-8.
pub open spec fn utf8_prefix_len(s: Seq<char>, k: int) -> int
    decreases k,
{
    if k <= 0 {
        0
    } else {
        utf8_prefix_len(s, k - 1) + utf8_width(s[k - 1])
    }
}

/// The short form of a workspace id: its first eight bytes, where they end
/// on a character boundary; else the whole id.
pub open spec fn short_id(s: Seq<char>) -> Seq<char> {
    if exists|k: int| 0 <= k <= s.len() && utf8_prefix_len(s, k) == 8 {
        s.subrange(0, choose|k: int| 0 <= k <= s.len() && utf8_prefix_len(s, k) == 8)
    } else {
        s
    }
}

fn width(c: char) -> (r: usize)
    ensures
        r == utf8_width(c),
{
    let u = c as u32;
    if u < 0x80 {
        1
    } else if u < 0x800 {
        2
    } else if u < 0x10000 {
        3
    } else {
        4
    }
}

proof fn lemma_prefix_len_grows(s: Seq<char>, a: int, b: int)
    requires
        0 <= a <= b,
    ensures
        utf8_prefix_len(s, a) + (b - a) <= utf8_prefix_len(s, b),
    decreases b - a,
{
    if a < b {
        lemma_prefix_len_grows(s, a, b - 1);
    }
}

fn short_id_text(id: &str) -> (r: &str)
    ensures
        r@ == short_id(id@),
{
    let n = id.unicode_len();
    let mut k: usize = 0;
    let mut bytes: usize = 0;
    while k < n && bytes < 8
        invariant
            k <= n == id@.len(),
            bytes == utf8_prefix_len(id@, k as int),
            bytes <= 11,
            forall|j: int| 0 <= j < k ==> utf8_prefix_len(id@, j) < 8,
        decreases n - k,
    {
        bytes = bytes + width(id.get_char(k));
        k = k + 1;
    }
    if bytes == 8 {
        proof {
            let w = choose|j: int| 0 <= j <= id@.len() && utf8_prefix_len(id@, j) == 8;
            if w < k {
                lemma_prefix_len_grows(id@, w, k as int);
                assert(utf8_prefix_len(id@, w) < 8);
            } else if w > k {
                lemma_prefix_len_grows(id@, k as int, w);
            }
        }
        id.substring_char(0, k)
    } else {
        proof {
            assert forall|j: int| 0 <= j <= id@.len() implies utf8_prefix_len(id@, j) != 8 by {
                if j > k {
                    lemma_prefix_len_grows(id@, k as int, j);
                }
            }
        }
        id
    }
}

pub open spec fn directory_name(repo_name: Seq<char>, branch: Seq<char>, workspace_id: Seq<char>) -> Seq<
    char,
> {
    sanitized(repo_name) + "-"@ + sanitized(branch) + "-"@ + short_id(workspace_id)
}

/// The directory name of a workspace: repository name, branch and short
/// id, each made safe, joined by `-`.
pub fn build_directory_name(repo_name: &str, branch: &str, workspace_id: &str) -> (r: String)
    ensures
        r@ == directory_name(repo_name@, branch@, workspace_id@),
{
    let mut r = sanitize_segment(repo_name);
    r.append("-");
    let b = sanitize_segment(branch);
    r.append(b.as_str());
    r.append("-");
    r.append(short_id_text(workspace_id));
    r
}

} // verus!
