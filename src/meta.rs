//! The message of a checkpoint commit: four `key value` lines after a
//! `checkpoint:<id>` header, and the lookup that reads a value back.
use vstd::prelude::*;
use vstd::string::*;
use crate::checkpoint::CheckpointError;
use crate::text::{has_prefix, is_space, push_char, starts_with, trim, trim_end, trim_start, trim_text};

verus! {

/// The index of the first `'\n'` in `s`, or its length where there is none.
pub open spec fn line_end(s: Seq<char>) -> nat
    decreases s.len(),
{
    if s.len() == 0 || s[0] == '\n' {
        0
    } else {
        1 + line_end(s.drop_first())
    }
}

/// The value that `line` gives for `key`: the line is `key`, then a space or
/// a tab, then a value that is not blank; the value is returned trimmed.
pub open spec fn meta_of_line(line: Seq<char>, key: Seq<char>) -> Option<Seq<char>> {
    if has_prefix(line, key) && line.len() > key.len() && (line[key.len() as int] == ' '
        || line[key.len() as int] == '\t') && trim(
        line.subrange(key.len() + 1int, line.len() as int),
    ).len() > 0 {
        Some(trim(line.subrange(key.len() + 1int, line.len() as int)))
    } else {
        None
    }
}

/// The value of `key` in a commit message: taken from the first line that
/// gives one. A `'\r'` before a line's `'\n'` needs no special case: it could
/// only stand where a value is trimmed, or where neither a space nor a tab is.
pub open spec fn meta_value(body: Seq<char>, key: Seq<char>) -> Option<Seq<char>>
    decreases body.len(),
{
    if body.len() == 0 {
        None
    } else {
        let e = line_end(body) as int;
        match meta_of_line(body.subrange(0, e), key) {
            Some(v) => Some(v),
            None => if e < body.len() {
                meta_value(body.subrange(e + 1, body.len() as int), key)
            } else {
                None
            },
        }
    }
}

pub open spec fn missing_meta_message(key: Seq<char>) -> Seq<char> {
    "Checkpoint metadata missing: "@ + key
}

pub proof fn lemma_line_end(s: Seq<char>, j: int)
    requires
        0 <= j <= s.len(),
        forall|k: int| 0 <= k < j ==> #[trigger] s[k] != '\n',
        j == s.len() || s[j] == '\n',
    ensures
        line_end(s) == j,
    decreases j,
{
    if j > 0 {
        assert forall|k: int| 0 <= k < j - 1 implies #[trigger] s.drop_first()[k] != '\n' by {
            assert(s.drop_first()[k] == s[k + 1]);
        }
        lemma_line_end(s.drop_first(), j - 1);
    }
}

fn meta_of_line_exec(line: &str, key: &str) -> (r: Option<String>)
    ensures
        match meta_of_line(line@, key@) {
            Some(v) => r is Some && r->Some_0@ == v,
            None => r is None,
        },
{
    let n = line.unicode_len();
    let m = key.unicode_len();
    if !starts_with(line, key) || n <= m {
        return None;
    }
    let sep = line.get_char(m);
    if sep != ' ' && sep != '\t' {
        return None;
    }
    let value = trim_text(line.substring_char(m + 1, n));
    if value.as_str().unicode_len() == 0 {
        None
    } else {
        Some(value)
    }
}

/// Reads the value of `key` from a checkpoint commit's message.
pub fn extract_meta(body: &str, key: &str) -> (r: Result<String, CheckpointError>)
    ensures
        match meta_value(body@, key@) {
            Some(v) => r is Ok && r->Ok_0@ == v,
            None => r matches Err(CheckpointError::MissingMetadata(m)) && m@
                == missing_meta_message(key@),
        },
{
    let n = body.unicode_len();
    let mut pos: usize = 0;
    assert(body@.subrange(0, n as int) == body@);
    while pos < n
        invariant
            n == body@.len(),
            pos <= n,
            meta_value(body@, key@) == meta_value(body@.subrange(pos as int, n as int), key@),
        decreases n - pos,
    {
        let ghost rest = body@.subrange(pos as int, n as int);
        let mut e: usize = pos;
        while e < n && body.get_char(e) != '\n'
            invariant
                n == body@.len(),
                pos <= e <= n,
                rest == body@.subrange(pos as int, n as int),
                forall|k: int| pos <= k < e ==> #[trigger] body@[k] != '\n',
            decreases n - e,
        {
            e = e + 1;
        }
        proof {
            assert forall|k: int| 0 <= k < e - pos implies #[trigger] rest[k] != '\n' by {
                assert(rest[k] == body@[k + pos]);
            }
            lemma_line_end(rest, e - pos);
            assert(rest.subrange(0, e - pos) == body@.subrange(pos as int, e as int));
            if e < n {
                assert(rest.subrange(e - pos + 1, rest.len() as int) == body@.subrange(
                    e + 1,
                    n as int,
                ));
            }
        }
        let line = body.substring_char(pos, e);
        match meta_of_line_exec(line, key) {
            Some(v) => {
                return Ok(v);
            },
            None => {},
        }
        if e == n {
            pos = n;
        } else {
            pos = e + 1;
        }
    }
    let mut message = String::from_str("Checkpoint metadata missing: ");
    message.append(key);
    Err(CheckpointError::MissingMetadata(message))
}

/// The message of a checkpoint commit.
pub open spec fn commit_message(
    id: Seq<char>,
    head: Seq<char>,
    index_tree: Seq<char>,
    worktree_tree: Seq<char>,
    created: Seq<char>,
) -> Seq<char> {
    "checkpoint:"@ + id + "\nhead "@ + head + "\nindex-tree "@ + index_tree + "\nworktree-tree "@
        + worktree_tree + "\ncreated "@ + created + "\n"@
}

/// Builds the message of a checkpoint commit.
pub fn build_commit_message(
    id: &str,
    head: &str,
    index_tree: &str,
    worktree_tree: &str,
    created: &str,
) -> (r: String)
    ensures
        r@ == commit_message(id@, head@, index_tree@, worktree_tree@, created@),
{
    let mut m = String::from_str("checkpoint:");
    m.append(id);
    m.append("\nhead ");
    m.append(head);
    m.append("\nindex-tree ");
    m.append(index_tree);
    m.append("\nworktree-tree ");
    m.append(worktree_tree);
    m.append("\ncreated ");
    m.append(created);
    m.append("\n");
    m
}

/// Whether `s` holds no line break.
pub open spec fn single_line(s: Seq<char>) -> bool {
    forall|i: int| 0 <= i < s.len() ==> #[trigger] s[i] != '\n'
}

/// Whether `s` is a single word: not empty, and free of white space.
pub open spec fn is_word(s: Seq<char>) -> bool {
    s.len() > 0 && forall|i: int| 0 <= i < s.len() ==> !is_space(#[trigger] s[i])
}

proof fn lemma_first_line(l: Seq<char>, r: Seq<char>, key: Seq<char>)
    requires
        single_line(l),
    ensures
        meta_value(l + "\n"@ + r, key) == match meta_of_line(l, key) {
            Some(v) => Some(v),
            None => meta_value(r, key),
        },
{
    reveal_strlit("\n");
    let b = l + "\n"@ + r;
    assert(b[l.len() as int] == '\n');
    assert forall|k: int| 0 <= k < l.len() implies #[trigger] b[k] != '\n' by {
        assert(b[k] == l[k]);
    }
    lemma_line_end(b, l.len() as int);
    assert(b.subrange(0, l.len() as int) == l);
    assert(b.subrange(l.len() + 1int, b.len() as int) == r);
}

proof fn lemma_trim_word(s: Seq<char>)
    requires
        is_word(s),
    ensures
        trim(s) == s,
{
    assert(trim_start(s) == s);
    assert(trim_end(s) == s);
}

proof fn lemma_line_with(k: Seq<char>, v: Seq<char>)
    requires
        is_word(v),
    ensures
        meta_of_line(k + " "@ + v, k) == Some(v),
{
    reveal_strlit(" ");
    let l = k + " "@ + v;
    assert(l.subrange(0, k.len() as int) == k);
    assert(l[k.len() as int] == ' ');
    assert(l.subrange(k.len() + 1int, l.len() as int) == v);
    lemma_trim_word(v);
}

proof fn lemma_line_without(l: Seq<char>, k: Seq<char>)
    requires
        l.len() > 0,
        k.len() > 0,
        l[0] != k[0],
    ensures
        meta_of_line(l, k) is None,
{
    if has_prefix(l, k) {
        assert(l.subrange(0, k.len() as int)[0] == l[0]);
    }
}

/// A checkpoint's message gives back the three object ids that were written
/// into it, provided that each is a single word and that the id and the
/// timestamp hold no line break.
pub proof fn lemma_message_round_trip(
    id: Seq<char>,
    head: Seq<char>,
    index_tree: Seq<char>,
    worktree_tree: Seq<char>,
    created: Seq<char>,
)
    requires
        single_line(id),
        single_line(created),
        is_word(head),
        is_word(index_tree),
        is_word(worktree_tree),
    ensures
        meta_value(commit_message(id, head, index_tree, worktree_tree, created), "head"@) == Some(
            head,
        ),
        meta_value(commit_message(id, head, index_tree, worktree_tree, created), "index-tree"@)
            == Some(index_tree),
        meta_value(commit_message(id, head, index_tree, worktree_tree, created), "worktree-tree"@)
            == Some(worktree_tree),
{
    reveal_strlit("checkpoint:");
    reveal_strlit("\nhead ");
    reveal_strlit("\nindex-tree ");
    reveal_strlit("\nworktree-tree ");
    reveal_strlit("\ncreated ");
    reveal_strlit("\n");
    reveal_strlit(" ");
    reveal_strlit("head");
    reveal_strlit("index-tree");
    reveal_strlit("worktree-tree");
    reveal_strlit("created ");
    let nl = "\n"@;
    let l1 = "checkpoint:"@ + id;
    let l2 = "head"@ + " "@ + head;
    let l3 = "index-tree"@ + " "@ + index_tree;
    let l4 = "worktree-tree"@ + " "@ + worktree_tree;
    let l5 = "created "@ + created;
    let r4 = l5 + nl;
    let r3 = l4 + nl + r4;
    let r2 = l3 + nl + r3;
    let r1 = l2 + nl + r2;
    let m = commit_message(id, head, index_tree, worktree_tree, created);
    assert("\nhead "@ =~= nl + "head"@ + " "@);
    assert("\nindex-tree "@ =~= nl + "index-tree"@ + " "@);
    assert("\nworktree-tree "@ =~= nl + "worktree-tree"@ + " "@);
    assert("\ncreated "@ =~= nl + "created "@);
    assert(m =~= l1 + nl + r1);
    assert(r1 =~= l2 + nl + r2);
    assert(single_line(l1)) by {
        assert forall|i: int| 0 <= i < l1.len() implies #[trigger] l1[i] != '\n' by {
            if i >= 11 {
                assert(l1[i] == id[i - 11]);
            }
        }
    }
    assert(single_line(l2)) by {
        assert forall|i: int| 0 <= i < l2.len() implies #[trigger] l2[i] != '\n' by {
            if i >= 5 {
                assert(l2[i] == head[i - 5]);
            }
        }
    }
    assert(single_line(l3)) by {
        assert forall|i: int| 0 <= i < l3.len() implies #[trigger] l3[i] != '\n' by {
            if i >= 11 {
                assert(l3[i] == index_tree[i - 11]);
            }
        }
    }
    lemma_first_line(l1, r1, "head"@);
    lemma_first_line(l1, r1, "index-tree"@);
    lemma_first_line(l1, r1, "worktree-tree"@);
    lemma_first_line(l2, r2, "head"@);
    lemma_first_line(l2, r2, "index-tree"@);
    lemma_first_line(l2, r2, "worktree-tree"@);
    lemma_first_line(l3, r3, "index-tree"@);
    lemma_first_line(l3, r3, "worktree-tree"@);
    lemma_first_line(l4, r4, "worktree-tree"@);
    lemma_line_without(l1, "head"@);
    lemma_line_without(l1, "index-tree"@);
    lemma_line_without(l1, "worktree-tree"@);
    lemma_line_without(l2, "index-tree"@);
    lemma_line_without(l2, "worktree-tree"@);
    lemma_line_without(l3, "worktree-tree"@);
    lemma_line_with("head"@, head);
    lemma_line_with("index-tree"@, index_tree);
    lemma_line_with("worktree-tree"@, worktree_tree);
    assert(single_line(l4)) by {
        assert forall|i: int| 0 <= i < l4.len() implies #[trigger] l4[i] != '\n' by {
            if i >= 14 {
                assert(l4[i] == worktree_tree[i - 14]);
            }
        }
    }
}

/// The decimal digits of `n`.
pub open spec fn decimal(n: nat) -> Seq<char>
    decreases n,
{
    if n < 10 {
        seq![digit_char(n)]
    } else {
        decimal(n / 10).push(digit_char(n % 10))
    }
}

pub open spec fn digit_char(d: nat) -> char {
    ((d + 48) as u32) as char
}

/// Writes `n` in decimal.
pub fn decimal_text(n: u64) -> (r: String)
    ensures
        r@ == decimal(n as nat),
{
    let mut digits: Vec<char> = Vec::new();
    let mut k: u64 = n;
    while k >= 10
        invariant
            decimal(n as nat) == decimal(k as nat) + digits@.reverse(),
        decreases k,
    {
        let d = (k % 10) as u32;
        let c = char_of_digit(d);
        proof {
            assert(decimal(k as nat) == decimal((k / 10) as nat).push(c));
            assert(seq![c] + digits@.reverse() == digits@.push(c).reverse());
            assert(decimal((k / 10) as nat).push(c) + digits@.reverse() == decimal(
                (k / 10) as nat,
            ) + (seq![c] + digits@.reverse()));
        }
        digits.push(c);
        k = k / 10;
    }
    let mut r = String::new();
    push_char(&mut r, char_of_digit(k as u32));
    let mut i: usize = digits.len();
    while i > 0
        invariant
            i <= digits@.len(),
            r@ == decimal(k as nat) + digits@.subrange(i as int, digits@.len() as int).reverse(),
            decimal(n as nat) == decimal(k as nat) + digits@.reverse(),
        decreases i,
    {
        let c = digits[i - 1];
        proof {
            let s = digits@.subrange(i as int, digits@.len() as int);
            assert(digits@.subrange(i - 1, digits@.len() as int).reverse() == s.reverse().push(
                c,
            ));
        }
        push_char(&mut r, c);
        i = i - 1;
    }
    assert(digits@.subrange(0, digits@.len() as int) == digits@);
    r
}

fn char_of_digit(d: u32) -> (c: char)
    requires
        d < 10,
    ensures
        c == digit_char(d as nat),
{
    if d == 0 {
        '0'
    } else if d == 1 {
        '1'
    } else if d == 2 {
        '2'
    } else if d == 3 {
        '3'
    } else if d == 4 {
        '4'
    } else if d == 5 {
        '5'
    } else if d == 6 {
        '6'
    } else if d == 7 {
        '7'
    } else if d == 8 {
        '8'
    } else {
        '9'
    }
}

/// The timestamp that a checkpoint records: seconds since the Unix epoch at
/// offset `+0000`, a form that git accepts as a date.
pub open spec fn timestamp_text(secs: nat) -> Seq<char> {
    decimal(secs) + " +0000"@
}

pub fn format_timestamp(secs: u64) -> (r: String)
    ensures
        r@ == timestamp_text(secs as nat),
{
    let mut r = decimal_text(secs);
    r.append(" +0000");
    r
}

} // verus!
