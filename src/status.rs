//! The changed paths of a working tree, read from `status --porcelain=v1 -z`
//! and counted from `diff --numstat`.
use vstd::prelude::*;
use vstd::string::*;
use crate::git::GitStatusEntry;
use crate::text::{occurs_at, push_char, trim, trim_text};

verus! {

/// The pieces of `s` between `sep`s, empty ones left out.
pub open spec fn pieces(s: Seq<char>, sep: char) -> Seq<Seq<char>>
    decreases s.len()
    via pieces_decreases
{
    if s.len() == 0 {
        seq![]
    } else {
        let e = first_index(s, sep);
        let p = s.subrange(0, e);
        let first: Seq<Seq<char>> = if p.len() > 0 {
            seq![p]
        } else {
            seq![]
        };
        if e < s.len() {
            first + pieces(s.subrange(e + 1, s.len() as int), sep)
        } else {
            first
        }
    }
}

/// The index of the first `c` in `s`, or its length.
pub open spec fn first_index(s: Seq<char>, c: char) -> int
    decreases s.len(),
{
    if s.len() == 0 || s[0] == c {
        0
    } else {
        1 + first_index(s.drop_first(), c)
    }
}

proof fn lemma_first_index_bound(s: Seq<char>, c: char)
    ensures
        0 <= first_index(s, c) <= s.len(),
    decreases s.len(),
{
    if s.len() > 0 && s[0] != c {
        lemma_first_index_bound(s.drop_first(), c);
    }
}

#[via_fn]
proof fn pieces_decreases(s: Seq<char>, sep: char) {
    lemma_first_index_bound(s, sep);
}

proof fn lemma_first_index(s: Seq<char>, c: char, j: int)
    requires
        0 <= j <= s.len(),
        forall|k: int| 0 <= k < j ==> #[trigger] s[k] != c,
        j == s.len() || s[j] == c,
    ensures
        first_index(s, c) == j,
    decreases j,
{
    if j > 0 {
        assert forall|k: int| 0 <= k < j - 1 implies #[trigger] s.drop_first()[k] != c by {
            assert(s.drop_first()[k] == s[k + 1]);
        }
        lemma_first_index(s.drop_first(), c, j - 1);
    }
}

/// Splits `s` at each `sep`, leaving out the empty pieces.
pub fn split_pieces(s: &str, sep: char) -> (r: Vec<String>)
    ensures
        r@.map_values(|t: String| t@) == pieces(s@, sep),
{
    let n = s.unicode_len();
    let mut r: Vec<String> = Vec::new();
    let mut pos: usize = 0;
    assert(s@.subrange(0, n as int) == s@);
    assert(r@.map_values(|t: String| t@) =~= seq![]);
    while pos < n
        invariant
            n == s@.len(),
            pos <= n,
            pieces(s@, sep) == r@.map_values(|t: String| t@) + pieces(
                s@.subrange(pos as int, n as int),
                sep,
            ),
        decreases n - pos,
    {
        let ghost rest = s@.subrange(pos as int, n as int);
        let mut e: usize = pos;
        while e < n && s.get_char(e) != sep
            invariant
                n == s@.len(),
                pos <= e <= n,
                forall|k: int| pos <= k < e ==> #[trigger] s@[k] != sep,
            decreases n - e,
        {
            e = e + 1;
        }
        proof {
            assert forall|k: int| 0 <= k < e - pos implies #[trigger] rest[k] != sep by {
                assert(rest[k] == s@[k + pos]);
            }
            lemma_first_index(rest, sep, e - pos);
            assert(rest.subrange(0, e - pos) == s@.subrange(pos as int, e as int));
            if e < n {
                assert(rest.subrange(e - pos + 1, rest.len() as int) == s@.subrange(
                    e + 1,
                    n as int,
                ));
            }
        }
        let ghost before = r@;
        if e > pos {
            r.push(s.substring_char(pos, e).to_owned());
            assert(r@.map_values(|t: String| t@) =~= before.map_values(|t: String| t@) + seq![
                s@.subrange(pos as int, e as int),
            ]);
        } else {
            assert(r@.map_values(|t: String| t@) =~= before.map_values(|t: String| t@)
                + Seq::<Seq<char>>::empty());
        }
        if e == n {
            pos = n;
            assert(s@.subrange(n as int, n as int) =~= Seq::<char>::empty());
        } else {
            pos = e + 1;
        }
    }
    r
}

/// One entry of the status: path, index letter, working-tree letter.
pub struct StatusLine {
    pub path: Seq<char>,
    pub index: char,
    pub worktree: char,
}

pub open spec fn renamed_or_copied(c: char) -> bool {
    c == 'R' || c == 'C'
}

/// The entries that the records of `status --porcelain=v1 -z` describe. A
/// record is two status letters, a space and a path; records shorter than
/// that are passed over; a rename or copy takes its path from the record
/// after it.
pub open spec fn status_lines(recs: Seq<Seq<char>>) -> Seq<StatusLine>
    decreases recs.len(),
{
    if recs.len() == 0 {
        seq![]
    } else {
        let r = recs[0];
        if r.len() < 3 {
            status_lines(recs.drop_first())
        } else if (renamed_or_copied(r[0]) || renamed_or_copied(r[1])) && recs.len() > 1 {
            seq![StatusLine { path: recs[1], index: r[0], worktree: r[1] }] + status_lines(
                recs.subrange(2, recs.len() as int),
            )
        } else {
            seq![StatusLine { path: r.subrange(3, r.len() as int), index: r[0], worktree: r[1] }]
                + status_lines(recs.drop_first())
        }
    }
}

/// A row of `diff --numstat`: path, lines added, lines deleted.
pub struct NumstatRow {
    pub path: Seq<char>,
    pub added: Option<u32>,
    pub deleted: Option<u32>,
}

/// The value of a string of decimal digits.
pub open spec fn digits_value(s: Seq<char>) -> int
    decreases s.len(),
{
    if s.len() == 0 {
        0
    } else {
        digits_value(s.drop_last()) * 10 + (s.last() as int - '0' as int)
    }
}

pub open spec fn all_digits(s: Seq<char>) -> bool {
    forall|i: int| 0 <= i < s.len() ==> '0' <= #[trigger] s[i] && s[i] <= '9'
}

/// What `u32::from_str` gives: an optional `+` and at least one digit, of a
/// value that fits.
pub open spec fn u32_of(s: Seq<char>) -> Option<u32> {
    let d = if s.len() > 0 && s[0] == '+' {
        s.drop_first()
    } else {
        s
    };
    if d.len() > 0 && all_digits(d) && digits_value(d) <= u32::MAX {
        Some(digits_value(d) as u32)
    } else {
        None
    }
}

/// A count of `diff --numstat`: `-` for a binary file, else a number.
pub open spec fn numstat_value(s: Seq<char>) -> Option<u32> {
    if trim(s) == "-"@ {
        None
    } else {
        u32_of(trim(s))
    }
}

fn parse_u32(s: &str) -> (r: Option<u32>)
    ensures
        r == u32_of(s@),
{
    let n = s.unicode_len();
    let start: usize = if n > 0 && s.get_char(0) == '+' {
        1
    } else {
        0
    };
    let ghost d = s@.subrange(start as int, n as int);
    assert(start == 1 ==> d == s@.drop_first());
    assert(start == 0 ==> d == s@);
    if start == n {
        return None;
    }
    let mut v: u64 = 0;
    let mut i: usize = start;
    while i < n
        invariant
            start <= i <= n == s@.len(),
            d == s@.subrange(start as int, n as int),
            v as int == digits_value(s@.subrange(start as int, i as int)),
            v <= u32::MAX,
            start <= 1,
            start == 1 ==> d == s@.drop_first() && s@[0] == '+',
            start == 0 ==> d == s@ && !(s@.len() > 0 && s@[0] == '+'),
            d.len() > 0,
            forall|k: int| start <= k < i ==> '0' <= #[trigger] s@[k] && s@[k] <= '9',
        decreases n - i,
    {
        let c = s.get_char(i);
        proof {
            let pre = s@.subrange(start as int, i + 1);
            assert(pre.drop_last() == s@.subrange(start as int, i as int));
        }
        if c < '0' || c > '9' {
            assert(d[i - start] == c);
            assert(!all_digits(d)) by {
                assert(!('0' <= d[i - start] && d[i - start] <= '9'));
            }
            return None;
        }
        let dv = (c as u32 - '0' as u32) as u64;
        v = v * 10 + dv;
        proof {
            let pre = s@.subrange(start as int, i + 1);
            assert(pre.last() == c);
            assert(v as int == digits_value(pre));
        }
        if v > 0xFFFF_FFFF {
            proof {
                assert(d.subrange(0, i + 1 - start) == s@.subrange(start as int, i + 1));
                assert(d.subrange(0, n - start) == d);
                if all_digits(d) {
                    lemma_digits_grow(d, i + 1 - start, n - start);
                }
            }
            return None;
        }
        i = i + 1;
    }
    assert(s@.subrange(start as int, n as int) == d);
    Some(v as u32)
}

proof fn lemma_digits_grow(d: Seq<char>, i: int, j: int)
    requires
        0 <= i <= j <= d.len(),
        all_digits(d.subrange(0, j)),
    ensures
        digits_value(d.subrange(0, i)) <= digits_value(d.subrange(0, j)),
    decreases j - i,
{
    if i < j {
        let t = d.subrange(0, j);
        assert(t.drop_last() == d.subrange(0, j - 1));
        assert(all_digits(d.subrange(0, j - 1))) by {
            assert forall|k: int| 0 <= k < j - 1 implies '0' <= #[trigger] d.subrange(0, j - 1)[k]
                && d.subrange(0, j - 1)[k] <= '9' by {
                assert(d.subrange(0, j - 1)[k] == t[k]);
            }
        }
        assert('0' <= t[j - 1] <= '9');
        lemma_digits_nonneg(d.subrange(0, j - 1));
        lemma_digits_grow(d, i, j - 1);
    }
}

proof fn lemma_digits_nonneg(d: Seq<char>)
    requires
        all_digits(d),
    ensures
        digits_value(d) >= 0,
    decreases d.len(),
{
    if d.len() > 0 {
        assert(all_digits(d.drop_last())) by {
            assert forall|k: int| 0 <= k < d.len() - 1 implies '0' <= #[trigger] d.drop_last()[k]
                && d.drop_last()[k] <= '9' by {
                assert(d.drop_last()[k] == d[k]);
            }
        }
        lemma_digits_nonneg(d.drop_last());
    }
}

/// Reads one count of a `diff --numstat` row.
pub fn parse_numstat_value(value: &str) -> (r: Option<u32>)
    ensures
        r == numstat_value(value@),
{
    let t = trim_text(value);
    proof {
        reveal_strlit("-");
    }
    if crate::text::same_text(t.as_str(), "-") {
        None
    } else {
        parse_u32(t.as_str())
    }
}

/// Two counts of one path taken together; a count that is missing on one
/// side is taken from the other.
pub open spec fn merged(a: Option<u32>, b: Option<u32>) -> Option<u32> {
    match (a, b) {
        (Some(x), Some(y)) => Some(if x + y > u32::MAX {
            u32::MAX
        } else {
            (x + y) as u32
        }),
        (Some(x), None) => Some(x),
        (None, Some(y)) => Some(y),
        (None, None) => None,
    }
}

pub fn merge_counts(current: Option<u32>, incoming: Option<u32>) -> (r: Option<u32>)
    ensures
        r == merged(current, incoming),
{
    match (current, incoming) {
        (Some(a), Some(b)) => Some(a.saturating_add(b)),
        (Some(v), None) => Some(v),
        (None, Some(v)) => Some(v),
        (None, None) => None,
    }
}

/// The index of the last occurrence of `p` in `s`, or -1.
pub open spec fn last_occurrence(s: Seq<char>, p: Seq<char>) -> int {
    if exists|i: int| occurs_at(s, p, i) {
        choose|i: int| occurs_at(s, p, i) && forall|j: int| occurs_at(s, p, j) ==> j <= i
    } else {
        -1
    }
}

/// The path that a numstat row names: for a rename, the new one.
pub open spec fn numstat_path(p: Seq<char>) -> Seq<char> {
    if last_occurrence(p, " -> "@) >= 0 {
        p.subrange(last_occurrence(p, " -> "@) + 4, p.len() as int)
    } else if last_occurrence(p, " => "@) >= 0 {
        p.subrange(last_occurrence(p, " => "@) + 4, p.len() as int)
    } else {
        p
    }
}

fn find_last_text(s: &str, p: &str) -> (r: Option<usize>)
    ensures
        match r {
            Some(i) => last_occurrence(s@, p@) == i && i + p@.len() <= s@.len(),
            None => last_occurrence(s@, p@) == -1,
        },
{
    let n = s.unicode_len();
    let mut j: usize = n;
    loop
        invariant
            j <= n,
            n == s@.len(),
            forall|k: int| j < k ==> !occurs_at(s@, p@, k),
        decreases j,
    {
        if crate::text::occurs(s, p, j) {
            let i = j;
            assert(forall|k: int| occurs_at(s@, p@, k) ==> k <= i);
            assert(occurs_at(s@, p@, i as int));
            proof {
                let w = choose|w: int| occurs_at(s@, p@, w) && forall|k: int| occurs_at(s@, p@, k) ==> k <= w;
                assert(w == i);
            }
            return Some(i);
        }
        if j == 0 {
            assert forall|k: int| !occurs_at(s@, p@, k) by {
                if k < 0 {
                }
            }
            return None;
        }
        j = j - 1;
    }
}

/// Names the path of a `diff --numstat` row: the new path of a rename.
pub fn normalize_numstat_path(path: &str) -> (r: String)
    ensures
        r@ == numstat_path(path@),
{
    let n = path.unicode_len();
    proof {
        reveal_strlit(" -> ");
        reveal_strlit(" => ");
    }
    match find_last_text(path, " -> ") {
        Some(i) => path.substring_char(i + 4, n).to_owned(),
        None => match find_last_text(path, " => ") {
            Some(i) => path.substring_char(i + 4, n).to_owned(),
            None => path.to_owned(),
        },
    }
}

/// `line` without a `'\r'` at its end.
pub open spec fn strip_cr(line: Seq<char>) -> Seq<char> {
    if line.len() > 0 && line.last() == '\r' {
        line.drop_last()
    } else {
        line
    }
}

/// The row that a line of `diff --numstat` gives: the counts are its first
/// two tab-separated fields, the path its third; a line without a path gives
/// none.
pub open spec fn numstat_row(line: Seq<char>) -> Option<NumstatRow> {
    let i = first_index(line, '\t');
    let r1 = line.subrange(i + 1, line.len() as int);
    let j = first_index(r1, '\t');
    let r2 = r1.subrange(j + 1, r1.len() as int);
    let p = r2.subrange(0, first_index(r2, '\t'));
    if i >= line.len() || j >= r1.len() || p.len() == 0 {
        None
    } else {
        Some(
            NumstatRow {
                path: numstat_path(p),
                added: numstat_value(line.subrange(0, i)),
                deleted: numstat_value(r1.subrange(0, j)),
            },
        )
    }
}

/// The rows of a whole `diff --numstat` output, in order.
pub open spec fn numstat_rows(lines: Seq<Seq<char>>) -> Seq<NumstatRow>
    decreases lines.len(),
{
    if lines.len() == 0 {
        seq![]
    } else {
        let rest = numstat_rows(lines.drop_last());
        match numstat_row(strip_cr(lines.last())) {
            Some(r) => rest.push(r),
            None => rest,
        }
    }
}

/// The counts that `rows` give for `path`, all rows of that path taken
/// together; none where no row names it.
pub open spec fn stats_for(rows: Seq<NumstatRow>, path: Seq<char>) -> Option<(Option<u32>, Option<u32>)>
    decreases rows.len(),
{
    if rows.len() == 0 {
        None
    } else {
        let prev = stats_for(rows.drop_last(), path);
        let r = rows.last();
        if r.path == path {
            match prev {
                None => Some((r.added, r.deleted)),
                Some((a, d)) => Some((merged(a, r.added), merged(d, r.deleted))),
            }
        } else {
            prev
        }
    }
}

/// A numstat row, as the library holds it.
pub struct CountRow {
    pub path: String,
    pub added: Option<u32>,
    pub deleted: Option<u32>,
}

impl View for CountRow {
    type V = NumstatRow;

    open spec fn view(&self) -> NumstatRow {
        NumstatRow { path: self.path@, added: self.added, deleted: self.deleted }
    }
}

fn tab_index(s: &str) -> (r: usize)
    ensures
        r == first_index(s@, '\t'),
        r <= s@.len(),
{
    let n = s.unicode_len();
    let mut e: usize = 0;
    while e < n && s.get_char(e) != '\t'
        invariant
            e <= n == s@.len(),
            forall|k: int| 0 <= k < e ==> #[trigger] s@[k] != '\t',
        decreases n - e,
    {
        e = e + 1;
    }
    proof {
        lemma_first_index(s@, '\t', e as int);
    }
    e
}

fn parse_numstat_line(line: &str) -> (r: Option<CountRow>)
    ensures
        match numstat_row(strip_cr(line@)) {
            Some(v) => r matches Some(c) && c@ == v,
            None => r is None,
        },
{
    let n0 = line.unicode_len();
    let l = if n0 > 0 && line.get_char(n0 - 1) == '\r' {
        line.substring_char(0, n0 - 1)
    } else {
        line
    };
    assert(l@ == strip_cr(line@));
    let n = l.unicode_len();
    let i = tab_index(l);
    if i >= n {
        return None;
    }
    let r1 = l.substring_char(i + 1, n);
    let n1 = r1.unicode_len();
    let j = tab_index(r1);
    if j >= n1 {
        return None;
    }
    let r2 = r1.substring_char(j + 1, n1);
    let k = tab_index(r2);
    let p = r2.substring_char(0, k);
    if k == 0 {
        return None;
    }
    let added = parse_numstat_value(l.substring_char(0, i));
    let deleted = parse_numstat_value(r1.substring_char(0, j));
    Some(CountRow { path: normalize_numstat_path(p), added, deleted })
}

/// Reads the rows of a `diff --numstat` output.
pub fn collect_numstat(output: &str) -> (r: Vec<CountRow>)
    ensures
        r@.map_values(|c: CountRow| c@) == numstat_rows(pieces(output@, '\n')),
{
    let lines = split_pieces(output, '\n');
    let ghost lv = lines@.map_values(|t: String| t@);
    let mut r: Vec<CountRow> = Vec::new();
    let mut i: usize = 0;
    assert(r@.map_values(|c: CountRow| c@) =~= seq![]);
    while i < lines.len()
        invariant
            i <= lines@.len(),
            lv == lines@.map_values(|t: String| t@),
            r@.map_values(|c: CountRow| c@) == numstat_rows(lv.subrange(0, i as int)),
        decreases lines@.len() - i,
    {
        proof {
            let pre = lv.subrange(0, i + 1);
            assert(pre.drop_last() =~= lv.subrange(0, i as int));
            assert(pre.last() == lines@[i as int]@);
        }
        let ghost before = r@;
        match parse_numstat_line(lines[i].as_str()) {
            Some(c) => {
                r.push(c);
                assert(r@.map_values(|c: CountRow| c@) =~= before.map_values(|c: CountRow| c@).push(
                    r@[i as int - 0 + (r@.len() - 1 - i as int)]@,
                ));
            },
            None => {},
        }
        i = i + 1;
    }
    assert(lv.subrange(0, lines@.len() as int) == lv);
    r
}

fn counts_for(rows: &Vec<CountRow>, path: &str) -> (r: Option<(Option<u32>, Option<u32>)>)
    ensures
        r == stats_for(rows@.map_values(|c: CountRow| c@), path@),
{
    let ghost rv = rows@.map_values(|c: CountRow| c@);
    let mut acc: Option<(Option<u32>, Option<u32>)> = None;
    let mut i: usize = 0;
    assert(rv.subrange(0, 0) =~= Seq::<NumstatRow>::empty());
    while i < rows.len()
        invariant
            i <= rows@.len(),
            rv == rows@.map_values(|c: CountRow| c@),
            acc == stats_for(rv.subrange(0, i as int), path@),
        decreases rows@.len() - i,
    {
        proof {
            let pre = rv.subrange(0, i + 1);
            assert(pre.drop_last() =~= rv.subrange(0, i as int));
            assert(pre.last() == rows@[i as int]@);
        }
        let row = &rows[i];
        if crate::text::same_text(row.path.as_str(), path) {
            acc = match acc {
                None => Some((row.added, row.deleted)),
                Some((a, d)) => Some((merge_counts(a, row.added), merge_counts(d, row.deleted))),
            };
        }
        i = i + 1;
    }
    assert(rv.subrange(0, rows@.len() as int) == rv);
    acc
}

fn letter(c: char) -> (r: String)
    ensures
        r@ == seq![c],
{
    let mut r = String::new();
    push_char(&mut r, c);
    assert(r@ =~= seq![c]);
    r
}

/// Whether `e` is the entry that `line` describes, with the counts that
/// `rows` give for its path.
pub open spec fn entry_matches(e: GitStatusEntry, line: StatusLine, rows: Seq<NumstatRow>) -> bool {
    &&& e.path@ == line.path
    &&& e.index_status@ == seq![line.index]
    &&& e.worktree_status@ == seq![line.worktree]
    &&& match stats_for(rows, line.path) {
        Some((a, d)) => e.additions == a && e.deletions == d,
        None => e.additions is None && e.deletions is None,
    }
}

/// Lists the changed paths of a working tree from the output of
/// `status --porcelain=v1 -z -uall`, with the line counts of
/// `diff --numstat` (unstaged, then staged) for each. An untracked file has
/// no counts here: they come from the file itself.
pub fn list_status(porcelain: &str, unstaged_numstat: &str, staged_numstat: &str) -> (r: Vec<
    GitStatusEntry,
>)
    ensures
        r@.len() == status_lines(pieces(porcelain@, '\0')).len(),
        forall|i: int|
            0 <= i < r@.len() ==> entry_matches(
                #[trigger] r@[i],
                status_lines(pieces(porcelain@, '\0'))[i],
                numstat_rows(pieces(unstaged_numstat@, '\n')) + numstat_rows(
                    pieces(staged_numstat@, '\n'),
                ),
            ),
{
    let mut rows = collect_numstat(unstaged_numstat);
    let mut staged = collect_numstat(staged_numstat);
    let ghost u = rows@.map_values(|c: CountRow| c@);
    let ghost st = staged@.map_values(|c: CountRow| c@);
    rows.append(&mut staged);
    assert(rows@.map_values(|c: CountRow| c@) =~= u + st);
    let ghost all = u + st;
    let recs = split_pieces(porcelain, '\0');
    let ghost rv = recs@.map_values(|t: String| t@);
    let ghost lines = status_lines(rv);
    let mut out: Vec<GitStatusEntry> = Vec::new();
    let mut i: usize = 0;
    assert(rv.subrange(0, recs@.len() as int) == rv);
    while i < recs.len()
        invariant
            i <= recs@.len(),
            rv == recs@.map_values(|t: String| t@),
            all == rows@.map_values(|c: CountRow| c@),
            lines == status_lines(rv),
            lines.len() == out@.len() + status_lines(rv.subrange(i as int, rv.len() as int)).len(),
            forall|k: int| 0 <= k < out@.len() ==> lines[k] == #[trigger] status_lines(rv)[k],
            lines == lines.subrange(0, out@.len() as int) + status_lines(rv.subrange(i as int, rv.len() as int)),
            forall|k: int| 0 <= k < out@.len() ==> entry_matches(#[trigger] out@[k], lines[k], all),
        decreases recs@.len() - i,
    {
        let ghost tail = rv.subrange(i as int, rv.len() as int);
        assert(tail[0] == recs@[i as int]@);
        assert(tail.drop_first() =~= rv.subrange(i + 1, rv.len() as int));
        let rec = recs[i].as_str();
        let n = rec.unicode_len();
        if n < 3 {
            i = i + 1;
        } else {
            let x = rec.get_char(0);
            let y = rec.get_char(1);
            let take_next = (x == 'R' || x == 'C' || y == 'R' || y == 'C') && i + 1 < recs.len();
            let path = if take_next {
                assert(tail[1] == recs@[i + 1]@);
                assert(tail.subrange(2, tail.len() as int) =~= rv.subrange(i + 2, rv.len() as int));
                recs[i + 1].clone()
            } else {
                rec.substring_char(3, n).to_owned()
            };
            let stats = counts_for(&rows, path.as_str());
            let (additions, deletions) = match stats {
                Some((a, d)) => (a, d),
                None => (None, None),
            };
            let e = GitStatusEntry {
                path,
                index_status: letter(x),
                worktree_status: letter(y),
                additions,
                deletions,
            };
            let ghost k = out@.len() as int;
            proof {
                let line = status_lines(tail)[0];
                assert(line.path == e.path@);
            }
            out.push(e);
            i = if take_next { i + 2 } else { i + 1 };
            proof {
                assert(lines.subrange(0, out@.len() as int) =~= lines.subrange(0, k).push(lines[k]));
            }
        }
    }
    out
}

/// How many lines a small text file holds, as an untracked file's count of
/// added lines: none for a file over `limit` bytes, or one with a NUL byte
/// among its first 8000; a last line without a line break counts too.
pub open spec fn untracked_lines(buf: Seq<u8>, limit: nat) -> Option<u32> {
    if buf.len() > limit || exists|i: int| 0 <= i < buf.len() && i < 8000 && #[trigger] buf[i] == 0 {
        None
    } else {
        let n = newline_count(buf) + if buf.len() > 0 && buf.last() != 10 { 1int } else { 0int };
        Some(if n > u32::MAX { u32::MAX } else { n as u32 })
    }
}

pub open spec fn newline_count(buf: Seq<u8>) -> int
    decreases buf.len(),
{
    if buf.len() == 0 {
        0
    } else {
        newline_count(buf.drop_last()) + if buf.last() == 10 { 1int } else { 0int }
    }
}

/// Counts the lines of an untracked file's first `limit + 1` bytes.
pub fn count_untracked_lines(buf: &Vec<u8>, limit: usize) -> (r: Option<u32>)
    ensures
        r == untracked_lines(buf@, limit as nat),
{
    let n = buf.len();
    if n > limit {
        return None;
    }
    let mut i: usize = 0;
    while i < n && i < 8000
        invariant
            n == buf@.len(),
            i <= n,
            forall|k: int| 0 <= k < i ==> #[trigger] buf@[k] != 0,
        decreases n - i,
    {
        if buf[i] == 0 {
            return None;
        }
        i = i + 1;
    }
    let mut lines: u32 = 0;
    let mut j: usize = 0;
    while j < n
        invariant
            n == buf@.len(),
            j <= n,
            lines == (if newline_count(buf@.subrange(0, j as int)) > u32::MAX {
                u32::MAX as int
            } else {
                newline_count(buf@.subrange(0, j as int))
            }),
        decreases n - j,
    {
        proof {
            let pre = buf@.subrange(0, j + 1);
            assert(pre.drop_last() =~= buf@.subrange(0, j as int));
            lemma_newline_count_nonneg(buf@.subrange(0, j as int));
        }
        if buf[j] == 10 {
            lines = lines.saturating_add(1);
        }
        j = j + 1;
    }
    assert(buf@.subrange(0, n as int) == buf@);
    proof {
        lemma_newline_count_nonneg(buf@);
    }
    if n > 0 && buf[n - 1] != 10 {
        lines = lines.saturating_add(1);
    }
    Some(lines)
}

proof fn lemma_newline_count_nonneg(buf: Seq<u8>)
    ensures
        newline_count(buf) >= 0,
    decreases buf.len(),
{
    if buf.len() > 0 {
        lemma_newline_count_nonneg(buf.drop_last());
    }
}

} // verus!
