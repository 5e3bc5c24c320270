//! Workspace-relative paths.
use vstd::prelude::*;
use vstd::string::*;
use crate::status::{pieces, split_pieces};
use crate::text::same_text;

verus! {

/// The components that remain of `segs` once `.` is dropped and each `..`
/// takes back the component before it; none where a `..` has nothing to
/// take back.
pub open spec fn fold_components(segs: Seq<Seq<char>>) -> Option<Seq<Seq<char>>>
    decreases segs.len(),
{
    if segs.len() == 0 {
        Some(seq![])
    } else {
        match fold_components(segs.drop_last()) {
            None => None,
            Some(st) => {
                let x = segs.last();
                if x == "."@ {
                    Some(st)
                } else if x == ".."@ {
                    if st.len() == 0 {
                        None
                    } else {
                        Some(st.drop_last())
                    }
                } else {
                    Some(st.push(x))
                }
            },
        }
    }
}

/// `parts` joined by `/`.
pub open spec fn join_slash(parts: Seq<Seq<char>>) -> Seq<char>
    decreases parts.len(),
{
    if parts.len() == 0 {
        seq![]
    } else if parts.len() == 1 {
        parts[0]
    } else {
        join_slash(parts.drop_last()) + "/"@ + parts.last()
    }
}

pub open spec fn outside_message() -> Seq<char> {
    "File is outside workspace"@
}

pub open spec fn absolute_message() -> Seq<char> {
    "Path must be workspace-relative"@
}

/// What a path relative to a workspace comes to: an absolute path is
/// refused, and so is one that climbs out of the workspace.
pub open spec fn relative_path(p: Seq<char>) -> Result<Seq<char>, Seq<char>> {
    if p.len() > 0 && p[0] == '/' {
        Err(absolute_message())
    } else {
        match fold_components(pieces(p, '/')) {
            None => Err(outside_message()),
            Some(st) => Ok(join_slash(st)),
        }
    }
}

fn join_parts(parts: &Vec<String>) -> (r: String)
    ensures
        r@ == join_slash(parts@.map_values(|t: String| t@)),
{
    let mut r = String::new();
    let mut i: usize = 0;
    let ghost pv = parts@.map_values(|t: String| t@);
    while i < parts.len()
        invariant
            i <= parts@.len(),
            pv == parts@.map_values(|t: String| t@),
            r@ == join_slash(pv.subrange(0, i as int)),
        decreases parts@.len() - i,
    {
        proof {
            reveal_strlit("/");
            let pre = pv.subrange(0, i + 1);
            assert(pre.drop_last() =~= pv.subrange(0, i as int));
            assert(pre.last() == parts@[i as int]@);
        }
        if i > 0 {
            r.append("/");
        } else {
            assert(pv.subrange(0, 0) =~= Seq::<Seq<char>>::empty());
        }
        r.append(parts[i].as_str());
        i = i + 1;
    }
    assert(pv.subrange(0, parts@.len() as int) == pv);
    r
}

/// Resolves `path` against a workspace root: `.` components go, each `..`
/// takes back the one before it.
pub fn normalize_relative_path(path: &str) -> (r: Result<String, String>)
    ensures
        match relative_path(path@) {
            Ok(v) => r matches Ok(t) && t@ == v,
            Err(m) => r matches Err(t) && t@ == m,
        },
{
    proof {
        reveal_strlit(".");
        reveal_strlit("..");
    }
    let n = path.unicode_len();
    if n > 0 && path.get_char(0) == '/' {
        return Err(String::from_str("Path must be workspace-relative"));
    }
    let segs = split_pieces(path, '/');
    let ghost sv = segs@.map_values(|t: String| t@);
    let mut stack: Vec<String> = Vec::new();
    let mut i: usize = 0;
    assert(stack@.map_values(|t: String| t@) =~= Seq::<Seq<char>>::empty());
    assert(sv.subrange(0, 0) =~= Seq::<Seq<char>>::empty());
    while i < segs.len()
        invariant
            i <= segs@.len(),
            sv == segs@.map_values(|t: String| t@),
            sv == pieces(path@, '/'),
            !(path@.len() > 0 && path@[0] == '/'),
            fold_components(sv.subrange(0, i as int)) == Some(stack@.map_values(|t: String| t@)),
        decreases segs@.len() - i,
    {
        proof {
            let pre = sv.subrange(0, i + 1);
            assert(pre.drop_last() =~= sv.subrange(0, i as int));
            assert(pre.last() == segs@[i as int]@);
        }
        let seg = segs[i].as_str();
        let ghost before = stack@;
        if same_text(seg, ".") {
        } else if same_text(seg, "..") {
            if stack.len() == 0 {
                proof {
                    lemma_fold_stays_none(sv, i as int + 1);
                    assert(sv.subrange(0, sv.len() as int) == sv);
                }
                return Err(String::from_str("File is outside workspace"));
            }
            stack.pop();
            assert(stack@.map_values(|t: String| t@) =~= before.map_values(|t: String| t@).drop_last());
        } else {
            stack.push(segs[i].clone());
            assert(stack@.map_values(|t: String| t@) =~= before.map_values(|t: String| t@).push(
                segs@[i as int]@,
            ));
        }
        i = i + 1;
    }
    assert(sv.subrange(0, segs@.len() as int) == sv);
    Ok(join_parts(&stack))
}

proof fn lemma_fold_stays_none(segs: Seq<Seq<char>>, i: int)
    requires
        0 <= i <= segs.len(),
        fold_components(segs.subrange(0, i)) is None,
    ensures
        fold_components(segs) is None,
    decreases segs.len() - i,
{
    if i < segs.len() {
        let pre = segs.subrange(0, i + 1);
        assert(pre.drop_last() =~= segs.subrange(0, i));
        lemma_fold_stays_none(segs, i + 1);
    } else {
        assert(segs.subrange(0, i) == segs);
    }
}

} // verus!
