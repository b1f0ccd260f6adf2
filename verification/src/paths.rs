//! Lexical normalization of absolute `/`-separated paths, as used to tell
//! whether two paths that do not exist yet name the same file.
use vstd::prelude::*;
use crate::model::str_eq;

verus! {

/// The segments of a path read so far: those completed by a `/` (empty ones
/// dropped) and the one still being read.
pub open spec fn split_state(s: Seq<char>) -> (Seq<Seq<char>>, Seq<char>)
    decreases s.len(),
{
    if s.len() == 0 {
        (seq![], seq![])
    } else {
        let (done, cur) = split_state(s.drop_last());
        if s.last() == '/' {
            (if cur.len() > 0 {
                done.push(cur)
            } else {
                done
            }, seq![])
        } else {
            (done, cur.push(s.last()))
        }
    }
}

/// The non-empty segments of a `/`-separated path, in order.
pub open spec fn path_segments(s: Seq<char>) -> Seq<Seq<char>> {
    let (done, cur) = split_state(s);
    if cur.len() > 0 {
        done.push(cur)
    } else {
        done
    }
}

/// One segment applied to the components so far: `.` stays, `..` removes the
/// last component (the root has no parent), others are appended.
pub open spec fn resolve_step(stack: Seq<Seq<char>>, seg: Seq<char>) -> Seq<Seq<char>> {
    if seg == seq!['.'] {
        stack
    } else if seg == seq!['.', '.'] {
        if stack.len() > 0 {
            stack.drop_last()
        } else {
            stack
        }
    } else {
        stack.push(seg)
    }
}

/// The components left after resolving `.` and `..` in order.
pub open spec fn resolve(segs: Seq<Seq<char>>) -> Seq<Seq<char>>
    decreases segs.len(),
{
    if segs.len() == 0 {
        seq![]
    } else {
        resolve_step(resolve(segs.drop_last()), segs.last())
    }
}

/// Each component preceded by `/`.
pub open spec fn joined(stack: Seq<Seq<char>>) -> Seq<char>
    decreases stack.len(),
{
    if stack.len() == 0 {
        seq![]
    } else {
        joined(stack.drop_last()) + seq!['/'] + stack.last()
    }
}

/// The lexically normal form of an absolute path: its components after
/// resolving `.` and `..`, under the root.
pub open spec fn lexical_normal(s: Seq<char>) -> Seq<char> {
    let j = joined(resolve(path_segments(s)));
    if j.len() == 0 {
        seq!['/']
    } else {
        j
    }
}

/// The views of a vector of strings.
pub open spec fn texts(v: Seq<String>) -> Seq<Seq<char>> {
    v.map_values(|s: String| s@)
}

fn apply_segment(stack: &mut Vec<String>, seg: String)
    ensures
        texts(final(stack)@) == resolve_step(texts(old(stack)@), seg@),
{
    proof {
        reveal_strlit(".");
        reveal_strlit("..");
    }
    if str_eq(seg.as_str(), ".") {
        assert(seg@ =~= seq!['.']);
        return;
    }
    if str_eq(seg.as_str(), "..") {
        assert(seg@ =~= seq!['.', '.']);
        if stack.len() > 0 {
            stack.pop();
            assert(texts(stack@) =~= texts(old(stack)@).drop_last());
        }
        return;
    }
    assert(seg@ != seq!['.']) by {
        if seg@ == seq!['.'] {
            assert(seg@ =~= "."@);
        }
    }
    assert(seg@ != seq!['.', '.']) by {
        if seg@ == seq!['.', '.'] {
            assert(seg@ =~= ".."@);
        }
    }
    stack.push(seg);
    assert(texts(stack@) =~= texts(old(stack)@).push(stack@.last()@));
}

/// The lexically normal form of an absolute `/`-separated path.
pub fn normalize_lexically(path: &str) -> (r: String)
    ensures
        r@ == lexical_normal(path@),
{
    proof {
        vstd::string::axiom_spec_iter(path);
    }
    let n = path.unicode_len();
    let mut stack: Vec<String> = Vec::new();
    let mut start: usize = 0;
    let mut i: usize = 0;
    for c in it: path.chars()
        invariant
            it.seq() == path@,
            n == path@.len(),
            i == it.index(),
            start <= i,
            texts(stack@) == resolve(split_state(path@.take(i as int)).0),
            split_state(path@.take(i as int)).1 == path@.subrange(start as int, i as int),
    {
        proof {
            assert(path@.take(i + 1).drop_last() =~= path@.take(i as int));
            assert(path@.take(i + 1).last() == c);
        }
        if c == '/' {
            if start < i {
                let seg = path.substring_char(start, i).to_owned();
                let ghost before = split_state(path@.take(i as int)).0;
                apply_segment(&mut stack, seg);
                proof {
                    assert(before.push(seg@).drop_last() =~= before);
                }
            }
            start = i + 1;
            proof {
                assert(path@.subrange(start as int, i + 1) =~= seq![]);
            }
        } else {
            proof {
                assert(path@.subrange(start as int, i + 1) =~= path@.subrange(start as int, i as int).push(
                    c,
                ));
            }
        }
        i = i + 1;
    }
    proof {
        assert(path@.take(n as int) =~= path@);
    }
    if start < n {
        let seg = path.substring_char(start, n).to_owned();
        let ghost before = split_state(path@).0;
        apply_segment(&mut stack, seg);
        proof {
            assert(before.push(seg@).drop_last() =~= before);
        }
    }
    let ghost components = texts(stack@);
    assert(components == resolve(path_segments(path@)));
    let mut out = String::new();
    let mut k: usize = 0;
    while k < stack.len()
        invariant
            k <= stack@.len(),
            components == texts(stack@),
            out@ == joined(components.take(k as int)),
        decreases stack.len() - k,
    {
        proof {
            assert(components.take(k + 1).drop_last() =~= components.take(k as int));
            reveal_strlit("/");
        }
        out.append("/");
        out.append(stack[k].as_str());
        proof {
            assert(out@ =~= joined(components.take(k + 1)));
        }
        k = k + 1;
    }
    assert(components.take(stack@.len() as int) =~= components);
    if stack.len() == 0 {
        proof {
            reveal_strlit("/");
        }
        let root = "/".to_owned();
        assert(root@ =~= seq!['/']);
        return root;
    }
    assert(out@.len() > 0) by {
        assert(components.len() > 0);
        assert(joined(components) == joined(components.drop_last()) + seq!['/'] + components.last());
    }
    out
}

} // verus!
