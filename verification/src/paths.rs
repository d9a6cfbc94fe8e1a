//! Resolution of the relative paths found in dependency entries.
//!
//! A dependency's `path` is only meaningful relative to the directory of the
//! manifest that declares it.  Two manifests may reach the same package
//! through different relative routes, so resolution normalises `.` and `..`
//! segments: the processed-set of a vendoring run is keyed by the resolved
//! form, and a diamond-shaped graph dedupes correctly only because equal
//! directories resolve to equal strings.

use vstd::prelude::*;

verus! {

/// The one-character segment `.`, which resolution skips.
pub open spec fn dot_seg() -> Seq<char> {
    seq!['.']
}

/// The two-character segment `..`, which resolution turns into a pop.
pub open spec fn dotdot_seg() -> Seq<char> {
    seq!['.', '.']
}

/// Splitting a path on `/`, scanning from index `i` with the partial
/// segment `cur` already read.  Empty segments are kept here and dropped
/// during application, so `a//b` and `a/b` resolve alike.
pub open spec fn spec_split_from(s: Seq<char>, i: int, cur: Seq<char>) -> Seq<Seq<char>>
    decreases s.len() - i,
{
    if i < 0 || i >= s.len() {
        seq![cur]
    } else if s[i] == '/' {
        seq![cur] + spec_split_from(s, i + 1, Seq::empty())
    } else {
        spec_split_from(s, i + 1, cur.push(s[i]))
    }
}

/// The `/`-separated segments of a path string.
pub open spec fn spec_segments(s: Seq<char>) -> Seq<Seq<char>> {
    spec_split_from(s, 0, Seq::empty())
}

/// One step of resolution: apply a single segment to the stack of
/// directory names accumulated so far.  `..` at the root stays at the
/// root, as it does in a real filesystem.
pub open spec fn seg_step(acc: Seq<Seq<char>>, seg: Seq<char>) -> Seq<Seq<char>> {
    if seg == Seq::<char>::empty() || seg == dot_seg() {
        acc
    } else if seg == dotdot_seg() {
        if acc.len() == 0 {
            acc
        } else {
            acc.drop_last()
        }
    } else {
        acc.push(seg)
    }
}

/// Applying a whole list of segments, left to right.
pub open spec fn apply_segs(acc: Seq<Seq<char>>, segs: Seq<Seq<char>>) -> Seq<Seq<char>>
    decreases segs.len(),
{
    if segs.len() == 0 {
        acc
    } else {
        apply_segs(seg_step(acc, segs[0]), segs.subrange(1, segs.len() as int))
    }
}

/// The text of a non-empty segment list: `/` before every segment.
pub open spec fn spec_join_parts(segs: Seq<Seq<char>>) -> Seq<char>
    decreases segs.len(),
{
    if segs.len() == 0 {
        Seq::empty()
    } else {
        seq!['/'] + segs[0] + spec_join_parts(segs.subrange(1, segs.len() as int))
    }
}

/// The canonical text of a segment stack; the empty stack is the root `/`.
pub open spec fn spec_join(segs: Seq<Seq<char>>) -> Seq<char> {
    if segs.len() == 0 {
        seq!['/']
    } else {
        spec_join_parts(segs)
    }
}

/// What `resolve_path` returns: `rel` applied on top of `base`, both read
/// segment by segment from an initially empty stack, then printed in
/// canonical form.
pub open spec fn spec_resolve(base: Seq<char>, rel: Seq<char>) -> Seq<char> {
    spec_join(apply_segs(apply_segs(Seq::empty(), spec_segments(base)), spec_segments(rel)))
}

/// Applying segments one past a prefix equals one step on the prefix's
/// result: the unrolling that the exec loops advance by.
pub proof fn lemma_apply_snoc(acc: Seq<Seq<char>>, segs: Seq<Seq<char>>, last: Seq<char>)
    ensures
        apply_segs(acc, segs.push(last)) == seg_step(apply_segs(acc, segs), last),
    decreases segs.len(),
{
    let p = segs.push(last);
    if segs.len() == 0 {
        assert(p[0] == last);
        let sub = p.subrange(1, 1);
        assert(sub.len() == 0);
        assert(apply_segs(acc, p) == apply_segs(seg_step(acc, last), sub));
        assert(apply_segs(seg_step(acc, last), sub) == seg_step(acc, last));
        assert(apply_segs(acc, segs) == acc);
    } else {
        assert(p[0] == segs[0]);
        let tail = segs.subrange(1, segs.len() as int);
        assert(p.subrange(1, segs.len() as int + 1) =~= tail.push(last));
        assert(apply_segs(acc, p) == apply_segs(seg_step(acc, segs[0]), tail.push(last)));
        lemma_apply_snoc(seg_step(acc, segs[0]), tail, last);
        assert(apply_segs(acc, segs) == apply_segs(seg_step(acc, segs[0]), tail));
    }
}

/// The same unrolling for printing.
pub proof fn lemma_join_parts_snoc(segs: Seq<Seq<char>>, last: Seq<char>)
    ensures
        spec_join_parts(segs.push(last)) == spec_join_parts(segs) + seq!['/'] + last,
    decreases segs.len(),
{
    let p = segs.push(last);
    if segs.len() == 0 {
        assert(p[0] == last);
        let sub = p.subrange(1, 1);
        assert(sub.len() == 0);
        assert(spec_join_parts(p) == seq!['/'] + last + spec_join_parts(sub));
        assert(spec_join_parts(sub) =~= Seq::<char>::empty());
        assert(spec_join_parts(segs) =~= Seq::<char>::empty());
        assert(spec_join_parts(p) =~= spec_join_parts(segs) + seq!['/'] + last);
    } else {
        assert(p[0] == segs[0]);
        let tail = segs.subrange(1, segs.len() as int);
        assert(p.subrange(1, segs.len() as int + 1) =~= tail.push(last));
        assert(spec_join_parts(p) == seq!['/'] + segs[0] + spec_join_parts(tail.push(last)));
        lemma_join_parts_snoc(tail, last);
        assert(spec_join_parts(segs) == seq!['/'] + segs[0] + spec_join_parts(tail));
        assert(spec_join_parts(p) =~= spec_join_parts(segs) + seq!['/'] + last);
    }
}

/// The segments of `s`, in order, as owned strings.
pub fn split_segments(s: &str) -> (r: Vec<String>)
    ensures
        r.deep_view() == spec_segments(s@),
{
    let n: usize = s.unicode_len();
    let mut r: Vec<String> = Vec::new();
    let mut start: usize = 0;
    let mut i: usize = 0;
    proof {
        assert(s@.subrange(0, 0) =~= Seq::<char>::empty());
        assert(r.deep_view() =~= Seq::<Seq<char>>::empty());
        assert(r.deep_view() + spec_split_from(s@, 0, Seq::empty()) =~= spec_split_from(
            s@,
            0,
            Seq::empty(),
        ));
    }
    while i < n
        invariant
            n == s@.len(),
            start <= i <= n,
            spec_segments(s@) == r.deep_view() + spec_split_from(
                s@,
                i as int,
                s@.subrange(start as int, i as int),
            ),
        decreases n - i,
    {
        let c = s.get_char(i);
        if c == '/' {
            let seg = s.substring_char(start, i).to_owned();
            proof {
                assert(spec_split_from(s@, i as int, s@.subrange(start as int, i as int))
                    == seq![s@.subrange(start as int, i as int)] + spec_split_from(
                    s@,
                    i + 1,
                    Seq::empty(),
                ));
                assert((r.deep_view() + seq![seg@]).drop_last() =~= r.deep_view());
            }
            r.push(seg);
            proof {
                assert(r.deep_view().drop_last().push(seg@) =~= r.deep_view());
                assert(s@.subrange(i + 1, i + 1) =~= Seq::<char>::empty());
            }
            start = i + 1;
        } else {
            proof {
                assert(s@.subrange(start as int, i + 1) =~= s@.subrange(
                    start as int,
                    i as int,
                ).push(s@[i as int]));
            }
        }
        i = i + 1;
    }
    let seg = s.substring_char(start, n).to_owned();
    r.push(seg);
    proof {
        assert(r.deep_view().drop_last().push(s@.subrange(start as int, n as int))
            =~= r.deep_view());
        assert(r.deep_view() =~= spec_segments(s@));
    }
    r
}

/// Apply the segments of `segs` to the stack `acc`, in order.
fn apply_segments(acc: &mut Vec<String>, segs: &Vec<String>)
    ensures
        final(acc).deep_view() == apply_segs(old(acc).deep_view(), segs.deep_view()),
{
    let dot: String = String::from_str(".");
    let dotdot: String = String::from_str("..");
    proof {
        reveal_strlit(".");
        reveal_strlit("..");
        assert(dot@ =~= dot_seg());
        assert(dotdot@ =~= dotdot_seg());
    }
    let ghost acc0: Seq<Seq<char>> = acc.deep_view();
    let mut j: usize = 0;
    while j < segs.len()
        invariant
            j <= segs.len(),
            dot@ == dot_seg(),
            dotdot@ == dotdot_seg(),
            acc.deep_view() == apply_segs(acc0, segs.deep_view().subrange(0, j as int)),
        decreases segs.len() - j,
    {
        let ghost done: Seq<Seq<char>> = segs.deep_view().subrange(0, j as int);
        let ghost pre: Seq<Seq<char>> = acc.deep_view();
        let seg = &segs[j];
        let ghost sv: Seq<char> = segs.deep_view()[j as int];
        proof {
            assert(sv == segs@[j as int]@);
            assert(sv == seg@);
        }
        if seg.as_str().is_empty() || *seg == dot {
            proof {
                if seg@.len() == 0 {
                    assert(sv =~= Seq::<char>::empty());
                }
                assert(seg_step(pre, sv) == pre);
            }
        } else if *seg == dotdot {
            if acc.len() > 0 {
                acc.pop();
                proof {
                    assert(acc.deep_view() =~= pre.drop_last());
                    assert(seg_step(pre, sv) == pre.drop_last());
                }
            } else {
                proof {
                    assert(pre.len() == 0);
                    assert(seg_step(pre, sv) == pre);
                }
            }
        } else {
            acc.push(seg.clone());
            proof {
                assert(sv != Seq::<char>::empty() && sv != dot_seg() && sv != dotdot_seg());
                assert(acc.deep_view() =~= pre.push(sv));
                assert(seg_step(pre, sv) == pre.push(sv));
            }
        }
        proof {
            lemma_apply_snoc(acc0, done, sv);
            assert(done.push(sv) =~= segs.deep_view().subrange(0, j + 1));
        }
        j = j + 1;
    }
    proof {
        assert(segs.deep_view().subrange(0, segs.deep_view().len() as int) =~= segs.deep_view());
    }
}

/// Print a segment stack in canonical form.
fn join_segments(segs: &Vec<String>) -> (r: String)
    ensures
        r@ == spec_join(segs.deep_view()),
{
    if segs.len() == 0 {
        let r = String::from_str("/");
        proof {
            reveal_strlit("/");
            assert(r@ =~= seq!['/']);
        }
        return r;
    }
    let slash: String = String::from_str("/");
    proof {
        reveal_strlit("/");
        assert(slash@ =~= seq!['/']);
    }
    let mut r: String = String::new();
    let mut i: usize = 0;
    while i < segs.len()
        invariant
            i <= segs.len(),
            slash@ == seq!['/'],
            r@ == spec_join_parts(segs.deep_view().subrange(0, i as int)),
        decreases segs.len() - i,
    {
        let ghost done: Seq<Seq<char>> = segs.deep_view().subrange(0, i as int);
        r.append(slash.as_str());
        r.append(segs[i].as_str());
        proof {
            lemma_join_parts_snoc(done, segs.deep_view()[i as int]);
            assert(done.push(segs.deep_view()[i as int]) =~= segs.deep_view().subrange(
                0,
                i + 1,
            ));
        }
        i = i + 1;
    }
    proof {
        assert(segs.deep_view().subrange(0, segs.deep_view().len() as int) =~= segs.deep_view());
    }
    r
}

/// Resolve `rel` against the directory `base`, normalised so that equal
/// directories have equal resolved texts.
pub fn resolve_path(base: &str, rel: &str) -> (r: String)
    ensures
        r@ == spec_resolve(base@, rel@),
{
    let base_segs = split_segments(base);
    let rel_segs = split_segments(rel);
    let mut acc: Vec<String> = Vec::new();
    proof {
        assert(acc.deep_view() =~= Seq::<Seq<char>>::empty());
    }
    apply_segments(&mut acc, &base_segs);
    apply_segments(&mut acc, &rel_segs);
    join_segments(&acc)
}

} // verus!
