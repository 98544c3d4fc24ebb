//! Displays: geometry, deterministic ordering, output matching.

use vstd::prelude::*;
use vstd::seq_lib::lemma_multiset_commutative;

verus! {

broadcast use vstd::seq_lib::group_to_multiset_ensures, vstd::multiset::group_multiset_axioms;

/// Geometry and identity of one display.  The ordinal `id` is assigned in
/// the order the operating system enumerates displays, before sorting.
#[derive(Debug, Clone, Copy, PartialEq, Eq, Structural)]
pub struct MonitorInfo {
    pub id: usize,
    pub x: i32,
    pub y: i32,
    pub width: i32,
    pub height: i32,
}

/// Enumerating displays can fail only by finding none.
#[derive(Debug, Clone, Copy, PartialEq, Eq, Structural)]
pub enum EnumerationError {
    NoDisplays,
}

/// The presentation order of displays: by `y`, ties by `x`.
pub open spec fn leq_pos(a: MonitorInfo, b: MonitorInfo) -> bool {
    a.y < b.y || (a.y == b.y && a.x <= b.x)
}

/// `a` comes strictly before `b` in the presentation order.
pub open spec fn lt_pos(a: MonitorInfo, b: MonitorInfo) -> bool {
    a.y < b.y || (a.y == b.y && a.x < b.x)
}

/// Sorted by `(y, x)` ascending.
pub open spec fn sorted_by_position(s: Seq<MonitorInfo>) -> bool {
    forall|i: int, j: int| 0 <= i < j < s.len() ==> #[trigger] leq_pos(s[i], s[j])
}

/// The displays of `s` that sit exactly at `(kx, ky)`, in their order in
/// `s`.  Sorting is stable: it preserves these subsequences, so displays
/// whose positions tie keep the order the operating system enumerated them
/// in.
pub open spec fn at_position(s: Seq<MonitorInfo>, ky: int, kx: int) -> Seq<MonitorInfo> {
    s.filter(|e: MonitorInfo| e.y == ky && e.x == kx)
}

/// Filtering by position distributes over concatenation.
proof fn lemma_at_position_add(a: Seq<MonitorInfo>, b: Seq<MonitorInfo>, ky: int, kx: int)
    ensures
        at_position(a + b, ky, kx) == at_position(a, ky, kx) + at_position(b, ky, kx),
    decreases b.len(),
{
    reveal(Seq::filter);
    if b.len() == 0 {
        assert(a + b =~= a);
        assert(at_position(a, ky, kx) + at_position(b, ky, kx) =~= at_position(a, ky, kx));
    } else {
        lemma_at_position_add(a, b.drop_last(), ky, kx);
        assert((a + b).drop_last() =~= a + b.drop_last());
        let last = b.last();
        assert((a + b).last() == last);
        if last.y == ky && last.x == kx {
            assert(at_position(a + b, ky, kx) =~= at_position(a, ky, kx) + at_position(
                b,
                ky,
                kx,
            ));
        } else {
            assert(at_position(a + b, ky, kx) =~= at_position(a, ky, kx) + at_position(
                b,
                ky,
                kx,
            ));
        }
    }
}

/// Appending one display extends exactly the subsequence of its position.
proof fn lemma_at_position_push(s: Seq<MonitorInfo>, v: MonitorInfo, ky: int, kx: int)
    ensures
        at_position(s.push(v), ky, kx) == if v.y == ky && v.x == kx {
            at_position(s, ky, kx).push(v)
        } else {
            at_position(s, ky, kx)
        },
{
    reveal(Seq::filter);
    assert(s.push(v).drop_last() =~= s);
    assert(s.push(v).last() == v);
}

/// A sequence with no display at the position filters to nothing.
proof fn lemma_at_position_none(s: Seq<MonitorInfo>, ky: int, kx: int)
    requires
        forall|j: int| 0 <= j < s.len() ==> !((#[trigger] s[j]).y == ky && s[j].x == kx),
    ensures
        at_position(s, ky, kx) == Seq::<MonitorInfo>::empty(),
    decreases s.len(),
{
    reveal(Seq::filter);
    if s.len() > 0 {
        lemma_at_position_none(s.drop_last(), ky, kx);
    }
}

/// Pixel tolerance when matching a display against a compositor output:
/// compositor rounding can make the reported sizes differ slightly.
pub const GEOMETRY_TOLERANCE: i32 = 10;

/// Whether a compositor output at `(ox, oy)` with extent `ow x oh` is the
/// given display: the position must match exactly, the extent within
/// [`GEOMETRY_TOLERANCE`] pixels.
pub fn output_matches(monitor: &MonitorInfo, ox: i32, oy: i32, ow: i32, oh: i32) -> (r: bool)
    ensures
        r == (monitor.x == ox && monitor.y == oy
            && -GEOMETRY_TOLERANCE <= monitor.width - ow <= GEOMETRY_TOLERANCE
            && -GEOMETRY_TOLERANCE <= monitor.height - oh <= GEOMETRY_TOLERANCE),
{
    let dw: i64 = (monitor.width as i64) - (ow as i64);
    let dh: i64 = (monitor.height as i64) - (oh as i64);
    monitor.x == ox && monitor.y == oy && -10 <= dw && dw <= 10 && -10 <= dh && dh <= 10
}

/// Order the enumerated displays for presentation: sorted by `(y, x)`
/// ascending.  Fails only when no display was enumerated.
pub fn list_monitors(monitors: Vec<MonitorInfo>) -> (r: Result<
    Vec<MonitorInfo>,
    EnumerationError,
>)
    ensures
        match r {
            Ok(sorted) => {
                &&& monitors@.len() > 0
                &&& sorted@.len() == monitors@.len()
                &&& sorted_by_position(sorted@)
                &&& sorted@.to_multiset() == monitors@.to_multiset()
                &&& forall|ky: int, kx: int| #[trigger] at_position(sorted@, ky, kx)
                    == at_position(monitors@, ky, kx)
            },
            Err(e) => {
                &&& monitors@.len() == 0
                &&& e == EnumerationError::NoDisplays
            },
        },
{
    if monitors.len() == 0 {
        return Err(EnumerationError::NoDisplays);
    }

    let mut sorted: Vec<MonitorInfo> = Vec::new();
    let mut i: usize = 0;
    while i < monitors.len()
        invariant
            0 <= i <= monitors@.len(),
            sorted@.len() == i,
            sorted_by_position(sorted@),
            sorted@.to_multiset() == monitors@.subrange(0, i as int).to_multiset(),
            forall|ky: int, kx: int| #[trigger] at_position(sorted@, ky, kx) == at_position(
                monitors@.subrange(0, i as int),
                ky,
                kx,
            ),
        decreases monitors@.len() - i,
    {
        let m = monitors[i];
        let mut pos: usize = 0;
        while pos < sorted.len() && !strictly_before(&m, &sorted[pos])
            invariant
                0 <= pos <= sorted@.len(),
                forall|j: int| 0 <= j < pos ==> #[trigger] leq_pos(sorted@[j], m),
            decreases sorted@.len() - pos,
        {
            pos += 1;
        }
        let ghost pre = sorted@;
        sorted.insert(pos, m);
        proof {
            pre.insert_ensures(pos as int, m);
            assert forall|a: int, b: int| 0 <= a < b < sorted@.len() implies #[trigger] leq_pos(
                sorted@[a],
                sorted@[b],
            ) by {
                if b < pos {
                    assert(leq_pos(pre[a], pre[b]));
                } else if b == pos {
                    assert(leq_pos(sorted@[a], m));
                } else if a < pos {
                    assert(leq_pos(pre[a], pre[b - 1]));
                } else if a == pos {
                    assert(pos < pre.len());
                    assert(lt_pos(m, pre[pos as int]));
                    if b - 1 > pos {
                        assert(leq_pos(pre[pos as int], pre[b - 1]));
                    }
                    assert(leq_pos(m, pre[b - 1]));
                } else {
                    assert(leq_pos(pre[a - 1], pre[b - 1]));
                }
            }
            lemma_insert_multiset(pre, pos as int, m);
            assert(monitors@.subrange(0, i as int + 1) =~= monitors@.subrange(0, i as int).push(
                monitors@[i as int],
            ));
            assert(sorted@.to_multiset() =~= monitors@.subrange(0, i as int + 1).to_multiset());
            let ghost head = pre.subrange(0, pos as int);
            let ghost tail = pre.subrange(pos as int, pre.len() as int);
            let ghost prefix = monitors@.subrange(0, i as int);
            assert forall|ky: int, kx: int| #[trigger] at_position(sorted@, ky, kx)
                == at_position(monitors@.subrange(0, i as int + 1), ky, kx) by {
                assert(pre =~= head + tail);
                assert(sorted@ =~= head.push(m) + tail);
                lemma_at_position_add(head, tail, ky, kx);
                lemma_at_position_add(head.push(m), tail, ky, kx);
                lemma_at_position_push(head, m, ky, kx);
                lemma_at_position_push(prefix, m, ky, kx);
                assert(at_position(monitors@.subrange(0, i as int + 1), ky, kx) == at_position(
                    prefix.push(m),
                    ky,
                    kx,
                ));
                if m.y == ky && m.x == kx {
                    // every display after the insertion point sits at a
                    // strictly later position, so none shares m's
                    assert forall|j: int| 0 <= j < tail.len() implies !((#[trigger] tail[j]).y
                        == ky && tail[j].x == kx) by {
                        assert(tail[j] == pre[pos + j]);
                        assert(lt_pos(m, pre[pos as int]));
                        if j > 0 {
                            assert(leq_pos(pre[pos as int], pre[pos + j]));
                        }
                        assert(lt_pos(m, pre[pos + j]));
                    }
                    lemma_at_position_none(tail, ky, kx);
                    assert(at_position(sorted@, ky, kx) =~= at_position(pre, ky, kx).push(m));
                } else {
                    assert(at_position(sorted@, ky, kx) =~= at_position(pre, ky, kx));
                }
            }
        }
        i += 1;
    }
    proof {
        assert(monitors@.subrange(0, monitors@.len() as int) =~= monitors@);
    }
    Ok(sorted)
}

/// The strict presentation order, as exec code.
fn strictly_before(a: &MonitorInfo, b: &MonitorInfo) -> (r: bool)
    ensures
        r == lt_pos(*a, *b),
{
    a.y < b.y || (a.y == b.y && a.x < b.x)
}

/// Inserting an element anywhere adds exactly that element to the sequence's
/// multiset.
proof fn lemma_insert_multiset(s: Seq<MonitorInfo>, i: int, a: MonitorInfo)
    requires
        0 <= i <= s.len(),
    ensures
        s.insert(i, a).to_multiset() == s.to_multiset().insert(a),
{
    let pre = s.subrange(0, i);
    let post = s.subrange(i, s.len() as int);
    lemma_multiset_commutative(pre.push(a), post);
    lemma_multiset_commutative(pre, post);
    assert(s =~= pre + post);
    assert(pre.push(a).to_multiset() =~= pre.to_multiset().insert(a));
    assert(s.insert(i, a).to_multiset() =~= s.to_multiset().insert(a));
}

} // verus!
