//! Convex hull of a point set by gift wrapping (Jarvis march).
//!
//! The hull is an ordered sequence of indices into the input, walked in the
//! rotational direction fixed by the orientation predicate, starting and
//! ending at the first point of minimum x-coordinate.

use vstd::prelude::*;
use crate::geometry::{in_coord_range, orientation_of, Orientation, Point};

verus! {

/// Every point of `ps` is within the orientation predicate's coordinate range.
pub open spec fn all_in_coord_range(ps: Seq<Point>) -> bool {
    forall|i: int| 0 <= i < ps.len() ==> in_coord_range(ps[i])
}

/// The candidate for the next hull vertex after the inner scan has examined
/// indices `0 .. i`, starting from seed candidate `cand`: an examined index
/// replaces the candidate exactly when it makes a counter-clockwise turn with
/// the current vertex `cur` and the candidate.
pub open spec fn scan_candidate(ps: Seq<Point>, cur: int, cand: int, i: int) -> int
    decreases i,
{
    if i <= 0 {
        cand
    } else {
        let prev = scan_candidate(ps, cur, cand, i - 1);
        if orientation_of(ps[cur], ps[prev], ps[i - 1]) == Orientation::CounterClockwise {
            i - 1
        } else {
            prev
        }
    }
}

/// The hull vertex that the march appends after `cur`: the survivor of a full
/// scan seeded with the index following `cur`, modulo the point count.
pub open spec fn next_vertex(ps: Seq<Point>, cur: int) -> int {
    scan_candidate(ps, cur, (cur + 1) % (ps.len() as int), ps.len() as int)
}

/// The index of the first point of minimum x-coordinate among `ps[0 .. i]`.
pub open spec fn best_start(ps: Seq<Point>, i: int) -> int
    decreases i,
{
    if i <= 1 {
        0
    } else {
        let b = best_start(ps, i - 1);
        if ps[i - 1].x < ps[b].x {
            i - 1
        } else {
            b
        }
    }
}

/// The starting vertex of the march: the first index of minimum x-coordinate.
pub open spec fn start_index(ps: Seq<Point>) -> int {
    best_start(ps, ps.len() as int)
}

/// Whether `s` is the first index of minimum x-coordinate in `ps`.
pub open spec fn is_start_index(ps: Seq<Point>, s: int) -> bool {
    &&& 0 <= s < ps.len()
    &&& forall|i: int| 0 <= i < ps.len() ==> ps[s].x <= ps[i].x
    &&& forall|i: int| 0 <= i < s ==> ps[s].x < ps[i].x
}

/// The vertex reached after `k` steps of the march from the starting vertex.
pub open spec fn march(ps: Seq<Point>, k: int) -> int
    decreases k,
{
    if k <= 0 {
        start_index(ps)
    } else {
        next_vertex(ps, march(ps, k - 1))
    }
}

/// A degenerate configuration: the march never returns to its starting vertex
/// within `ps.len()` steps (and hence never returns to it at all, since a
/// march that closes cannot repeat a vertex before closing).
pub open spec fn no_closure(ps: Seq<Point>) -> bool {
    forall|k: int| 1 <= k <= ps.len() ==> march(ps, k) != start_index(ps)
}

/// What `find_convex_hull` returns in the successful case: the index sequence
/// that starts at the first minimum-x point, advances by `next_vertex` at
/// every step, closes by repeating the starting index as its final entry, and
/// revisits the starting index nowhere in between.
pub open spec fn is_hull_seq(ps: Seq<Point>, h: Seq<usize>) -> bool {
    &&& h.len() >= 2
    &&& (forall|k: int| 0 <= k < h.len() ==> h[k] < ps.len())
    &&& h[0] as int == start_index(ps)
    &&& (forall|k: int| 0 <= k < h.len() - 1 ==> h[k + 1] as int == next_vertex(ps, h[k] as int))
    &&& h[h.len() - 1] == h[0]
    &&& (forall|k: int| 0 < k < h.len() - 1 ==> #[trigger] h[k] != h[0])
}

/// Compute the convex hull of `points` as an ordered sequence of indices.
///
/// Fewer than three points have no hull. On a degenerate configuration whose
/// march never closes, the march is cut off after `points.len()` steps and no
/// hull is produced either; every closing march closes within that many
/// steps, so every hull that exists is found.
///
/// A fully collinear set (duplicates included) is degenerate but does close:
/// no scan ever replaces its seed candidate, so the march walks the index
/// cycle once and returns the flat polygon visiting every index.
pub fn find_convex_hull(points: &Vec<Point>) -> (r: Option<Vec<usize>>)
    requires
        all_in_coord_range(points@),
    ensures
        match r {
            Some(h) => {
                &&& points@.len() >= 3
                &&& is_hull_seq(points@, h@)
                &&& is_start_index(points@, h@[0] as int)
            },
            None => points@.len() < 3 || no_closure(points@),
        },
{
    let n = points.len();
    if n < 3 {
        return None;
    }

    let mut start: usize = 0;
    let mut i: usize = 1;
    while i < n
        invariant
            1 <= i <= n,
            n == points@.len(),
            start < i,
            start as int == best_start(points@, i as int),
        decreases n - i,
    {
        if points[i].x < points[start].x {
            start = i;
        }
        i = i + 1;
    }
    proof {
        lemma_best_start_is_first_min(points@, n as int);
    }

    let mut hull: Vec<usize> = Vec::new();
    hull.push(start);
    let mut closed = false;
    while !closed && hull.len() <= n
        invariant
            n == points@.len(),
            3 <= n,
            all_in_coord_range(points@),
            start < n,
            start as int == start_index(points@),
            1 <= hull@.len() <= n + 1,
            hull@[0] == start,
            forall|k: int| 0 <= k < hull@.len() ==> hull@[k] < n,
            forall|k: int| 0 <= k < hull@.len() ==> hull@[k] as int == march(points@, k),
            closed ==> hull@.len() >= 2 && hull@[hull@.len() - 1] == start,
            closed ==> forall|k: int| 0 < k < hull@.len() - 1 ==> hull@[k] != start,
            !closed ==> forall|k: int| 0 < k < hull@.len() ==> hull@[k] != start,
        decreases n + 1 - hull@.len(),
    {
        let cur = hull[hull.len() - 1];
        let mut cand: usize = (cur + 1) % n;
        let ghost seed = cand as int;
        let mut j: usize = 0;
        while j < n
            invariant
                n == points@.len(),
                all_in_coord_range(points@),
                cur < n,
                j <= n,
                cand < n,
                cand as int == scan_candidate(points@, cur as int, seed, j as int),
            decreases n - j,
        {
            let o = Orientation::from_points(points[cur], points[cand], points[j]);
            proof {
                assert(scan_candidate(points@, cur as int, seed, j as int + 1) == (
                if orientation_of(
                    points@[cur as int],
                    points@[scan_candidate(points@, cur as int, seed, j as int)],
                    points@[j as int],
                ) == Orientation::CounterClockwise {
                    j as int
                } else {
                    scan_candidate(points@, cur as int, seed, j as int)
                }));
            }
            if o == Orientation::CounterClockwise {
                cand = j;
            }
            j = j + 1;
        }
        proof {
            assert(cand as int == next_vertex(points@, cur as int));
            let len = hull@.len() as int;
            assert(hull@[len - 1] as int == march(points@, len - 1));
            assert(march(points@, len) == next_vertex(points@, march(points@, len - 1)));
        }
        hull.push(cand);
        if cand == start {
            closed = true;
        }
    }

    if closed {
        proof {
            assert forall|k: int| 0 <= k < hull@.len() - 1 implies hull@[k + 1] as int
                == next_vertex(points@, hull@[k] as int) by {
                assert(hull@[k] as int == march(points@, k));
                assert(hull@[k + 1] as int == march(points@, k + 1));
                assert(march(points@, k + 1) == next_vertex(points@, march(points@, k)));
            }
        }
        Some(hull)
    } else {
        proof {
            assert(hull@.len() == n + 1);
            assert forall|k: int| 1 <= k <= points@.len() implies march(points@, k)
                != start_index(points@) by {
                assert(hull@[k] as int == march(points@, k));
                assert(hull@[k] != start);
            }
        }
        None
    }
}

proof fn lemma_cross_self_zero(p: Point, q: Point)
    by (nonlinear_arith)
    ensures
        crate::geometry::cross_of(p, q, p) == 0,
{
}

proof fn lemma_scan_candidate_ne_cur(ps: Seq<Point>, cur: int, cand: int, i: int)
    requires
        0 <= cur < ps.len(),
        cand != cur,
    ensures
        scan_candidate(ps, cur, cand, i) != cur,
    decreases i,
{
    if i > 0 {
        lemma_scan_candidate_ne_cur(ps, cur, cand, i - 1);
        if i - 1 == cur {
            lemma_cross_self_zero(ps[cur], ps[scan_candidate(ps, cur, cand, i - 1)]);
        }
    }
}

proof fn lemma_next_vertex_ne(ps: Seq<Point>, cur: int)
    requires
        2 <= ps.len(),
        0 <= cur < ps.len(),
    ensures
        next_vertex(ps, cur) != cur,
{
    let len = ps.len() as int;
    let seed = (cur + 1) % len;
    if cur + 1 < len {
        vstd::arithmetic::div_mod::lemma_small_mod((cur + 1) as nat, len as nat);
    } else {
        vstd::arithmetic::div_mod::lemma_mod_self_0(len);
    }
    assert(seed != cur);
    lemma_scan_candidate_ne_cur(ps, cur, seed, len);
}

proof fn lemma_march_step_propagates(ps: Seq<Point>, h: Seq<usize>, a: int, b: int, m: int)
    requires
        forall|k: int| 0 <= k < h.len() - 1 ==> h[k + 1] as int == next_vertex(ps, h[k] as int),
        0 <= a,
        0 <= b,
        0 <= m,
        a + m < h.len(),
        b + m < h.len(),
        h[a] == h[b],
    ensures
        h[a + m] == h[b + m],
    decreases m,
{
    if m > 0 {
        lemma_march_step_propagates(ps, h, a, b, m - 1);
        assert(h[a + m] as int == next_vertex(ps, h[a + m - 1] as int));
        assert(h[b + m] as int == next_vertex(ps, h[b + m - 1] as int));
    }
}

/// The hull index sequence is a closed cycle traversed once: its first and
/// last entries are equal, no two consecutive entries name the same index,
/// and apart from the final closing entry its entries are pairwise distinct.
pub proof fn lemma_hull_closed_and_distinct(ps: Seq<Point>, h: Seq<usize>)
    requires
        is_hull_seq(ps, h),
        ps.len() >= 3,
    ensures
        h[0] == h[h.len() - 1],
        forall|k: int| 0 <= k < h.len() - 1 ==> #[trigger] h[k + 1] != h[k],
        forall|i: int, j: int| 0 <= i < j < h.len() - 1 ==> #[trigger] h[i] != #[trigger] h[j],
{
    assert forall|k: int| 0 <= k < h.len() - 1 implies #[trigger] h[k + 1] != h[k] by {
        lemma_next_vertex_ne(ps, h[k] as int);
    }
    assert forall|i: int, j: int| 0 <= i < j < h.len() - 1 implies #[trigger] h[i] != #[trigger] h[j] by {
        if h[i] == h[j] {
            let m = h.len() - 1 - j;
            lemma_march_step_propagates(ps, h, i, j, m);
            assert(h[i + m] == h[h.len() - 1]);
            assert(h[i + m] != h[0]);
            assert(false);
        }
    }
}

/// At most one hull entry per point, plus the closing entry: the march visits
/// each vertex once, so a hull over `n` points has at most `n + 1` entries.
pub proof fn lemma_hull_len_bound(ps: Seq<Point>, h: Seq<usize>)
    requires
        is_hull_seq(ps, h),
        ps.len() >= 3,
    ensures
        h.len() <= ps.len() + 1,
{
    lemma_hull_closed_and_distinct(ps, h);
    let g = h.subrange(0, h.len() - 1);
    let f = |x: usize| x as int;
    let gi = g.map_values(f);
    assert(g.no_duplicates());
    assert(vstd::relations::injective(f)) by {
        assert forall|a: usize, b: usize| #[trigger] f(a) == #[trigger] f(b) implies a == b by {}
    }
    g.lemma_no_duplicates_injective(f);
    gi.unique_seq_to_set();
    let range = vstd::set_lib::set_int_range(0, ps.len() as int);
    vstd::set_lib::lemma_int_range(0, ps.len() as int);
    assert(gi.to_set().subset_of(range)) by {
        assert forall|v: int| gi.to_set().contains(v) implies range.contains(v) by {
            let k = choose|k: int| 0 <= k < gi.len() && gi[k] == v;
            assert(gi[k] == f(g[k]));
        }
    }
    vstd::set_lib::lemma_len_subset(gi.to_set(), range);
}

proof fn lemma_hull_entry_is_march(ps: Seq<Point>, h: Seq<usize>, k: int)
    requires
        is_hull_seq(ps, h),
        0 <= k < h.len(),
    ensures
        h[k] as int == march(ps, k),
    decreases k,
{
    if k > 0 {
        lemma_hull_entry_is_march(ps, h, k - 1);
        assert(h[k] as int == next_vertex(ps, h[k - 1] as int));
    }
}

proof fn lemma_hull_len_determined(ps: Seq<Point>, h1: Seq<usize>, h2: Seq<usize>)
    requires
        is_hull_seq(ps, h1),
        is_hull_seq(ps, h2),
        h1.len() <= h2.len(),
    ensures
        h1.len() == h2.len(),
{
    if h1.len() < h2.len() {
        let t = h1.len() - 1;
        lemma_hull_entry_is_march(ps, h1, t);
        lemma_hull_entry_is_march(ps, h2, t);
        assert(h2[t] == h2[0]);
        assert(0 < t < h2.len() - 1);
        assert(false);
    }
}

/// The hull is fully deterministic: over one point set, only one index
/// sequence satisfies the hull characterization.
pub proof fn lemma_hull_unique(ps: Seq<Point>, h1: Seq<usize>, h2: Seq<usize>)
    requires
        is_hull_seq(ps, h1),
        is_hull_seq(ps, h2),
    ensures
        h1 == h2,
{
    if h1.len() <= h2.len() {
        lemma_hull_len_determined(ps, h1, h2);
    } else {
        lemma_hull_len_determined(ps, h2, h1);
    }
    assert forall|k: int| 0 <= k < h1.len() implies h1[k] == h2[k] by {
        lemma_hull_entry_is_march(ps, h1, k);
        lemma_hull_entry_is_march(ps, h2, k);
    }
    assert(h1 =~= h2);
}

proof fn lemma_best_start_is_first_min(ps: Seq<Point>, i: int)
    requires
        1 <= i <= ps.len(),
    ensures
        0 <= best_start(ps, i) < i,
        forall|k: int| 0 <= k < i ==> ps[best_start(ps, i)].x <= #[trigger] ps[k].x,
        forall|k: int| 0 <= k < best_start(ps, i) ==> ps[best_start(ps, i)].x < #[trigger] ps[k].x,
    decreases i,
{
    if i > 1 {
        lemma_best_start_is_first_min(ps, i - 1);
    }
}

} // verus!
