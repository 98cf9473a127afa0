use vstd::prelude::*;
use crate::sequence::{rotate_vec, rotated};

verus! {

/// An index below twice the length wraps at most once.
pub proof fn lemma_wrap_once(x: int, m: int)
    requires
        0 < m,
        0 <= x < 2 * m,
    ensures
        x % m == if x < m { x } else { x - m },
{
    if x < m {
        vstd::arithmetic::div_mod::lemma_small_mod(x as nat, m as nat);
    } else {
        vstd::arithmetic::div_mod::lemma_small_mod((x - m) as nat, m as nat);
        vstd::arithmetic::div_mod::lemma_mod_multiples_vanish(1, x - m, m);
    }
}

/// Closed outline through `points`: each point joined to the next,
/// and the last one back to the first.
pub open spec fn outline<P>(points: Seq<P>) -> Seq<(P, P)> {
    Seq::new(points.len(), |i: int| (points[i], points[(i + 1) % (points.len() as int)]))
}

/// Connects `points` in order into a closed outline: `points[i]` to
/// `points[i + 1]`, and the last point to the first.
pub fn connect_points<P: Copy>(points: &Vec<P>) -> (lines: Vec<(P, P)>)
    requires
        points@.len() >= 3,
    ensures
        lines@ == outline(points@),
{
    let len = points.len();
    let mut lines: Vec<(P, P)> = Vec::with_capacity(len);
    let mut i: usize = 0;
    while i < len
        invariant
            len == points@.len(),
            len >= 3,
            i <= len,
            lines@ == outline(points@).take(i as int),
        decreases len - i,
    {
        let next: usize = if i + 1 == len { 0 } else { i + 1 };
        proof {
            lemma_wrap_once(i + 1, len as int);
        }
        lines.push((points[i], points[next]));
        i += 1;
        proof {
            assert(lines@ =~= outline(points@).take(i as int));
        }
    }
    proof {
        assert(lines@ =~= outline(points@));
    }
    lines
}

/// The crossing points of an `n`-sided construction in the order the faces
/// are read from them: as sorted when `n` is odd, moved one place on
/// (last to front) when `n` is even.
pub open spec fn arranged<P>(n: nat, points: Seq<P>) -> Seq<P> {
    if n % 2 == 0 {
        rotated(points)
    } else {
        points
    }
}

/// Accepts the sorted crossing points of an `n`-sided construction only when
/// there are exactly `2 * n` of them, and brings them into face order.
/// `None` marks a degenerate configuration.
pub fn arrange_intersections<P>(n: u32, points: Vec<P>) -> (r: Option<Vec<P>>)
    requires
        n > 0,
    ensures
        r is Some <==> points@.len() == 2 * n,
        r matches Some(v) ==> v@ == arranged(n as nat, points@),
{
    let mut points = points;
    if points.len() as u64 != 2 * (n as u64) {
        return None;
    }
    if n % 2 == 0 {
        rotate_vec(&mut points);
    }
    Some(points)
}

/// The diagonal guides: from every other point `2k` to the point three
/// places further on, wrapping around.
pub open spec fn guides<P>(points: Seq<P>) -> Seq<(P, P)> {
    let m = points.len() as int;
    Seq::new(((m + 1) / 2) as nat, |k: int| (points[2 * k], points[(2 * k + 3) % m]))
}

/// Pairs `points[2k]` with `points[(2k + 3) % len]` for every even position.
pub fn guide_chords<P: Copy>(points: &Vec<P>) -> (r: Vec<(P, P)>)
    requires
        points@.len() >= 3,
    ensures
        r@ == guides(points@),
{
    let m = points.len();
    let count: usize = m / 2 + m % 2;
    let mut r: Vec<(P, P)> = Vec::new();
    let mut k: usize = 0;
    while k < count
        invariant
            m == points@.len(),
            m >= 3,
            count == (m + 1) / 2,
            k <= count,
            r@ == guides(points@).take(k as int),
        decreases count - k,
    {
        let index: usize = 2 * k;
        let rest: usize = m - index;
        let next_index: usize = if rest > 3 { index + 3 } else { 3 - rest };
        proof {
            lemma_wrap_once(index + 3, m as int);
        }
        r.push((points[index], points[next_index]));
        k += 1;
        proof {
            assert(r@ =~= guides(points@).take(k as int));
        }
    }
    proof {
        assert(r@ =~= guides(points@));
    }
    r
}

/// Consecutive pairs `(s[2k], s[2k + 1])` of a sequence of even length.
pub open spec fn pairs<P>(s: Seq<P>) -> Seq<(P, P)> {
    Seq::new(s.len() / 2, |k: int| (s[2 * k], s[2 * k + 1]))
}

/// The chords that the offset lines run parallel to: the crossing points
/// moved one place on (last to front), then taken two by two.
pub fn offset_chords<P: Copy>(points: &Vec<P>) -> (r: Vec<(P, P)>)
    requires
        points@.len() > 0,
        points@.len() % 2 == 0,
    ensures
        r@ == pairs(rotated(points@)),
{
    let m = points.len();
    let mut shifted: Vec<P> = Vec::with_capacity(m);
    let mut i: usize = 0;
    while i < m
        invariant
            m == points@.len(),
            i <= m,
            shifted@ == points@.take(i as int),
        decreases m - i,
    {
        shifted.push(points[i]);
        i += 1;
        proof {
            assert(shifted@ =~= points@.take(i as int));
        }
    }
    proof {
        assert(shifted@ =~= points@);
    }
    rotate_vec(&mut shifted);
    let ghost s = rotated(points@);
    let mut r: Vec<(P, P)> = Vec::new();
    let mut k: usize = 0;
    while k < m / 2
        invariant
            m == points@.len(),
            m % 2 == 0,
            shifted@ == s,
            s.len() == m,
            k <= m / 2,
            r@ == pairs(s).take(k as int),
        decreases m / 2 - k,
    {
        r.push((shifted[2 * k], shifted[2 * k + 1]));
        k += 1;
        proof {
            assert(r@ =~= pairs(s).take(k as int));
        }
    }
    proof {
        assert(r@ =~= pairs(s));
    }
    r
}

/// The values held by the `Some` entries of `outs`, in order.
pub open spec fn somes<R>(outs: Seq<Option<R>>) -> Seq<R>
    decreases outs.len(),
{
    if outs.len() == 0 {
        Seq::empty()
    } else {
        let rest = somes(outs.drop_last());
        match outs.last() {
            Some(v) => rest.push(v),
            None => rest,
        }
    }
}

/// The hits of a grid of outcomes, read row by row.
pub open spec fn hits<R>(grid: Seq<Seq<Option<R>>>) -> Seq<R>
    decreases grid.len(),
{
    if grid.len() == 0 {
        Seq::empty()
    } else {
        hits(grid.drop_last()) + somes(grid.last())
    }
}

/// Tests every `xs[i]` against every `ys[j]`, row by row (`i` outer, `j`
/// inner), and keeps the values that `hit` finds. Two elements of the same
/// vector are never tested against each other.
pub fn pairwise_hits<A: Copy, B: Copy, R, F: Fn(A, B) -> Option<R>>(
    xs: &Vec<A>,
    ys: &Vec<B>,
    hit: &F,
) -> (r: Vec<R>)
    requires
        forall|a: A, b: B| call_requires(*hit, (a, b)),
    ensures
        exists|grid: Seq<Seq<Option<R>>>|
            {
                &&& grid.len() == xs@.len()
                &&& forall|i: int| 0 <= i < xs@.len() ==> (#[trigger] grid[i]).len() == ys@.len()
                &&& forall|i: int, j: int|
                    0 <= i < xs@.len() && 0 <= j < ys@.len() ==> call_ensures(
                        *hit,
                        (xs@[i], ys@[j]),
                        #[trigger] grid[i][j],
                    )
                &&& r@ == hits(grid)
            },
{
    let mut r: Vec<R> = Vec::new();
    let ghost mut grid: Seq<Seq<Option<R>>> = Seq::empty();
    let mut i: usize = 0;
    while i < xs.len()
        invariant
            forall|a: A, b: B| call_requires(*hit, (a, b)),
            i <= xs@.len(),
            grid.len() == i,
            forall|k: int| 0 <= k < i ==> (#[trigger] grid[k]).len() == ys@.len(),
            forall|k: int, j: int|
                0 <= k < i && 0 <= j < ys@.len() ==> call_ensures(
                    *hit,
                    (xs@[k], ys@[j]),
                    #[trigger] grid[k][j],
                ),
            r@ == hits(grid),
        decreases xs@.len() - i,
    {
        let ghost mut row: Seq<Option<R>> = Seq::empty();
        let ghost before = r@;
        let mut j: usize = 0;
        while j < ys.len()
            invariant
                forall|a: A, b: B| call_requires(*hit, (a, b)),
                i < xs@.len(),
                j <= ys@.len(),
                row.len() == j,
                forall|l: int| 0 <= l < j ==> call_ensures(*hit, (xs@[i as int], ys@[l]), #[trigger] row[l]),
                r@ == before + somes(row),
            decreases ys@.len() - j,
        {
            let out = hit(xs[i], ys[j]);
            proof {
                let next = row.push(out);
                assert(next.drop_last() =~= row);
                row = next;
            }
            match out {
                Some(v) => {
                    r.push(v);
                },
                None => {},
            }
            proof {
                assert(r@ =~= before + somes(row));
            }
            j += 1;
        }
        proof {
            let next = grid.push(row);
            assert(next.drop_last() =~= grid);
            grid = next;
        }
        i += 1;
    }
    r
}

} // verus!
