use vstd::prelude::*;
use crate::construction::lemma_wrap_once;

verus! {

/// Where one vertex of a face comes from. Crossing points are indexed in face
/// order, offset lines in the order the offset chords were taken.
#[derive(Clone, Copy, Debug, PartialEq, Eq)]
pub enum FaceVertex {
    /// The crossing point itself.
    Corner(usize),
    /// The point where the chord from crossing point `from` to crossing point
    /// `to` meets offset line `offset`; the chord must contain it.
    ChordCut { from: usize, to: usize, offset: usize },
    /// The point where offset line `line` meets offset line `other`; `line`
    /// must contain it.
    Crossing { line: usize, other: usize },
}

/// The vertices of face `e` of an `n`-sided construction, whose `2 * n`
/// crossing points and `n` offset lines are both read cyclically. The
/// crossing of the two offset lines appears twice in a row.
pub open spec fn face_outline(n: int, e: int) -> Seq<FaceVertex> {
    let m = 2 * n;
    seq![
        FaceVertex::Corner((2 * e) as usize),
        FaceVertex::Corner((2 * e + 1) as usize),
        FaceVertex::Corner(((2 * e + 2) % m) as usize),
        FaceVertex::ChordCut {
            from: ((2 * e + 2) % m) as usize,
            to: ((2 * e + 5) % m) as usize,
            offset: ((e + 3) % n) as usize,
        },
        FaceVertex::Crossing { line: ((e + 3) % n) as usize, other: ((e + 2) % n) as usize },
        FaceVertex::Crossing { line: ((e + 3) % n) as usize, other: ((e + 2) % n) as usize },
        FaceVertex::ChordCut {
            from: ((2 * e) % m) as usize,
            to: ((2 * e + 3) % m) as usize,
            offset: ((e + 2) % n) as usize,
        },
    ]
}

/// `(i + d) % m` for `i < m` and `d <= m`, without leaving `usize`.
fn wrap_add(i: usize, d: usize, m: usize) -> (r: usize)
    requires
        i < m,
        d <= m,
    ensures
        r as int == (i + d) % (m as int),
        r < m,
{
    proof {
        lemma_wrap_once(i + d, m as int);
    }
    let rest: usize = m - i;
    if d < rest {
        i + d
    } else {
        d - rest
    }
}

/// The seven vertices of face `e` of an `n`-sided construction, in drawing
/// order: three crossing points, the cut of a chord with offset line
/// `e + 3`, the crossing of offset lines `e + 3` and `e + 2` (twice), and the
/// cut of a chord with offset line `e + 2`.
pub fn face_plan(n: usize, e: usize) -> (r: Vec<FaceVertex>)
    requires
        n >= 3,
        e < n,
        n <= usize::MAX / 2,
    ensures
        r@ == face_outline(n as int, e as int),
{
    let m: usize = 2 * n;
    let first: usize = 2 * e;
    proof {
        lemma_wrap_once(2 * e, m as int);
    }
    let third: usize = wrap_add(first, 2, m);
    let near: usize = wrap_add(e, 3, n);
    let far: usize = wrap_add(e, 2, n);
    let r = vec![
        FaceVertex::Corner(first),
        FaceVertex::Corner(first + 1),
        FaceVertex::Corner(third),
        FaceVertex::ChordCut { from: third, to: wrap_add(first, 5, m), offset: near },
        FaceVertex::Crossing { line: near, other: far },
        FaceVertex::Crossing { line: near, other: far },
        FaceVertex::ChordCut { from: first, to: wrap_add(first, 3, m), offset: far },
    ];
    proof {
        assert(r@ =~= face_outline(n as int, e as int));
    }
    r
}

} // verus!
