//! Screen coordinates and the bounding-rectangle union used to compute the
//! region of the display that has to be re-transmitted.

use vstd::prelude::*;

verus! {

/// A point on the drawing surface.
#[derive(Clone, Copy, Debug, PartialEq, Eq, Structural)]
pub struct Point {
    pub x: i32,
    pub y: i32,
}

/// The extent of an axis-aligned rectangle.
#[derive(Clone, Copy, Debug, PartialEq, Eq, Structural)]
pub struct Size {
    pub width: u32,
    pub height: u32,
}

impl Point {
    pub fn new(x: i32, y: i32) -> (r: Point)
        ensures
            r == (Point { x, y }),
    {
        Point { x, y }
    }
}

impl Size {
    pub fn new(width: u32, height: u32) -> (r: Size)
        ensures
            r == (Size { width, height }),
    {
        Size { width, height }
    }
}

/// A rectangle covers nothing when one of its sides is zero.
pub open spec fn is_blank(s: Size) -> bool {
    s.width == 0 || s.height == 0
}

/// The right edge (exclusive) of a rectangle.
pub open spec fn far_x(r: (Point, Size)) -> int {
    r.0.x + r.1.width
}

/// The bottom edge (exclusive) of a rectangle.
pub open spec fn far_y(r: (Point, Size)) -> int {
    r.0.y + r.1.height
}

/// The far corner of the rectangle is itself a point of the surface.
pub open spec fn fits(r: (Point, Size)) -> bool {
    far_x(r) <= i32::MAX && far_y(r) <= i32::MAX
}

/// The rectangle that covers nothing: maximal origin, zero size.
pub open spec fn empty_rect() -> (Point, Size) {
    (Point { x: i32::MAX, y: i32::MAX }, Size { width: 0, height: 0 })
}

pub open spec fn min_i(a: int, b: int) -> int {
    if a <= b { a } else { b }
}

pub open spec fn max_i(a: int, b: int) -> int {
    if a >= b { a } else { b }
}

/// The smallest rectangle that covers both arguments; blank rectangles
/// contribute nothing, and the union of two blank ones is `empty_rect()`.
pub open spec fn rect_union(a: (Point, Size), b: (Point, Size)) -> (Point, Size) {
    if is_blank(a.1) && is_blank(b.1) {
        empty_rect()
    } else if is_blank(a.1) {
        b
    } else if is_blank(b.1) {
        a
    } else {
        let x = min_i(a.0.x as int, b.0.x as int);
        let y = min_i(a.0.y as int, b.0.y as int);
        (
            Point { x: x as i32, y: y as i32 },
            Size {
                width: (max_i(far_x(a), far_x(b)) - x) as u32,
                height: (max_i(far_y(a), far_y(b)) - y) as u32,
            },
        )
    }
}

/// The union of a sequence of rectangles, taken from the first to the last.
pub open spec fn cover(rs: Seq<(Point, Size)>) -> (Point, Size)
    decreases rs.len(),
{
    if rs.len() == 0 {
        empty_rect()
    } else {
        rect_union(cover(rs.drop_last()), rs.last())
    }
}

pub open spec fn all_fit(rs: Seq<(Point, Size)>) -> bool {
    forall|i: int| 0 <= i < rs.len() ==> fits(#[trigger] rs[i])
}

/// The union of two fitting rectangles fits, and is blank only when both are.
pub proof fn lemma_union_fits(a: (Point, Size), b: (Point, Size))
    requires
        fits(a),
        fits(b),
    ensures
        fits(rect_union(a, b)),
        is_blank(rect_union(a, b).1) <==> (is_blank(a.1) && is_blank(b.1)),
        !is_blank(a.1) && !is_blank(b.1) ==> far_x(rect_union(a, b)) == max_i(far_x(a), far_x(b))
            && far_y(rect_union(a, b)) == max_i(far_y(a), far_y(b)),
{
}

/// Union of rectangles does not depend on the order of its arguments.
pub proof fn lemma_union_commutative(a: (Point, Size), b: (Point, Size))
    ensures
        rect_union(a, b) == rect_union(b, a),
{
}

/// Union of rectangles does not depend on how it is grouped.
pub proof fn lemma_union_associative(a: (Point, Size), b: (Point, Size), c: (Point, Size))
    requires
        fits(a),
        fits(b),
        fits(c),
    ensures
        rect_union(rect_union(a, b), c) == rect_union(a, rect_union(b, c)),
{
    lemma_union_fits(a, b);
    lemma_union_fits(b, c);
}

/// The union of fitting rectangles fits.
pub proof fn lemma_cover_fits(rs: Seq<(Point, Size)>)
    requires
        all_fit(rs),
    ensures
        fits(cover(rs)),
    decreases rs.len(),
{
    if rs.len() > 0 {
        lemma_cover_fits(rs.drop_last());
        lemma_union_fits(cover(rs.drop_last()), rs.last());
    }
}

/// Taking any one rectangle out of the sequence and adding it last gives the
/// same cover.
pub proof fn lemma_cover_pull(rs: Seq<(Point, Size)>, i: int)
    requires
        all_fit(rs),
        0 <= i < rs.len(),
    ensures
        cover(rs) == rect_union(cover(rs.remove(i)), rs[i]),
    decreases rs.len(),
{
    if i < rs.len() - 1 {
        let init = rs.drop_last();
        lemma_cover_pull(init, i);
        assert(init.remove(i) =~= rs.remove(i).drop_last());
        lemma_cover_fits(init.remove(i));
        lemma_union_associative(cover(init.remove(i)), rs[i], rs.last());
        lemma_union_commutative(rs[i], rs.last());
        lemma_union_associative(cover(init.remove(i)), rs.last(), rs[i]);
    } else {
        assert(rs.remove(i) =~= rs.drop_last());
    }
}

/// Rendering rectangles in any order yields the same bounding rectangle:
/// the cover of a sequence depends only on the multiset of its elements.
pub proof fn lemma_cover_order_independent(rs: Seq<(Point, Size)>, ts: Seq<(Point, Size)>)
    requires
        all_fit(rs),
        rs.to_multiset() == ts.to_multiset(),
    ensures
        cover(rs) == cover(ts),
    decreases rs.len(),
{
    broadcast use vstd::seq_lib::group_to_multiset_ensures;

    rs.to_multiset_ensures();
    ts.to_multiset_ensures();
    assert(rs.len() == ts.len());
    if rs.len() > 0 {
        let last = rs.last();
        assert(rs.contains(last)) by {
            assert(rs[rs.len() - 1] == last);
        }
        assert(ts.to_multiset().count(last) > 0);
        assert(ts.contains(last));
        let j = choose|j: int| 0 <= j < ts.len() && ts[j] == last;
        assert(all_fit(ts)) by {
            assert forall|k: int| 0 <= k < ts.len() implies fits(#[trigger] ts[k]) by {
                assert(ts.to_multiset().count(ts[k]) > 0) by {
                    assert(ts.contains(ts[k]));
                }
                assert(rs.contains(ts[k]));
            }
        }
        let init = rs.drop_last();
        assert(init =~= rs.remove(rs.len() - 1));
        assert(init.to_multiset() == ts.remove(j).to_multiset());
        lemma_cover_order_independent(init, ts.remove(j));
        lemma_cover_pull(ts, j);
    }
}

/// The cover of two sequences one after the other is the union of their
/// covers.
pub proof fn lemma_cover_append(a: Seq<(Point, Size)>, b: Seq<(Point, Size)>)
    requires
        all_fit(a),
        all_fit(b),
    ensures
        cover(a + b) == rect_union(cover(a), cover(b)),
    decreases b.len(),
{
    lemma_cover_fits(a);
    if b.len() == 0 {
        assert(a + b =~= a);
        lemma_cover_normal(a);
    } else {
        let b0 = b.drop_last();
        assert((a + b).drop_last() =~= a + b0);
        assert((a + b).last() == b.last());
        lemma_cover_append(a, b0);
        lemma_cover_fits(b0);
        lemma_union_associative(cover(a), cover(b0), b.last());
    }
}

/// A cover of fitting rectangles fits, and is either `empty_rect()` or not
/// blank.
pub proof fn lemma_cover_normal(rs: Seq<(Point, Size)>)
    requires
        all_fit(rs),
    ensures
        fits(cover(rs)),
        cover(rs) == empty_rect() || !is_blank(cover(rs).1),
    decreases rs.len(),
{
    if rs.len() > 0 {
        lemma_cover_normal(rs.drop_last());
        lemma_union_fits(cover(rs.drop_last()), rs.last());
    }
}

/// A cover is blank exactly when every rectangle in it is.
pub proof fn lemma_cover_blank(rs: Seq<(Point, Size)>)
    requires
        all_fit(rs),
    ensures
        is_blank(cover(rs).1) <==> forall|i: int| 0 <= i < rs.len() ==> is_blank((#[trigger] rs[i]).1),
        is_blank(cover(rs).1) ==> cover(rs) == empty_rect(),
    decreases rs.len(),
{
    lemma_cover_normal(rs);
    if rs.len() > 0 {
        let init = rs.drop_last();
        lemma_cover_blank(init);
        lemma_cover_fits(init);
        lemma_union_fits(cover(init), rs.last());
        if !is_blank(cover(rs).1) {
            if is_blank(cover(init).1) {
                assert(!is_blank(rs[rs.len() - 1].1));
            } else {
                let j = choose|j: int| 0 <= j < init.len() && !is_blank((#[trigger] init[j]).1);
                assert(rs[j] == init[j]);
            }
        } else {
            assert forall|i: int| 0 <= i < rs.len() implies is_blank((#[trigger] rs[i]).1) by {
                if i < rs.len() - 1 {
                    assert(rs[i] == init[i]);
                }
            }
        }
    }
}

/// Every non-blank rectangle of the sequence lies inside its cover.
pub open spec fn cover_contains_all(rs: Seq<(Point, Size)>, c: (Point, Size)) -> bool {
    forall|i: int|
        0 <= i < rs.len() && !is_blank(rs[i].1) ==> {
            &&& c.0.x <= (#[trigger] rs[i]).0.x
            &&& c.0.y <= rs[i].0.y
            &&& far_x(rs[i]) <= far_x(c)
            &&& far_y(rs[i]) <= far_y(c)
        }
}

/// Each edge of `c` is an edge of some non-blank rectangle of the sequence.
pub open spec fn cover_edges_attained(rs: Seq<(Point, Size)>, c: (Point, Size)) -> bool {
    &&& exists|i: int| 0 <= i < rs.len() && !is_blank(rs[i].1) && (#[trigger] rs[i]).0.x == c.0.x
    &&& exists|i: int| 0 <= i < rs.len() && !is_blank(rs[i].1) && (#[trigger] rs[i]).0.y == c.0.y
    &&& exists|i: int| 0 <= i < rs.len() && !is_blank(rs[i].1) && far_x(#[trigger] rs[i]) == far_x(c)
    &&& exists|i: int| 0 <= i < rs.len() && !is_blank(rs[i].1) && far_y(#[trigger] rs[i]) == far_y(c)
}

/// A cover that is not blank is the smallest rectangle holding every
/// non-blank rectangle of the sequence: its left and top edges are the least
/// of theirs, its right and bottom edges the greatest.
pub proof fn lemma_cover_bounds(rs: Seq<(Point, Size)>)
    requires
        all_fit(rs),
        !is_blank(cover(rs).1),
    ensures
        cover_contains_all(rs, cover(rs)),
        cover_edges_attained(rs, cover(rs)),
    decreases rs.len(),
{
    let init = rs.drop_last();
    let last = rs.last();
    let n = rs.len() - 1;
    let c = cover(rs);
    let ci = cover(init);
    assert(rs[n] == last);
    assert(forall|i: int| 0 <= i < init.len() ==> #[trigger] init[i] == rs[i]);
    lemma_cover_blank(init);
    lemma_cover_fits(init);
    lemma_union_fits(ci, last);
    if is_blank(ci.1) {
        assert forall|i: int| 0 <= i < rs.len() && !is_blank(rs[i].1) implies i == n by {
            if i < n {
                assert(is_blank(init[i].1));
            }
        }
        assert(c == last);
    } else {
        lemma_cover_bounds(init);
        let ix = choose|i: int| 0 <= i < init.len() && !is_blank(init[i].1) && (#[trigger] init[i]).0.x == ci.0.x;
        let iy = choose|i: int| 0 <= i < init.len() && !is_blank(init[i].1) && (#[trigger] init[i]).0.y == ci.0.y;
        let jx = choose|i: int| 0 <= i < init.len() && !is_blank(init[i].1) && far_x(#[trigger] init[i]) == far_x(ci);
        let jy = choose|i: int| 0 <= i < init.len() && !is_blank(init[i].1) && far_y(#[trigger] init[i]) == far_y(ci);
        assert(rs[ix] == init[ix] && rs[iy] == init[iy] && rs[jx] == init[jx] && rs[jy] == init[jy]);
        assert forall|i: int| 0 <= i < rs.len() && !is_blank(rs[i].1) implies {
            &&& c.0.x <= (#[trigger] rs[i]).0.x
            &&& c.0.y <= rs[i].0.y
            &&& far_x(rs[i]) <= far_x(c)
            &&& far_y(rs[i]) <= far_y(c)
        } by {
            if i < n {
                assert(init[i] == rs[i]);
            }
        }
        if is_blank(last.1) {
            assert(c == ci);
        } else {
            assert(c.0.x == min_i(ci.0.x as int, last.0.x as int));
            assert(c.0.y == min_i(ci.0.y as int, last.0.y as int));
            if c.0.x == ci.0.x {
                assert(rs[ix].0.x == c.0.x);
            } else {
                assert(rs[n].0.x == c.0.x);
            }
            if c.0.y == ci.0.y {
                assert(rs[iy].0.y == c.0.y);
            } else {
                assert(rs[n].0.y == c.0.y);
            }
            if far_x(c) == far_x(ci) {
                assert(far_x(rs[jx]) == far_x(c));
            } else {
                assert(far_x(rs[n]) == far_x(c));
            }
            if far_y(c) == far_y(ci) {
                assert(far_y(rs[jy]) == far_y(c));
            } else {
                assert(far_y(rs[n]) == far_y(c));
            }
        }
    }
}

/// Grows the rectangle `(pos, size)` to the union of itself and
/// `(cover_pos, cover_size)`.
pub fn extend_rect_to_cover(pos: &mut Point, size: &mut Size, cover_pos: &Point, cover_size: &Size)
    requires
        fits((*old(pos), *old(size))),
        fits((*cover_pos, *cover_size)),
    ensures
        (*final(pos), *final(size)) == rect_union((*old(pos), *old(size)), (*cover_pos, *cover_size)),
        fits((*final(pos), *final(size))),
{
    proof {
        lemma_union_fits((*pos, *size), (*cover_pos, *cover_size));
    }
    let blank_self = size.width == 0 || size.height == 0;
    let blank_cover = cover_size.width == 0 || cover_size.height == 0;
    if blank_self && blank_cover {
        *pos = Point { x: i32::MAX, y: i32::MAX };
        *size = Size { width: 0, height: 0 };
    } else if blank_self {
        *pos = *cover_pos;
        *size = *cover_size;
    } else if !blank_cover {
        let far_x: i64 = if pos.x as i64 + size.width as i64 >= cover_pos.x as i64
            + cover_size.width as i64 {
            pos.x as i64 + size.width as i64
        } else {
            cover_pos.x as i64 + cover_size.width as i64
        };
        let far_y: i64 = if pos.y as i64 + size.height as i64 >= cover_pos.y as i64
            + cover_size.height as i64 {
            pos.y as i64 + size.height as i64
        } else {
            cover_pos.y as i64 + cover_size.height as i64
        };
        if cover_pos.x < pos.x {
            pos.x = cover_pos.x;
        }
        if cover_pos.y < pos.y {
            pos.y = cover_pos.y;
        }
        size.width = (far_x - pos.x as i64) as u32;
        size.height = (far_y - pos.y as i64) as u32;
    }
}

} // verus!
