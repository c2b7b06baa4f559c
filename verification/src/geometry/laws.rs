//! Algebraic laws of spans and dimensions.
use super::dims::dim_view;
use super::span::{gap_view, intersects_view, length_view, max_int, min_int, union_view};
use super::Dir;
use vstd::prelude::*;

verus! {

/// The union of two spans does not depend on their order.
pub proof fn law_union_commutative(a: (i64, i64), b: (i64, i64))
    ensures
        union_view(a, b) == union_view(b, a),
{
}

/// Taking unions in either grouping gives the same span.
pub proof fn law_union_associative(a: (i64, i64), b: (i64, i64), c: (i64, i64))
    ensures
        min_int(union_view(a, b).0, c.0 as int) == min_int(a.0 as int, union_view(b, c).0),
        max_int(union_view(a, b).1, c.1 as int) == max_int(a.1 as int, union_view(b, c).1),
{
}

/// The union covers both spans, and a span is its own union with itself.
pub proof fn law_union_covers(a: (i64, i64), b: (i64, i64))
    ensures
        union_view(a, b).0 <= a.0 && a.1 <= union_view(a, b).1,
        union_view(a, b).0 <= b.0 && b.1 <= union_view(a, b).1,
        union_view(a, a) == (a.0 as int, a.1 as int),
{
}

/// Intersection is symmetric.
pub proof fn law_intersects_symmetric(a: (i64, i64), b: (i64, i64))
    ensures
        intersects_view(a, b) == intersects_view(b, a),
{
}

/// Ordered spans that intersect have no gap between them, and ordered spans that do
/// not intersect have one.
pub proof fn law_gap_iff_disjoint(a: (i64, i64), b: (i64, i64))
    requires
        a.0 <= a.1,
        b.0 <= b.1,
    ensures
        intersects_view(a, b) <==> max_int(0, gap_view(a, b)) == 0,
{
}

/// The gap between two ordered spans is how far the later one starts after the earlier
/// one stops, or 0 where they overlap or touch; it does not depend on their order.
pub proof fn law_min_distance(a: (i64, i64), b: (i64, i64))
    requires
        a.0 <= a.1,
        b.0 <= b.1,
    ensures
        max_int(0, gap_view(a, b)) == max_int(0, max_int(b.0 - a.1, a.0 - b.1)),
        max_int(0, gap_view(a, b)) == max_int(0, gap_view(b, a)),
{
}

/// Translating a span keeps its length.
pub proof fn law_translate_keeps_length(a: (i64, i64), amount: int)
    ensures
        (a.1 + amount) - (a.0 + amount) == length_view(a),
{
}

/// Transposing dimensions swaps the horizontal and the vertical one, so transposing
/// twice gives them back.
pub proof fn law_transpose(d: (i64, i64))
    ensures
        dim_view((d.1, d.0), Dir::Horiz) == dim_view(d, Dir::Vert),
        dim_view((d.1, d.0), Dir::Vert) == dim_view(d, Dir::Horiz),
        ((d.1, d.0).1, (d.1, d.0).0) == d,
{
}

} // verus!
