use substrate::geometry::dims::Dims;
use substrate::geometry::span::Span;
use substrate::geometry::{snap_to_grid, Dir, Point, Rect, Sign};

#[test]
fn span_new_orders_endpoints() {
    let s = Span::new(10, -4);
    assert_eq!((s.start(), s.stop()), (-4, 10));
    assert_eq!(s.length(), 14);
    assert_eq!(s.center(), 3);
}

#[test]
fn span_union_and_contains() {
    let a = Span::new(0, 10);
    let b = Span::new(5, 20);
    let u = a.union(b);
    assert_eq!((u.start(), u.stop()), (0, 20));
    assert_eq!(a.union(b), b.union(a));
    assert!(u.contains(a));
    assert!(!a.contains(b));
    assert!(a.contains(Span::new(2, 3)));
    assert!(a.intersects(&b));
    assert!(b.intersects(&a));
    assert!(!a.intersects(&Span::new(11, 12)));
    assert!(a.intersects(&Span::new(10, 12)));
}

#[test]
fn span_min_distance() {
    let a = Span::new(0, 10);
    assert_eq!(a.min_distance(Span::new(15, 20)), 5);
    assert_eq!(a.min_distance(Span::new(5, 20)), 0);
    assert_eq!(Span::new(15, 20).min_distance(a), 5);
    assert_eq!(Span::new(0, 2).min_distance(Span::new(5, 9)), 3);
    assert_eq!(Span::new(0, 5).min_distance(Span::new(3, 8)), 0);
}

#[test]
fn span_shrink_expand_translate() {
    let a = Span::new(0, 10);
    let s = a.shrink_all(2);
    assert_eq!((s.start(), s.stop()), (2, 8));
    let e = s.expand_all(2);
    assert_eq!(e, a);
    let t = a.translate(-3);
    assert_eq!((t.start(), t.stop()), (-3, 7));
    assert_eq!(t.length(), a.length());
    let p = a.shrink(Sign::Pos, 4);
    assert_eq!((p.start(), p.stop()), (0, 6));
    let n = a.shrink(Sign::Neg, 4);
    assert_eq!((n.start(), n.stop()), (4, 10));
    let x = a.add_point(-5);
    assert_eq!((x.start(), x.stop()), (-5, 10));
}

#[test]
fn span_constructors() {
    let a = Span::with_start_and_length(3, 4);
    assert_eq!((a.start(), a.stop()), (3, 7));
    let b = Span::with_stop_and_length(3, 4);
    assert_eq!((b.start(), b.stop()), (-1, 3));
    let c = Span::from_center_span(10, 6);
    assert_eq!((c.start(), c.stop()), (7, 13));
    let d = Span::from_point(5);
    assert_eq!((d.start(), d.stop()), (5, 5));
    assert_eq!(Span::until(8).stop(), 8);
    assert_eq!(a.point(Sign::Neg), 3);
    assert_eq!(a.point(Sign::Pos), 7);
    assert_eq!(a.distance_to(10), 3);
    assert_eq!(a.distance_to(5), 2);
    assert_eq!(Span::from_tuple((4, 1)).into_tuple(), (1, 4));
}

#[test]
fn span_merge() {
    let m = Span::merge(vec![Span::new(3, 4), Span::new(-2, 0), Span::new(7, 9)]);
    assert_eq!((m.start(), m.stop()), (-2, 9));
}

#[test]
fn span_merge_adjacent() {
    let spans = vec![Span::new(10, 12), Span::new(0, 2), Span::new(2, 5), Span::new(11, 20)];
    let merged = Span::merge_adjacent(spans, |a: Span, b: Span| a.intersects(&b));
    assert_eq!(merged.len(), 2);
    assert_eq!((merged[0].start(), merged[0].stop()), (0, 5));
    assert_eq!((merged[1].start(), merged[1].stop()), (10, 20));
}

#[test]
fn dims_directions() {
    let d = Dims::new(3, 7);
    assert_eq!(d.dim(Dir::Horiz), 3);
    assert_eq!(d.dim(Dir::Vert), 7);
    assert_eq!(d.longer_dir(), Dir::Vert);
    assert_eq!(Dims::square(2).longer_dir(), Dir::Horiz);
    assert_eq!(Dims::square(2).longer_dir_strict(), None);
    assert_eq!(d.longer_dir_strict(), Some(Dir::Vert));
    let t = d.transpose();
    assert_eq!((t.w(), t.h()), (7, 3));
    assert_eq!(t.transpose(), d);
    assert_eq!((d.width(), d.height()), (3, 7));
}

#[test]
fn dims_arithmetic_and_conversions() {
    let d = Dims::new(3, 7);
    let s = d.plus(Dims::new(1, 1)).minus(Dims::new(2, 3)).scale(2);
    assert_eq!((s.w(), s.h()), (4, 10));
    let e = d.scale_each((2, 3));
    assert_eq!((e.w(), e.h()), (6, 21));
    let r = d.into_rect();
    assert_eq!((r.left(), r.bot(), r.right(), r.top()), (0, 0, 3, 7));
    let p = d.into_point();
    assert_eq!(p, Point::new(3, 7));
}

#[test]
fn rect_and_grid() {
    let r = Rect::from_sides(-1, 2, 5, 9);
    assert_eq!(r.width(), 6);
    assert_eq!(r.height(), 7);
    assert_eq!(r.lower_left(), Point::new(-1, 2));
    assert_eq!(snap_to_grid(7, 5), 5);
    assert_eq!(snap_to_grid(8, 5), 10);
    assert_eq!(snap_to_grid(-7, 5), -5);
    assert_eq!(snap_to_grid(-8, 5), -10);
    assert_eq!(Dir::Horiz.other(), Dir::Vert);
}

#[test]
fn merge_adjacent_orders_and_covers() {
    let spans = vec![Span::new(8, 9), Span::new(0, 2), Span::new(1, 4), Span::new(5, 6)];
    let merged = Span::merge_adjacent(spans.clone(), |a, b| a.intersects(&b));
    let got: Vec<(i64, i64)> = merged.iter().map(|s| (s.start(), s.stop())).collect();
    assert_eq!(got, vec![(0, 4), (5, 6), (8, 9)]);
    for s in &spans {
        assert!(merged.iter().any(|m| m.start() <= s.start() && s.stop() <= m.stop()));
    }
    let none = Span::merge_adjacent(spans, |_, _| false);
    let got: Vec<(i64, i64)> = none.iter().map(|s| (s.start(), s.stop())).collect();
    assert_eq!(got, vec![(0, 2), (1, 4), (5, 6), (8, 9)]);
    assert!(Span::merge_adjacent(vec![], |_, _| true).is_empty());
}
