use substrate::atoll::abs::{
    div_ceil, div_floor, generate_abstract, port_obstructions, top_layer, top_layer_inner,
    AtollAbstract, CellElement, LayerAbstract, PortOnGrid,
};
use substrate::atoll::{Coordinate, Instance, LayerId, PointState, Pos, RoutingDir, Xy};
use substrate::atoll2::{Cell, Pdk, PdkLayer};
use substrate::geometry::span::Span;
use substrate::geometry::{Dir, Point, Rect};

#[test]
fn point_states() {
    assert!(PointState::Available.is_available_for_net(3));
    assert!(PointState::Routed(3).is_available_for_net(3));
    assert!(!PointState::Routed(4).is_available_for_net(3));
    assert!(!PointState::Obstructed.is_available_for_net(3));
}

#[test]
fn routing_dirs() {
    assert!(RoutingDir::Horiz.supports_dir(Dir::Horiz));
    assert!(!RoutingDir::Horiz.supports_vert());
    assert!(RoutingDir::Vert.supports_vert());
    let any = RoutingDir::Any { track_dir: Dir::Vert };
    assert!(any.supports_horiz() && any.supports_vert());
    assert_eq!(any.track_dir(), Dir::Vert);
    assert_eq!(RoutingDir::Horiz.track_dir(), Dir::Horiz);
}

#[test]
fn positions() {
    let p = Pos::new(2, 10, 20);
    assert_eq!(p.coord(Dir::Horiz), 10);
    assert_eq!(p.coord(Dir::Vert), 20);
    assert_eq!(p.track_coord(Dir::Vert), 10);
    assert_eq!(p.track_coord(Dir::Horiz), 20);
    let q = p.with_coord(Dir::Vert, 5);
    assert_eq!((q.coord(Dir::Horiz), q.coord(Dir::Vert)), (10, 5));
    let t = p.with_track_coord(Dir::Vert, 7);
    assert_eq!((t.coord(Dir::Horiz), t.coord(Dir::Vert)), (7, 20));
    assert_eq!(Pos::new(2, 10, 20), p);
    assert_eq!(LayerId::from(4), LayerId(4));
}

#[test]
fn xy_views() {
    let c = Coordinate { layer: LayerId(0), x: 1, y: 2 };
    assert_eq!(c.xy(), (1, 2));
    assert_eq!(Point::new(3, 4).xy(), (3, 4));
    assert_eq!((5i64, 6i64).xy(), (5, 6));
    assert_eq!((&c).xy(), (1, 2));
}

#[test]
fn floor_and_ceil_division() {
    assert_eq!(div_floor(7, 2), 3);
    assert_eq!(div_floor(-7, 2), -4);
    assert_eq!(div_floor(-8, 2), -4);
    assert_eq!(div_ceil(7, 2), 4);
    assert_eq!(div_ceil(-7, 2), -3);
    assert_eq!(div_ceil(8, 2), 4);
    assert_eq!(div_ceil(0, 3), 0);
    assert_eq!(div_floor(i64::MIN, 1), i64::MIN);
    assert_eq!(div_ceil(i64::MIN, 2), i64::MIN / 2);
    // Negative divisors round the same way.
    assert_eq!(div_floor(7, -2), -4);
    assert_eq!(div_floor(-7, -2), 3);
    assert_eq!(div_ceil(7, -2), -3);
    assert_eq!(div_ceil(-7, -2), 4);
    assert_eq!(div_floor(i64::MIN, -2), 1 << 62);
    assert_eq!(div_floor(i64::MIN, -3), 3074457345618258602);
    assert_eq!(div_ceil(i64::MIN, -3), 3074457345618258603);
    assert_eq!(div_floor(i64::MIN, i64::MIN), 1);
    assert_eq!(div_floor(5, i64::MIN), -1);
    assert_eq!(div_floor(-5, i64::MIN), 0);
    assert_eq!(div_ceil(-5, i64::MIN), 1);
    assert_eq!(div_ceil(5, i64::MIN), 0);
}

#[test]
fn top_layer_through_instances() {
    let cells = vec![
        vec![CellElement::Shape(Some(2)), CellElement::Text],
        vec![CellElement::Shape(None)],
        vec![CellElement::Instance(0), CellElement::Instance(1), CellElement::Shape(Some(1))],
    ];
    assert_eq!(top_layer(&cells, 2), Some(2));
    assert_eq!(top_layer(&cells, 1), None);
    // The memo records every cell visited, and a cell already recorded is answered from it.
    let mut state = vec![None, None, None];
    assert_eq!(top_layer_inner(&cells, 2, &mut state), Some(2));
    assert_eq!(state, vec![Some(Some(2)), Some(None), Some(Some(2))]);
    let before = state.clone();
    assert_eq!(top_layer_inner(&cells, 0, &mut state), Some(2));
    assert_eq!(state, before);
}

#[test]
fn abstract_bounds() {
    let cells = vec![vec![CellElement::Shape(Some(0))]];
    let units = vec![(100, 100), (200, 300)];
    let bbox = Rect::from_sides(-150, 10, 390, 610);
    let dims = vec![(3, 2), (2, 2)];
    let pitches = vec![(70, 50), (100, 100)];
    let ports = vec![
        PortOnGrid { layer: 1, points: Some(Rect::from_sides(-2, 0, -1, 0)) },
        PortOnGrid { layer: 0, points: None },
        PortOnGrid { layer: 0, points: Some(Rect::from_sides(-1, 1, -1, 1)) },
    ];
    let abs = generate_abstract(&cells, 0, bbox, &units, &dims, &pitches, &ports);
    assert_eq!(abs.top_layer, 1);
    // The tile's corner is (-200, 0): on layer 0 the offset is -200 / 70, rounded toward
    // zero, so the port point (-1, 1) is grid point (1, 1).
    assert_eq!(abs.layers.len(), 2);
    let grid = |l: usize| match &abs.layers[l] {
        LayerAbstract::Detailed { states } => states.clone(),
        LayerAbstract::Blocked => panic!("layer {l} is blocked"),
    };
    let (a, o) = (PointState::Available, PointState::Obstructed);
    assert_eq!(grid(0), vec![vec![a, a], vec![a, o], vec![a, a]]);
    assert_eq!(grid(1), vec![vec![o, a], vec![o, a]]);
    let b = abs.lcm_bounds;
    assert_eq!((b.left(), b.bot(), b.right(), b.top()), (-1, 0, 2, 3));
    let p = abs.physical_bounds();
    assert_eq!((p.left(), p.bot(), p.right(), p.top()), (-200, 0, 400, 900));
    let o = abs.physical_origin();
    assert_eq!(o, Point::new(-200, 0));
}

#[test]
fn instance_into_inner() {
    let i = Instance(7u32, vec![1u8, 2]);
    assert_eq!(i.into_inner(), 7);
    let a = AtollAbstract { top_layer: 0, lcm_bounds: Rect::from_sides(0, 0, 1, 1), layers: vec![], lcm_unit_width: 1, lcm_unit_height: 1 };
    assert_eq!(a.physical_origin(), Point::new(0, 0));
}

#[test]
fn cell_tracks_must_touch_the_span() {
    let c = Cell { dir: Dir::Horiz, span: Span::new(0, 10), tracks: vec![Span::new(-5, 0), Span::new(3, 4)] };
    assert!(c.validate());
    let d = Cell { dir: Dir::Horiz, span: Span::new(0, 10), tracks: vec![Span::new(11, 12)] };
    assert!(!d.validate());
}

#[test]
fn pdk_layers_alternate_and_divide() {
    let ok = Pdk {
        primitive_cell_x: 10,
        primitive_cell_y: 20,
        routing_layers: vec![
            PdkLayer { dir: Dir::Horiz, primitive_cell_width: 40 },
            PdkLayer { dir: Dir::Vert, primitive_cell_width: -30 },
        ],
    };
    assert!(ok.validate());
    let same_dir = Pdk {
        primitive_cell_x: 10,
        primitive_cell_y: 20,
        routing_layers: vec![
            PdkLayer { dir: Dir::Horiz, primitive_cell_width: 40 },
            PdkLayer { dir: Dir::Horiz, primitive_cell_width: 40 },
        ],
    };
    assert!(!same_dir.validate());
    let bad_width = Pdk {
        primitive_cell_x: 10,
        primitive_cell_y: -20,
        routing_layers: vec![PdkLayer { dir: Dir::Horiz, primitive_cell_width: 30 }],
    };
    assert!(!bad_width.validate());
    // A zero width is never divided by when no vertical layer is reached.
    let no_vertical = Pdk {
        primitive_cell_x: 0,
        primitive_cell_y: 5,
        routing_layers: vec![
            PdkLayer { dir: Dir::Horiz, primitive_cell_width: 7 },
            PdkLayer { dir: Dir::Vert, primitive_cell_width: 7 },
        ],
    };
    assert!(!no_vertical.validate());
    let empty = Pdk { primitive_cell_x: 0, primitive_cell_y: 0, routing_layers: vec![] };
    assert!(empty.validate());
}

#[test]
fn port_obstructions_mark_covered_points() {
    // A port whose points lie on layer 0 only obstructs layer 0; layer 1 stays free.
    let dims = vec![(2, 1), (1, 1)];
    let pitches = vec![(10, 10), (10, 10)];
    let ports = vec![PortOnGrid { layer: 0, points: Some(Rect::from_sides(4, 3, 4, 3)) }];
    let layers = port_obstructions(Point::new(35, 30), 1, &dims, &pitches, &ports);
    assert_eq!(layers.len(), 2);
    match (&layers[0], &layers[1]) {
        (LayerAbstract::Detailed { states: s0 }, LayerAbstract::Detailed { states: s1 }) => {
            // The offset on both layers is (3, 3).
            assert_eq!(s0, &vec![vec![PointState::Available], vec![PointState::Obstructed]]);
            assert_eq!(s1, &vec![vec![PointState::Available]]);
        }
        _ => panic!("expected detailed layers"),
    }
}
