use substrate::io::{Direction, Node, Port};
use substrate::schematic::conv::{
    to_scir_cell, to_scir_lib, PrimitiveDevice, RawCell, RawContents, RawInstance,
};
use substrate::scir::{self, CellId, ChildId, DecimalValue, Slice, SliceOne};

/// A resistor cell, kept as a blackbox, and a top cell that instantiates it.
fn hierarchy() -> Vec<RawCell> {
    let res = RawCell {
        name: "res".to_string(),
        roots: vec![(Node(0), Node(0)), (Node(1), Node(1))],
        node_names: vec![(Node(0), "p".to_string()), (Node(1), "n".to_string())],
        ports: vec![
            Port { direction: Direction::InOut, node: Node(0) },
            Port { direction: Direction::InOut, node: Node(1) },
        ],
        contents: RawContents::Opaque("R0 p n 1k".to_string()),
    };
    // Nodes 10 and 11 are one node, whose root is 10; node 12 stands alone.
    let top = RawCell {
        name: "top".to_string(),
        roots: vec![(Node(10), Node(10)), (Node(11), Node(10)), (Node(12), Node(12))],
        node_names: vec![(Node(10), "vdd".to_string()), (Node(12), "out".to_string())],
        ports: vec![Port { direction: Direction::Output, node: Node(12) }],
        contents: RawContents::Clear {
            instances: vec![
                RawInstance { child: 0, connections: vec![Node(11), Node(12)] },
                RawInstance { child: 0, connections: vec![Node(12), Node(10)] },
            ],
            primitives: vec![
                PrimitiveDevice::Res2 {
                    pos: Node(12),
                    neg: Node(11),
                    value: DecimalValue { mantissa: 15, scale: 1 },
                },
                PrimitiveDevice::RawInstance {
                    ports: vec![Node(12)],
                    cell: "cap".to_string(),
                    params: vec![("c".to_string(), DecimalValue { mantissa: 2, scale: 0 })],
                },
            ],
        },
    };
    vec![res, top]
}

#[test]
fn raw_cells_convert_to_library_cells() {
    let raws = hierarchy();
    let lib = to_scir_lib(&raws, 1);
    assert_eq!(lib.num_cells(), 2);
    let top = lib.top().unwrap();
    assert_eq!(top, CellId(1));
    let res = lib.cell(CellId(0));
    assert_eq!(res.name(), "res");
    assert_eq!(res.num_signals(), 2);
    assert_eq!(res.ports(), &vec![0, 1]);
    assert_eq!(res.blackbox().map(|b| b.as_str()), Some("R0 p n 1k"));
    let cell = lib.cell(top);
    assert_eq!(cell.name(), "top");
    assert_eq!(cell.num_signals(), 2);
    assert_eq!(cell.signal_name(0), "vdd");
    assert_eq!(cell.signal_name(1), "out");
    assert_eq!(cell.ports(), &vec![1]);
    assert!(cell.blackbox().is_none());
    let insts = cell.instances();
    assert_eq!(insts.len(), 2);
    assert_eq!(insts[0].name(), "xinst0");
    assert_eq!(insts[1].name(), "xinst1");
    assert_eq!(insts[0].child(), ChildId::Cell(CellId(0)));
    let one = |s: usize| vec![Slice { signal: s, range: None }];
    assert_eq!(insts[0].connection(&"p".to_string()), Some(&one(0)));
    assert_eq!(insts[0].connection(&"n".to_string()), Some(&one(1)));
    assert_eq!(insts[1].connection(&"p".to_string()), Some(&one(1)));
    assert_eq!(insts[1].connection(&"n".to_string()), Some(&one(0)));
    assert_eq!(insts[1].connection(&"x".to_string()), None);
    let prims = cell.primitives();
    assert_eq!(prims.len(), 2);
    match &prims[0] {
        scir::PrimitiveDevice::Res2 { pos, neg, value } => {
            assert_eq!((*pos, *neg), (SliceOne(1), SliceOne(0)));
            assert_eq!(*value, DecimalValue { mantissa: 15, scale: 1 });
        }
        _ => panic!("expected a resistor"),
    }
    match &prims[1] {
        scir::PrimitiveDevice::RawInstance { ports, cell, params } => {
            assert_eq!(ports, &vec![SliceOne(1)]);
            assert_eq!(cell, "cap");
            assert_eq!(params, &vec![("c".to_string(), DecimalValue { mantissa: 2, scale: 0 })]);
        }
        _ => panic!("expected a raw instance"),
    }
}

#[test]
fn a_converted_child_is_reused() {
    // The top cell instantiates the resistor twice; the library holds it once.
    let raws = hierarchy();
    let lib = to_scir_lib(&raws, 1);
    assert_eq!(lib.num_cells(), 2);
    assert_eq!(lib.cell(CellId(1)).instances()[1].child(), ChildId::Cell(CellId(0)));
    // Converting only the leaf gives a one-cell library.
    let lib = to_scir_lib(&raws, 0);
    assert_eq!(lib.num_cells(), 1);
    assert_eq!(lib.top(), Some(CellId(0)));
}

#[test]
fn one_cell_converts_with_given_child_cells() {
    let raws = hierarchy();
    // The resistor's library cell is taken to be cell 7.
    let cell = to_scir_cell(&raws, 1, &vec![Some(7), None]);
    assert_eq!(cell.instances()[0].child(), ChildId::Cell(CellId(7)));
    assert_eq!(cell.instances()[1].child(), ChildId::Cell(CellId(7)));
}

#[test]
fn connected_nodes_share_a_signal() {
    // Nodes 1 and 2 share root 1; node 3 is its own root.
    let c = RawCell {
        name: "c".to_string(),
        roots: vec![(Node(2), Node(1)), (Node(3), Node(3)), (Node(1), Node(1))],
        node_names: vec![(Node(1), "a".to_string()), (Node(3), "b".to_string())],
        ports: vec![
            Port { direction: Direction::Input, node: Node(2) },
            Port { direction: Direction::Input, node: Node(1) },
            Port { direction: Direction::Output, node: Node(3) },
        ],
        contents: RawContents::Clear { instances: vec![], primitives: vec![] },
    };
    let cell = to_scir_cell(&vec![c], 0, &vec![None]);
    assert_eq!(cell.ports(), &vec![0, 0, 1]);
    assert_eq!(cell.num_signals(), 2);
    assert_eq!(cell.signal_name(0), "a");
    assert_eq!(cell.signal_name(1), "b");
}
