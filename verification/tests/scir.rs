use substrate::io::Direction;
use substrate::scir::{
    can_netlist, Cell, CellId, ChildId, Include, Instance, LibraryBuilder, NetlistKind, NetlisterInstance, RenameGround,
    Slice, SliceOne, SpiceLikeSchema, StringSchema, ValidatorIssue,
};

#[test]
fn duplicate_cell_names() {
    let c1 = Cell::new("duplicate_cell_name");
    let c2 = Cell::new("duplicate_cell_name");
    let mut lib = <LibraryBuilder>::new();
    lib.add_cell(c1);
    lib.add_cell(c2);
    let issues = lib.validate();
    assert!(issues.has_error());
}

#[test]
fn duplicate_signal_names() {
    let mut lib = LibraryBuilder::<StringSchema>::new();

    let mut cell = Cell::new("cell");
    cell.add_node("duplicate_signal");
    cell.add_node("duplicate_signal");
    lib.add_cell(cell);

    let issues = lib.validate();
    assert!(issues.has_error());
}

#[test]
fn distinct_names_are_valid() {
    let mut lib = LibraryBuilder::<StringSchema>::new();
    let mut a = Cell::new("a");
    let vdd = a.add_node("vdd");
    let vss = a.add_node("vss");
    assert_eq!(vdd.0, 0);
    assert_eq!(vss.0, 1);
    let b = Cell::new("b");
    let ia = lib.add_cell(a);
    let ib = lib.add_cell(b);
    assert_eq!(ia.0, 0);
    assert_eq!(ib.0, 1);
    let issues = lib.validate();
    assert!(!issues.has_error());
    assert_eq!(issues.num_errors(), 0);
}

#[test]
fn every_duplicate_pair_is_reported() {
    let mut lib = LibraryBuilder::<StringSchema>::new();
    let mut c = Cell::new("x");
    c.add_node("n");
    c.add_node("n");
    c.add_node("n");
    lib.add_cell(c);
    lib.add_cell(Cell::new("x"));
    let issues = lib.validate();
    // One pair of cells and three pairs of signals.
    assert_eq!(issues.num_errors(), 4);
    let sig = |a: usize, b: usize| ValidatorIssue::DuplicateSignalNames {
        cell: CellId(0),
        first: SliceOne(a),
        second: SliceOne(b),
    };
    assert_eq!(
        issues.errors(),
        &vec![
            ValidatorIssue::DuplicateCellNames { id1: CellId(0), id2: CellId(1) },
            sig(0, 1),
            sig(0, 2),
            sig(1, 2),
        ]
    );
}

fn spice_like_lib() -> LibraryBuilder<SpiceLikeSchema> {
    const N: usize = 3;

    let mut lib = LibraryBuilder::<SpiceLikeSchema>::new();

    let resistor = lib.add_primitive("resistor");

    let mut dut = Cell::new("dut");

    let p = dut.add_bus("p", N);
    let n = dut.add_bus("n", N);

    for i in 0..N {
        let mut resistor = Instance::new(&format!("inst_{i}"), ChildId::Primitive(resistor));
        resistor.connect("p", vec![p.index(i)]);
        resistor.connect("n", vec![n.index(i)]);
        dut.add_instance(resistor);
    }

    dut.expose_port(p, Direction::InOut);
    dut.expose_port(n, Direction::InOut);

    let dut = lib.add_cell(dut);

    let mut tb = Cell::new("tb");

    let vdd = tb.add_node("vdd");
    let vss = tb.add_node("vss");

    let mut dut = Instance::new("dut", ChildId::Cell(dut));
    dut.connect("p", vec![Slice::from_one(vdd); 3]);
    dut.connect("n", vec![Slice::from_one(vss); 3]);
    tb.add_instance(dut);

    tb.expose_port(Slice::from_one(vss), Direction::InOut);
    let tb = lib.add_cell(tb);

    lib.set_top(tb);
    assert!(!lib.validate().has_error());
    lib
}

#[test]
fn spice_like_netlist() {
    let lib = spice_like_lib();
    let schema = SpiceLikeSchema { bus_delimiter: ("<".to_string(), "|".to_string()) };
    let mut netlist = String::new();
    let netlister = NetlisterInstance::new(
        NetlistKind::Testbench(RenameGround::Yes("0".to_string())),
        &schema,
        &lib,
        &[],
    );
    netlister.export(&mut netlist);

    for fragment in [
        r#".SUBCKT dut p<0| p<1| p<2| n<0| n<1| n<2|

  inst_0 n<0| p<0| resistor
  inst_1 n<1| p<1| resistor
  inst_2 n<2| p<2| resistor

.ENDS dut"#,
        "dut vdd vdd vdd 0 0 0 dut",
    ] {
        assert!(netlist.contains(fragment), "{netlist:?} lacks {fragment:?}");
    }

    let mut netlist = String::new();
    let netlister = NetlisterInstance::new(NetlistKind::Cells, &schema, &lib, &[]);
    netlister.export(&mut netlist);

    for fragment in [
        r#".SUBCKT dut p<0| p<1| p<2| n<0| n<1| n<2|

  inst_0 n<0| p<0| resistor
  inst_1 n<1| p<1| resistor
  inst_2 n<2| p<2| resistor

.ENDS dut"#,
        r#".SUBCKT tb vss

  dut vdd vdd vdd vss vss vss dut

.ENDS tb"#,
    ] {
        assert!(netlist.contains(fragment), "{netlist:?} lacks {fragment:?}");
    }
}

#[test]
fn netlist_exact_text_and_names() {
    let lib = spice_like_lib();
    let schema = SpiceLikeSchema { bus_delimiter: ("[".to_string(), "]".to_string()) };
    let includes = [Include::new("models.sp"), Include::new("lib.sp").section("tt")];
    let mut netlist = String::new();
    let conv = NetlisterInstance::new(
        NetlistKind::Testbench(RenameGround::Yes("0".to_string())),
        &schema,
        &lib,
        &includes,
    )
    .export(&mut netlist);
    assert_eq!(
        netlist,
        ".INCLUDE \"models.sp\"\n.LIB \"lib.sp\" tt\n\n.SUBCKT dut p[0] p[1] p[2] n[0] n[1] n[2]\n\n  inst_0 n[0] p[0] resistor\n  inst_1 n[1] p[1] resistor\n  inst_2 n[2] p[2] resistor\n\n.ENDS dut\n\ndut vdd vdd vdd 0 0 0 dut\n"
    );
    assert_eq!(conv.cells.len(), 2);
    assert_eq!(conv.cells[0].1.instances.len(), 3);
    assert_eq!(conv.cells[0].1.instances[2].1, "inst_2");
    assert_eq!(conv.cells[1].0, CellId(1));
    assert_eq!(conv.cells[1].1.instances[0].1, "dut");
    // Without a renamed ground, the testbench keeps its ground's name.
    let mut netlist = String::new();
    NetlisterInstance::new(NetlistKind::Testbench(RenameGround::No), &schema, &lib, &[])
        .export(&mut netlist);
    assert!(netlist.ends_with("\ndut vdd vdd vdd vss vss vss dut\n"));
}

#[test]
fn netlisting_runs_exactly_where_it_is_defined() {
    let lib = spice_like_lib();
    assert!(can_netlist(&lib, &NetlistKind::Testbench(RenameGround::Yes("0".to_string()))));
    assert!(can_netlist(&lib, &NetlistKind::Cells));
    // A renamed ground needs a testbench with exactly one port.
    let mut lib2 = LibraryBuilder::<SpiceLikeSchema>::new();
    let mut tb = Cell::new("tb");
    let a = tb.add_node("a");
    let b = tb.add_node("b");
    tb.expose_port(Slice::from_one(a), Direction::InOut);
    tb.expose_port(Slice::from_one(b), Direction::InOut);
    let tb = lib2.add_cell(tb);
    lib2.set_top(tb);
    assert!(!can_netlist(&lib2, &NetlistKind::Testbench(RenameGround::Yes("0".to_string()))));
    assert!(can_netlist(&lib2, &NetlistKind::Testbench(RenameGround::No)));
    // An instance that leaves a port of its cell unconnected cannot be netlisted.
    let mut lib3 = LibraryBuilder::<SpiceLikeSchema>::new();
    let mut leaf = Cell::new("leaf");
    let x = leaf.add_node("x");
    leaf.expose_port(Slice::from_one(x), Direction::InOut);
    let leaf = lib3.add_cell(leaf);
    let mut top = Cell::new("top");
    top.add_node("y");
    top.add_instance(Instance::new("i0", ChildId::Cell(leaf)));
    lib3.add_cell(top);
    assert!(!can_netlist(&lib3, &NetlistKind::Cells));
    // A connection to a signal the cell does not have is refused too.
    let mut lib4 = LibraryBuilder::<SpiceLikeSchema>::new();
    let leaf4 = lib4.add_cell(Cell::new("leaf"));
    let mut top4 = Cell::new("top");
    let mut i = Instance::new("i0", ChildId::Cell(leaf4));
    i.connect("q", vec![Slice { signal: 5, range: None }]);
    top4.add_instance(i);
    lib4.add_cell(top4);
    assert!(!can_netlist(&lib4, &NetlistKind::Cells));
}
