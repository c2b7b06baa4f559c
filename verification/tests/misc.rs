use substrate::execute::{CommandLine, ExecOpts, LogOutput, LsfExecutor};
use substrate::io::{
    Array, Direction, FlatLen, Flatten, Node, NodePriority, NodeUfValue, SchematicType, Signal,
};
use substrate::pdk::{ExamplePdk, ExamplePdkCorner};
use substrate::schematic::{ExportAsTestbench, ResistorIo, ResistorIoData, VdividerIo};
use substrate::sky130::{
    GateDir, GdsLayer, MosKind, MosLength, MosParams, MosTile, PowerIo, Sky130Layer,
};
use substrate::text::push_decimal;

#[test]
fn lsf_executor_command() {
    let cmd = CommandLine {
        program: "touch".to_string(),
        args: vec!["hello.txt".to_string()],
        current_dir: None,
        envs: vec![],
    };

    let exec = LsfExecutor::builder().bsub("mysub").queue("myqueue").build().unwrap();
    let submit = exec.command(&cmd, &ExecOpts { cpus: Some(2), ..Default::default() });

    assert_eq!(submit.program, "mysub");
    let args = submit.args;
    assert_eq!(args[0], "-K");
    assert_eq!(args[1], "-q");
    assert_eq!(args[2], "myqueue");
    assert_eq!(args[3], "-n");
    assert_eq!(args[4], "2");
    assert_eq!(args[5], "touch");
    assert_eq!(args[6], "hello.txt");
}

#[test]
fn lsf_defaults_and_builder_errors() {
    let e = LsfExecutor::new_default();
    let cmd = CommandLine { program: "ls".to_string(), args: vec![], current_dir: Some("/tmp".to_string()), envs: vec![("A".to_string(), None)] };
    let s = e.command(&cmd, &ExecOpts::default());
    assert_eq!(s.program, "bsub");
    assert_eq!(s.args, vec!["-K".to_string(), "ls".to_string()]);
    assert_eq!(s.current_dir, Some("/tmp".to_string()));
    assert_eq!(s.envs, cmd.envs);
    assert_eq!(LsfExecutor::builder().queue("q").build().unwrap_err().0, "bsub");
    assert_eq!(LsfExecutor::builder().bsub("b").build().unwrap_err().0, "queue");
    let o = ExecOpts::default();
    assert_eq!((o.cpus, o.machines, o.logs), (None, 1, LogOutput::Stdio));
}

#[test]
fn directions_and_nodes() {
    assert_eq!(Direction::Input.flip(), Direction::Output);
    assert_eq!(Direction::Output.flip(), Direction::Input);
    assert_eq!(Direction::InOut.flip(), Direction::InOut);
    assert_eq!(Direction::default(), Direction::InOut);
    let a = NodeUfValue { priority: NodePriority::Auto, source: Node(1) };
    let b = NodeUfValue { priority: NodePriority::Io, source: Node(2) };
    assert_eq!(NodeUfValue::unify_values(&a, &b), b);
    assert_eq!(NodeUfValue::unify_values(&b, &a), b);
    let c = NodeUfValue { priority: NodePriority::Auto, source: Node(3) };
    assert_eq!(NodeUfValue::unify_values(&a, &c), a);
    assert_eq!(Node::from_index(5).index(), 5);
    assert_eq!(Signal.len(), 1);
    assert!(!Signal.is_empty());
    let _ = Array::new(3, Signal);
}

#[test]
fn example_pdk_corners() {
    let pdk = ExamplePdk;
    assert_eq!(pdk.corner("tt"), Some(ExamplePdkCorner::Tt));
    assert_eq!(pdk.corner("ss"), Some(ExamplePdkCorner::Ss));
    assert_eq!(pdk.corner("ff"), Some(ExamplePdkCorner::Ff));
    assert_eq!(pdk.corner("sf"), None);
    assert_eq!(ExamplePdkCorner::Ff.name(), "ff");
}

#[test]
fn testbench_flag() {
    assert!(ExportAsTestbench::from(true).as_bool());
    assert!(!ExportAsTestbench::from(false).as_bool());
    assert_eq!(ExportAsTestbench::from(true), ExportAsTestbench::Yes);
}

#[test]
fn resistor_io_instantiates() {
    let ids = [Node(0), Node(1), Node(2)];
    let (data, rest) = ResistorIo::default().instantiate(&ids);
    assert_eq!(data, ResistorIoData { p: Node(0), n: Node(1) });
    assert_eq!(rest, &[Node(2)]);
    assert_eq!(data.flatten(), vec![Node(0), Node(1)]);
    assert_eq!(data.flatten_hierarchical(), vec![vec![Node(0)], vec![Node(1)]]);
    let (v, rest) = VdividerIo::default().instantiate(&ids);
    assert!(rest.is_empty());
    assert_eq!(v.flatten(), vec![Node(0), Node(1), Node(2)]);
    assert_eq!(ResistorIo::default().num_signals(), 2);
    assert_eq!(VdividerIo::default().num_signals(), 3);
}

#[test]
fn sky130_layers() {
    assert_eq!(Sky130Layer::Met1.gds_layer(), GdsLayer(68, 20));
    assert_eq!(Sky130Layer::Met1.gds_pin_layer(), Some(GdsLayer(68, 16)));
    assert_eq!(Sky130Layer::Met1.gds_label_layer(), Some(GdsLayer(68, 5)));
    assert_eq!(Sky130Layer::Pwell.gds_pin_layer(), Some(GdsLayer(122, 16)));
    assert_eq!(Sky130Layer::Diff.gds_pin_layer(), None);
    assert_eq!(Sky130Layer::Outline.gds_layer(), GdsLayer(236, 0));
}

#[test]
fn mos_names_and_counts() {
    let p = MosParams::from((1000, 150, 2));
    assert_eq!(p.to_text(), "1000x150x2");
    assert_eq!(MosParams::from((-5, 150)).to_text(), "-5x150x1");
    assert_eq!(MosKind::Nfet01v8.block_name(&p), "nfet_01v8_1000x150x2");
    assert_eq!(MosKind::Pfet01v8Hvt.open_subckt(), "sky130_fd_pr__pfet_01v8_hvt");
    assert_eq!(MosKind::Pfet01v8Hvt.commercial_subckt(), "phighvt");
    assert_eq!(MosLength::L150.nm(), 150);
    let t = MosTile { w: 1000, len: MosLength::L150, nf: 3, gate_dir: GateDir::Right };
    assert_eq!(t.name(), "mos_tile_w1000_l150_nf3");
    let io = t.io();
    assert_eq!((io.sd, io.g), (4, 3));
    let l = MosTile { gate_dir: GateDir::Left, ..t };
    assert_eq!(l.io().g, 3);
    let r4 = MosTile { nf: 4, ..t };
    assert_eq!((r4.io().sd, r4.io().g), (5, 4));
    let r0 = MosTile { nf: 0, ..t };
    assert_eq!((r0.io().sd, r0.io().g), (1, 0));
}

#[test]
fn decimal_text() {
    let mut s = String::from("n=");
    push_decimal(&mut s, 0);
    push_decimal(&mut s, 1234567890123);
    assert_eq!(s, "n=01234567890123");
}

#[test]
fn signal_takes_one_node() {
    let ids = [Node(4), Node(5), Node(6)];
    let (n, rest) = Signal.instantiate(&ids);
    assert_eq!(n, Node(4));
    assert_eq!(rest, &[Node(5), Node(6)]);
    assert_eq!(n.len(), 1);
    let mut out = vec![Node(1)];
    n.flatten(&mut out);
    assert_eq!(out, vec![Node(1), Node(4)]);
    assert_eq!(n.flatten_vec(), vec![Node(4)]);
}

#[test]
fn power_io_rails_are_inouts() {
    let io = PowerIo::default();
    assert_eq!(io.len(), 4);
    let mut dirs = vec![Direction::Input];
    io.flatten(&mut dirs);
    assert_eq!(
        dirs,
        vec![Direction::Input, Direction::InOut, Direction::InOut, Direction::InOut, Direction::InOut]
    );
}
