//! Schematic helpers: testbench export flags and example interfaces.
use crate::io::{Node, SchematicType};
use vstd::prelude::*;

pub mod conv;

verus! {

/// Whether a cell is exported as a testbench.
#[derive(Debug, Copy, Clone, PartialEq, Eq, Structural, Hash)]
pub enum ExportAsTestbench {
    /// Not a testbench.
    No,
    /// A testbench.
    Yes,
}

impl ExportAsTestbench {
    /// Whether this is a testbench.
    pub fn as_bool(&self) -> (r: bool)
        ensures
            r == (*self == ExportAsTestbench::Yes),
    {
        match *self {
            ExportAsTestbench::No => false,
            ExportAsTestbench::Yes => true,
        }
    }
}

impl From<bool> for ExportAsTestbench {
    fn from(value: bool) -> (r: ExportAsTestbench) {
        if value {
            ExportAsTestbench::Yes
        } else {
            ExportAsTestbench::No
        }
    }
}

impl vstd::std_specs::convert::FromSpecImpl<bool> for ExportAsTestbench {
    open spec fn obeys_from_spec() -> bool {
        true
    }

    open spec fn from_spec(v: bool) -> ExportAsTestbench {
        testbench_of(v)
    }
}

/// The testbench setting of flag `b`.
pub open spec fn testbench_of(b: bool) -> ExportAsTestbench {
    if b {
        ExportAsTestbench::Yes
    } else {
        ExportAsTestbench::No
    }
}

/// Converting a flag to the testbench setting and back gives the flag, and converting
/// a setting to a flag and back gives the setting.
pub proof fn law_testbench_flag_roundtrip(b: bool, t: ExportAsTestbench)
    ensures
        (testbench_of(b) == ExportAsTestbench::Yes) == b,
        testbench_of(t == ExportAsTestbench::Yes) == t,
{
}

/// The interface of a resistor: two terminals.
#[derive(Debug, Clone, Copy, Default)]
pub struct ResistorIo {
    /// The positive terminal.
    pub p: crate::io::Signal,
    /// The negative terminal.
    pub n: crate::io::Signal,
}

/// The interface of a voltage divider.
#[derive(Debug, Clone, Copy, Default)]
pub struct VdividerIo {
    /// The supply.
    pub vdd: crate::io::Signal,
    /// The ground.
    pub vss: crate::io::Signal,
    /// The divided output.
    pub out: crate::io::Signal,
}

/// The nodes of an instantiated resistor.
#[derive(Debug, Clone, Copy, PartialEq, Eq, Structural)]
pub struct ResistorIoData {
    /// The positive terminal.
    pub p: Node,
    /// The negative terminal.
    pub n: Node,
}

/// The nodes of an instantiated voltage divider.
#[derive(Debug, Clone, Copy, PartialEq, Eq, Structural)]
pub struct VdividerIoData {
    /// The supply.
    pub vdd: Node,
    /// The ground.
    pub vss: Node,
    /// The divided output.
    pub out: Node,
}

impl ResistorIo {
    /// The number of single-bit signals: one per terminal.
    pub fn num_signals(&self) -> (r: u64)
        ensures
            r == 2,
    {
        2
    }

    /// Takes the first two of `ids` as the terminals, returning the rest.
    pub fn instantiate<'n>(&self, ids: &'n [Node]) -> (r: (ResistorIoData, &'n [Node]))
        requires
            ids@.len() >= 2,
        ensures
            r.0 == (ResistorIoData { p: ids@[0], n: ids@[1] }),
            r.1@ == ids@.subrange(2, ids@.len() as int),
    {
        let (p, ids2) = self.p.instantiate(ids);
        let (n, rest) = self.n.instantiate(ids2);
        assert(rest@ =~= ids@.subrange(2, ids@.len() as int));
        (ResistorIoData { p, n }, rest)
    }
}

impl ResistorIoData {
    /// The nodes, in declaration order.
    pub fn flatten(&self) -> (r: Vec<Node>)
        ensures
            r@ == seq![self.p, self.n],
    {
        let mut v: Vec<Node> = Vec::new();
        v.push(self.p);
        v.push(self.n);
        assert(v@ =~= seq![self.p, self.n]);
        v
    }

    /// The nodes of each field.
    pub fn flatten_hierarchical(&self) -> (r: Vec<Vec<Node>>)
        ensures
            r@.len() == 2,
            r@[0]@ == seq![self.p],
            r@[1]@ == seq![self.n],
    {
        let mut a: Vec<Node> = Vec::new();
        a.push(self.p);
        let mut b: Vec<Node> = Vec::new();
        b.push(self.n);
        let mut v: Vec<Vec<Node>> = Vec::new();
        v.push(a);
        v.push(b);
        assert(v@[0]@ =~= seq![self.p]);
        assert(v@[1]@ =~= seq![self.n]);
        v
    }
}

impl VdividerIo {
    /// The number of single-bit signals: one per terminal.
    pub fn num_signals(&self) -> (r: u64)
        ensures
            r == 3,
    {
        3
    }

    /// Takes the first three of `ids` as supply, ground and output, returning the rest.
    pub fn instantiate<'n>(&self, ids: &'n [Node]) -> (r: (VdividerIoData, &'n [Node]))
        requires
            ids@.len() >= 3,
        ensures
            r.0 == (VdividerIoData { vdd: ids@[0], vss: ids@[1], out: ids@[2] }),
            r.1@ == ids@.subrange(3, ids@.len() as int),
    {
        let (vdd, ids2) = self.vdd.instantiate(ids);
        let (vss, ids3) = self.vss.instantiate(ids2);
        let (out, rest) = self.out.instantiate(ids3);
        assert(rest@ =~= ids@.subrange(3, ids@.len() as int));
        (VdividerIoData { vdd, vss, out }, rest)
    }
}

impl VdividerIoData {
    /// The nodes, in declaration order.
    pub fn flatten(&self) -> (r: Vec<Node>)
        ensures
            r@ == seq![self.vdd, self.vss, self.out],
    {
        let mut v: Vec<Node> = Vec::new();
        v.push(self.vdd);
        v.push(self.vss);
        v.push(self.out);
        assert(v@ =~= seq![self.vdd, self.vss, self.out]);
        v
    }
}

} // verus!
