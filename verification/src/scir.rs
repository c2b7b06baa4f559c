//! A circuit library: cells with named signals, and the checks a library must pass.
use crate::text::{decimal, digit_char, push_decimal};
use vstd::utf8::encode_utf8;
use vstd::prelude::*;

verus! {

/// The schema of a library whose primitives are named by strings.
#[derive(Debug, Clone, Copy, PartialEq, Eq, Default)]
pub struct StringSchema;

/// Identifies a single-bit slice of a signal of a cell.
#[derive(Debug, Clone, Copy, PartialEq, Eq, Structural, Hash)]
pub struct SliceOne(pub usize);

/// Identifies a cell of a library.
#[derive(Debug, Clone, Copy, PartialEq, Eq, Structural, Hash)]
pub struct CellId(pub usize);

/// Identifies a primitive of a library.
#[derive(Debug, Clone, Copy, PartialEq, Eq, Structural, Hash)]
pub struct PrimitiveId(pub usize);

/// Identifies an instance within a cell.
#[derive(Debug, Clone, Copy, PartialEq, Eq, Structural, Hash)]
pub struct InstanceId(pub usize);

/// What an instance instantiates: a cell or a primitive of the library.
#[derive(Debug, Clone, Copy, PartialEq, Eq, Structural)]
pub enum ChildId {
    /// A cell.
    Cell(CellId),
    /// A primitive.
    Primitive(PrimitiveId),
}

/// A slice of a signal of a cell: the whole signal, or the bits `start..end` of a bus.
#[derive(Debug, Clone, Copy, PartialEq, Eq)]
pub struct Slice {
    /// The signal.
    pub signal: usize,
    /// The bits of a bus, if only some are taken.
    pub range: Option<(usize, usize)>,
}

impl Slice {
    /// The whole of single-bit signal `s`.
    pub fn from_one(s: SliceOne) -> (r: Slice)
        ensures
            r == (Slice { signal: s.0, range: None }),
    {
        Slice { signal: s.0, range: None }
    }

    /// Bit `i` of the bits this slice takes of a bus.
    pub fn index(&self, i: usize) -> (r: Slice)
        requires
            self.range is Some,
            self.range.unwrap().0 + i + 1 <= usize::MAX,
        ensures
            r == (Slice {
                signal: self.signal,
                range: Some(((self.range.unwrap().0 + i) as usize, (self.range.unwrap().0 + i + 1) as usize)),
            }),
    {
        let (start, _) = self.range.unwrap();
        Slice { signal: self.signal, range: Some((start + i, start + i + 1)) }
    }
}

/// The name and, for a bus, the width of a signal.
#[derive(Debug, Clone, PartialEq, Eq)]
pub struct SignalInfo {
    /// The name.
    pub name: String,
    /// The width of a bus; `None` for a single bit.
    pub width: Option<usize>,
}

/// An instance of a cell or primitive, with the slices connected to each of its ports.
pub struct Instance {
    name: String,
    child: ChildId,
    connections: Vec<(String, Vec<Slice>)>,
}

/// The slices connected to port `port` in `conns`, if it is connected.
pub open spec fn conn_of(conns: Seq<(Seq<char>, Seq<Slice>)>, port: Seq<char>) -> Option<Seq<Slice>>
    decreases conns.len(),
{
    if conns.len() == 0 {
        None
    } else if conns[0].0 == port {
        Some(conns[0].1)
    } else {
        conn_of(conns.drop_first(), port)
    }
}

impl Instance {
    /// The instance's name.
    pub closed spec fn name_spec(&self) -> Seq<char> {
        self.name@
    }

    /// What the instance instantiates.
    pub closed spec fn child_spec(&self) -> ChildId {
        self.child
    }

    /// Each connected port's name with its slices, in the order the ports were first
    /// connected.
    pub closed spec fn conns(&self) -> Seq<(Seq<char>, Seq<Slice>)> {
        self.connections@.map_values(|c: (String, Vec<Slice>)| (c.0@, c.1@))
    }

    /// The instance's name.
    pub fn name(&self) -> (r: &str)
        ensures
            r@ == self.name_spec(),
    {
        self.name.as_str()
    }

    /// What the instance instantiates.
    pub fn child(&self) -> (r: ChildId)
        ensures
            r == self.child_spec(),
    {
        self.child
    }

    /// The slices connected to port `port`, if it is connected.
    pub fn connection(&self, port: &String) -> (r: Option<&Vec<Slice>>)
        ensures
            r matches Some(v) ==> conn_of(self.conns(), port@) == Some(v@),
            r is None ==> conn_of(self.conns(), port@) is None,
    {
        match find_conn(self, port) {
            Some(j) => Some(&self.connections[j].1),
            None => None,
        }
    }

    /// A new instance named `name` of `child`, with nothing connected.
    pub fn new(name: &str, child: ChildId) -> (r: Instance)
        ensures
            r.name_spec() == name@,
            r.child_spec() == child,
            r.conns() == Seq::<(Seq<char>, Seq<Slice>)>::empty(),
    {
        let r = Instance { name: name.to_owned(), child, connections: Vec::new() };
        assert(r.conns() =~= Seq::<(Seq<char>, Seq<Slice>)>::empty());
        r
    }

    /// Connects port `port` to the concatenation of `parts`, replacing what it was
    /// connected to before.
    pub fn connect(&mut self, port: &str, parts: Vec<Slice>)
        ensures
            final(self).name_spec() == old(self).name_spec(),
            final(self).child_spec() == old(self).child_spec(),
            conn_of(final(self).conns(), port@) == Some(parts@),
            forall|q: Seq<char>| q != port@ ==> conn_of(final(self).conns(), q) == conn_of(old(self).conns(), q),
    {
        let ghost old_c = self.conns();
        let key = port.to_owned();
        let mut i: usize = 0;
        while i < self.connections.len()
            invariant
                i <= self.connections@.len(),
                self.conns() == old_c,
                self.name_spec() == old(self).name_spec(),
                self.child_spec() == old(self).child_spec(),
                old_c == old(self).conns(),
                key@ == port@,
                forall|j: int| 0 <= j < i ==> (#[trigger] old_c[j]).0 != port@,
            decreases self.connections@.len() - i,
        {
            assert(old_c[i as int].0 == self.connections@[i as int].0@);
            if self.connections[i].0 == key {
                proof {
                    lemma_conn_of_at(old_c, i as int, port@);
                }
                let ghost parts_v = parts@;
                self.connections.set(i, (port.to_owned(), parts));
                proof {
                    let nc = self.conns();
                    assert(nc =~= old_c.update(i as int, (port@, parts_v)));
                    assert forall|q: Seq<char>| true implies conn_of(nc, q) == (if q == port@ {
                        Some(parts_v)
                    } else {
                        conn_of(old_c, q)
                    }) by {
                        lemma_conn_of_update(old_c, i as int, port@, parts_v, q);
                    }
                }
                return;
            }
            i = i + 1;
        }
        let ghost parts_v = parts@;
        self.connections.push((port.to_owned(), parts));
        proof {
            let nc = self.conns();
            assert(nc =~= old_c.push((port@, parts_v)));
            assert forall|q: Seq<char>| true implies conn_of(nc, q) == (if conn_of(old_c, q) is Some {
                conn_of(old_c, q)
            } else if q == port@ {
                Some(parts_v)
            } else {
                None
            }) by {
                lemma_conn_of_push(old_c, (port@, parts_v), q);
            }
            lemma_conn_of_absent(old_c, port@);
        }
    }
}

/// Where position `i` of `c` holds port `p` and no earlier position does, `p` is
/// connected to what position `i` holds.
proof fn lemma_conn_of_at(c: Seq<(Seq<char>, Seq<Slice>)>, i: int, p: Seq<char>)
    requires
        0 <= i < c.len(),
        c[i].0 == p,
        forall|j: int| 0 <= j < i ==> (#[trigger] c[j]).0 != p,
    ensures
        conn_of(c, p) == Some(c[i].1),
    decreases i,
{
    if i > 0 {
        assert(c[0].0 != p);
        lemma_conn_of_at(c.drop_first(), i - 1, p);
    }
}

/// Replacing what the first entry of port `p`, at `i`, holds changes only the lookup of `p`.
proof fn lemma_conn_of_update(
    c: Seq<(Seq<char>, Seq<Slice>)>,
    i: int,
    p: Seq<char>,
    v: Seq<Slice>,
    q: Seq<char>,
)
    requires
        0 <= i < c.len(),
        c[i].0 == p,
        forall|j: int| 0 <= j < i ==> (#[trigger] c[j]).0 != p,
    ensures
        conn_of(c.update(i, (p, v)), q) == (if q == p {
            Some(v)
        } else {
            conn_of(c, q)
        }),
    decreases i,
{
    if i == 0 {
        assert(c.update(0, (p, v)).drop_first() =~= c.drop_first());
    } else {
        assert(c.update(i, (p, v)).drop_first() =~= c.drop_first().update(i - 1, (p, v)));
        assert(c[0].0 != p);
        lemma_conn_of_update(c.drop_first(), i - 1, p, v, q);
    }
}

/// Appending an entry changes only the lookup of a port that had none.
proof fn lemma_conn_of_push(c: Seq<(Seq<char>, Seq<Slice>)>, e: (Seq<char>, Seq<Slice>), q: Seq<char>)
    ensures
        conn_of(c.push(e), q) == (if conn_of(c, q) is Some {
            conn_of(c, q)
        } else if q == e.0 {
            Some(e.1)
        } else {
            None
        }),
    decreases c.len(),
{
    if c.len() > 0 {
        assert(c.push(e)[0] == c[0]);
        assert(c.push(e).drop_first() =~= c.drop_first().push(e));
        lemma_conn_of_push(c.drop_first(), e, q);
    } else {
        assert(c.push(e)[0] == e);
        assert(c.push(e).drop_first() =~= c);
    }
}

/// A port that no entry names is not connected.
proof fn lemma_conn_of_absent(c: Seq<(Seq<char>, Seq<Slice>)>, p: Seq<char>)
    requires
        forall|j: int| 0 <= j < c.len() ==> (#[trigger] c[j]).0 != p,
    ensures
        conn_of(c, p) is None,
    decreases c.len(),
{
    if c.len() > 0 {
        assert(c[0].0 != p);
        assert forall|j: int| 0 <= j < c.drop_first().len() implies (#[trigger] c.drop_first()[j]).0 != p by {
            assert(c.drop_first()[j] == c[j + 1]);
        }
        lemma_conn_of_absent(c.drop_first(), p);
    }
}

/// A decimal number: `mantissa` times ten to the power of minus `scale`.
#[derive(Debug, Clone, Copy, PartialEq, Eq, Structural, Hash)]
pub struct DecimalValue {
    /// The digits, as an integer.
    pub mantissa: i128,
    /// The number of digits after the decimal point.
    pub scale: u32,
}

/// A primitive device placed directly in a cell.
pub enum PrimitiveDevice {
    /// A two-terminal resistor of resistance `value` between `pos` and `neg`.
    Res2 {
        /// The positive terminal.
        pos: SliceOne,
        /// The negative terminal.
        neg: SliceOne,
        /// The resistance.
        value: DecimalValue,
    },
    /// An instance of a cell named `cell` that the library does not hold, with its ports
    /// connected to `ports` in order and its parameters set to `params`.
    RawInstance {
        /// The nodes connected to the ports.
        ports: Vec<SliceOne>,
        /// The name of the instantiated cell.
        cell: String,
        /// The instance's parameters, by name.
        params: Vec<(String, DecimalValue)>,
    },
}

/// A cell: a name, its signals, the signals it exposes as ports, its instances and
/// primitive devices, and, for a blackbox, its contents as opaque text.
pub struct Cell {
    name: String,
    signals: Vec<String>,
    widths: Vec<Option<usize>>,
    ports: Vec<usize>,
    instances: Vec<Instance>,
    primitives: Vec<PrimitiveDevice>,
    blackbox: Option<String>,
}

impl Cell {
    /// The cell's name.
    pub closed spec fn name_spec(&self) -> Seq<char> {
        self.name@
    }

    /// The names of the cell's signals, in the order they were added.
    pub closed spec fn signal_names(&self) -> Seq<Seq<char>> {
        self.signals@.map_values(|s: String| s@)
    }

    /// The width of each signal: `None` for a single bit.
    pub closed spec fn signal_widths(&self) -> Seq<Option<usize>> {
        self.widths@
    }

    /// The signals exposed as ports, in order.
    pub closed spec fn port_signals(&self) -> Seq<usize> {
        self.ports@
    }

    /// The instances, in the order they were added.
    pub closed spec fn instance_list(&self) -> Seq<Instance> {
        self.instances@
    }

    /// The primitive devices, in the order they were added.
    pub closed spec fn primitive_list(&self) -> Seq<PrimitiveDevice> {
        self.primitives@
    }

    /// The contents of a blackbox cell; `None` for a cell whose contents are its
    /// instances and primitives.
    pub closed spec fn blackbox_contents(&self) -> Option<Seq<char>> {
        match self.blackbox {
            Some(b) => Some(b@),
            None => None,
        }
    }

    /// There is a width for every signal.
    pub closed spec fn wf(&self) -> bool {
        self.widths@.len() == self.signals@.len()
    }

    /// The cell's name.
    pub fn name(&self) -> (r: &str)
        ensures
            r@ == self.name_spec(),
    {
        self.name.as_str()
    }

    /// The number of signals.
    pub fn num_signals(&self) -> (r: usize)
        ensures
            r == self.signal_names().len(),
    {
        self.signals.len()
    }

    /// The name of signal `i`.
    pub fn signal_name(&self, i: usize) -> (r: &str)
        requires
            i < self.signal_names().len(),
        ensures
            r@ == self.signal_names()[i as int],
    {
        self.signals[i].as_str()
    }

    /// The signals exposed as ports, in order.
    pub fn ports(&self) -> (r: &Vec<usize>)
        ensures
            r@ == self.port_signals(),
    {
        &self.ports
    }

    /// The instances, in the order they were added.
    pub fn instances(&self) -> (r: &Vec<Instance>)
        ensures
            r@ == self.instance_list(),
    {
        &self.instances
    }

    /// The primitive devices, in the order they were added.
    pub fn primitives(&self) -> (r: &Vec<PrimitiveDevice>)
        ensures
            r@ == self.primitive_list(),
    {
        &self.primitives
    }

    /// The contents of a blackbox cell.
    pub fn blackbox(&self) -> (r: Option<&String>)
        ensures
            r matches Some(b) ==> self.blackbox_contents() == Some(b@),
            r is None ==> self.blackbox_contents() is None,
    {
        match &self.blackbox {
            Some(b) => Some(b),
            None => None,
        }
    }

    /// Creates an empty cell named `name`.
    pub fn new(name: &str) -> (r: Cell)
        ensures
            r.wf(),
            r.name_spec() == name@,
            r.signal_names() == Seq::<Seq<char>>::empty(),
            r.signal_widths() == Seq::<Option<usize>>::empty(),
            r.port_signals() == Seq::<usize>::empty(),
            r.instance_list() == Seq::<Instance>::empty(),
            r.primitive_list() == Seq::<PrimitiveDevice>::empty(),
            r.blackbox_contents() is None,
    {
        let r = Cell {
            name: name.to_owned(),
            signals: Vec::new(),
            widths: Vec::new(),
            ports: Vec::new(),
            instances: Vec::new(),
            primitives: Vec::new(),
            blackbox: None,
        };
        assert(r.signal_names() =~= Seq::<Seq<char>>::empty());
        r
    }

    /// Adds a single-bit signal named `name`, returning it.
    pub fn add_node(&mut self, name: &str) -> (r: SliceOne)
        requires
            old(self).wf(),
        ensures
            final(self).wf(),
            final(self).name_spec() == old(self).name_spec(),
            final(self).signal_names() == old(self).signal_names().push(name@),
            final(self).signal_widths() == old(self).signal_widths().push(None),
            final(self).port_signals() == old(self).port_signals(),
            final(self).instance_list() == old(self).instance_list(),
            r.0 == old(self).signal_names().len(),
            final(self).primitive_list() == old(self).primitive_list(),
            final(self).blackbox_contents() == old(self).blackbox_contents(),
    {
        let id = self.signals.len();
        self.signals.push(name.to_owned());
        self.widths.push(None);
        assert(self.signal_names() =~= old(self).signal_names().push(name@));
        SliceOne(id)
    }

    /// Adds a bus of `width` bits named `name`, returning all of its bits.
    pub fn add_bus(&mut self, name: &str, width: usize) -> (r: Slice)
        requires
            old(self).wf(),
        ensures
            final(self).wf(),
            final(self).name_spec() == old(self).name_spec(),
            final(self).signal_names() == old(self).signal_names().push(name@),
            final(self).signal_widths() == old(self).signal_widths().push(Some(width)),
            final(self).port_signals() == old(self).port_signals(),
            final(self).instance_list() == old(self).instance_list(),
            r == (Slice { signal: old(self).signal_names().len() as usize, range: Some((0, width)) }),
            final(self).primitive_list() == old(self).primitive_list(),
            final(self).blackbox_contents() == old(self).blackbox_contents(),
    {
        let id = self.signals.len();
        self.signals.push(name.to_owned());
        self.widths.push(Some(width));
        assert(self.signal_names() =~= old(self).signal_names().push(name@));
        Slice { signal: id, range: Some((0, width)) }
    }

    /// Exposes the signal of `slice` as a port.
    pub fn expose_port(&mut self, slice: Slice, direction: crate::io::Direction)
        ensures
            final(self).wf() == old(self).wf(),
            final(self).name_spec() == old(self).name_spec(),
            final(self).signal_names() == old(self).signal_names(),
            final(self).signal_widths() == old(self).signal_widths(),
            final(self).port_signals() == old(self).port_signals().push(slice.signal),
            final(self).primitive_list() == old(self).primitive_list(),
            final(self).blackbox_contents() == old(self).blackbox_contents(),
            final(self).instance_list() == old(self).instance_list(),
    {
        self.ports.push(slice.signal);
    }

    /// Adds instance `inst`, returning its ID.
    pub fn add_instance(&mut self, inst: Instance) -> (r: InstanceId)
        ensures
            final(self).wf() == old(self).wf(),
            final(self).name_spec() == old(self).name_spec(),
            final(self).signal_names() == old(self).signal_names(),
            final(self).signal_widths() == old(self).signal_widths(),
            final(self).port_signals() == old(self).port_signals(),
            final(self).instance_list() == old(self).instance_list().push(inst),
            final(self).primitive_list() == old(self).primitive_list(),
            final(self).blackbox_contents() == old(self).blackbox_contents(),
            r.0 == old(self).instance_list().len(),
    {
        let id = self.instances.len();
        self.instances.push(inst);
        InstanceId(id)
    }

    /// Adds primitive device `p`.
    pub fn add_primitive(&mut self, p: PrimitiveDevice)
        ensures
            final(self).wf() == old(self).wf(),
            final(self).name_spec() == old(self).name_spec(),
            final(self).signal_names() == old(self).signal_names(),
            final(self).signal_widths() == old(self).signal_widths(),
            final(self).port_signals() == old(self).port_signals(),
            final(self).instance_list() == old(self).instance_list(),
            final(self).primitive_list() == old(self).primitive_list().push(p),
            final(self).blackbox_contents() == old(self).blackbox_contents(),
    {
        self.primitives.push(p);
    }

    /// Makes the cell a blackbox whose contents are `contents`.
    pub fn set_blackbox(&mut self, contents: String)
        ensures
            final(self).wf() == old(self).wf(),
            final(self).name_spec() == old(self).name_spec(),
            final(self).signal_names() == old(self).signal_names(),
            final(self).signal_widths() == old(self).signal_widths(),
            final(self).port_signals() == old(self).port_signals(),
            final(self).instance_list() == old(self).instance_list(),
            final(self).primitive_list() == old(self).primitive_list(),
            final(self).blackbox_contents() == Some(contents@),
    {
        self.blackbox = Some(contents);
    }
}

/// Whether some two positions of `s` hold equal values.
pub open spec fn has_duplicate(s: Seq<Seq<char>>) -> bool {
    exists|i: int, j: int| 0 <= i < j < s.len() && #[trigger] s[i] == #[trigger] s[j]
}

/// A problem found by validation.
#[derive(Debug, Clone, PartialEq, Eq)]
pub enum ValidatorIssue {
    /// Two cells share a name.
    DuplicateCellNames {
        /// The first cell.
        id1: CellId,
        /// The second cell.
        id2: CellId,
    },
    /// Two signals of a cell share a name.
    DuplicateSignalNames {
        /// The cell.
        cell: CellId,
        /// The first signal.
        first: SliceOne,
        /// The second signal.
        second: SliceOne,
    },
}

/// The duplicate cell-name pairs `(x, y)` with `x < y < b`, in order of `y`.
pub open spec fn cell_dup_row(names: Seq<Seq<char>>, x: int, b: int) -> Seq<ValidatorIssue>
    decreases b - x,
{
    if b <= x + 1 {
        seq![]
    } else {
        let r = cell_dup_row(names, x, b - 1);
        if names[x] == names[b - 1] {
            r.push(ValidatorIssue::DuplicateCellNames { id1: CellId(x as usize), id2: CellId((b - 1) as usize) })
        } else {
            r
        }
    }
}

/// The duplicate cell-name pairs whose first cell is below `a`, in order.
pub open spec fn cell_dups(names: Seq<Seq<char>>, a: int) -> Seq<ValidatorIssue>
    decreases a,
{
    if a <= 0 {
        seq![]
    } else {
        cell_dups(names, a - 1) + cell_dup_row(names, a - 1, names.len() as int)
    }
}

/// The duplicate signal-name pairs `(x, y)` of cell `c` with `x < y < b`, in order of `y`.
pub open spec fn signal_dup_row(c: int, sn: Seq<Seq<char>>, x: int, b: int) -> Seq<ValidatorIssue>
    decreases b - x,
{
    if b <= x + 1 {
        seq![]
    } else {
        let r = signal_dup_row(c, sn, x, b - 1);
        if sn[x] == sn[b - 1] {
            r.push(
                ValidatorIssue::DuplicateSignalNames {
                    cell: CellId(c as usize),
                    first: SliceOne(x as usize),
                    second: SliceOne((b - 1) as usize),
                },
            )
        } else {
            r
        }
    }
}

/// The duplicate signal-name pairs of cell `c` whose first signal is below `a`, in order.
pub open spec fn signal_dups(c: int, sn: Seq<Seq<char>>, a: int) -> Seq<ValidatorIssue>
    decreases a,
{
    if a <= 0 {
        seq![]
    } else {
        signal_dups(c, sn, a - 1) + signal_dup_row(c, sn, a - 1, sn.len() as int)
    }
}

/// The problems found by validation.
pub struct Issues {
    errors: Vec<ValidatorIssue>,
}

impl Issues {
    /// The errors, in the order they were found.
    pub closed spec fn error_list(&self) -> Seq<ValidatorIssue> {
        self.errors@
    }

    /// The number of errors.
    pub open spec fn error_count(&self) -> nat {
        self.error_list().len()
    }

    /// Whether any error was found.
    pub fn has_error(&self) -> (r: bool)
        ensures
            r == (self.error_count() > 0),
    {
        self.errors.len() > 0
    }

    /// The errors, in the order they were found.
    pub fn errors(&self) -> (r: &Vec<ValidatorIssue>)
        ensures
            r@ == self.error_list(),
    {
        &self.errors
    }

    /// The number of errors.
    pub fn num_errors(&self) -> (r: usize)
        ensures
            r == self.error_count(),
    {
        self.errors.len()
    }
}

/// A library under construction.
pub struct LibraryBuilder<S = StringSchema> {
    cells: Vec<Cell>,
    primitives: Vec<String>,
    top: Option<usize>,
    schema: Option<S>,
}

impl<S> LibraryBuilder<S> {
    /// The cells, in the order they were added.
    pub closed spec fn cells(&self) -> Seq<Cell> {
        self.cells@
    }

    /// The primitives, named by strings, in the order they were added.
    pub closed spec fn primitive_names(&self) -> Seq<Seq<char>> {
        self.primitives@.map_values(|p: String| p@)
    }

    /// The index of the top cell, if one is set.
    pub closed spec fn top_cell(&self) -> Option<usize> {
        self.top
    }

    /// The names of the cells.
    pub open spec fn cell_names(&self) -> Seq<Seq<char>> {
        self.cells().map_values(|c: Cell| c.name_spec())
    }

    /// Whether the library is free of errors: no two cells share a name, and no two
    /// signals of a cell do.
    pub open spec fn is_valid(&self) -> bool {
        &&& !has_duplicate(self.cell_names())
        &&& forall|i: int| 0 <= i < self.cells().len() ==> !has_duplicate(#[trigger] self.cells()[i].signal_names())
    }

    /// The number of cells.
    pub fn num_cells(&self) -> (r: usize)
        ensures
            r == self.cells().len(),
    {
        self.cells.len()
    }

    /// The cell `id`.
    pub fn cell(&self, id: CellId) -> (r: &Cell)
        requires
            id.0 < self.cells().len(),
        ensures
            *r == self.cells()[id.0 as int],
    {
        &self.cells[id.0]
    }

    /// The top cell, if one is set.
    pub fn top(&self) -> (r: Option<CellId>)
        ensures
            r matches Some(c) ==> self.top_cell() == Some(c.0),
            r is None ==> self.top_cell() is None,
    {
        match self.top {
            Some(t) => Some(CellId(t)),
            None => None,
        }
    }

    /// An empty library.
    pub fn new() -> (r: Self)
        ensures
            r.cells() == Seq::<Cell>::empty(),
            r.primitive_names() == Seq::<Seq<char>>::empty(),
            r.top_cell() is None,
    {
        let r = LibraryBuilder { cells: Vec::new(), primitives: Vec::new(), top: None, schema: None };
        assert(r.primitive_names() =~= Seq::<Seq<char>>::empty());
        r
    }

    /// Adds `cell`, returning its ID.
    pub fn add_cell(&mut self, cell: Cell) -> (r: CellId)
        ensures
            final(self).cells() == old(self).cells().push(cell),
            final(self).primitive_names() == old(self).primitive_names(),
            final(self).top_cell() == old(self).top_cell(),
            r.0 == old(self).cells().len(),
    {
        let id = self.cells.len();
        self.cells.push(cell);
        CellId(id)
    }

    /// Adds the primitive named `name`, returning its ID.
    pub fn add_primitive(&mut self, name: &str) -> (r: PrimitiveId)
        ensures
            final(self).cells() == old(self).cells(),
            final(self).primitive_names() == old(self).primitive_names().push(name@),
            final(self).top_cell() == old(self).top_cell(),
            r.0 == old(self).primitive_names().len(),
    {
        let id = self.primitives.len();
        self.primitives.push(name.to_owned());
        assert(self.primitive_names() =~= old(self).primitive_names().push(name@));
        PrimitiveId(id)
    }

    /// Makes `cell` the top cell.
    pub fn set_top(&mut self, cell: CellId)
        ensures
            final(self).cells() == old(self).cells(),
            final(self).primitive_names() == old(self).primitive_names(),
            final(self).top_cell() == Some(cell.0),
    {
        self.top = Some(cell.0);
    }

    /// The signal-name issues of the cells below `k`, cell by cell.
    pub open spec fn signal_issues(&self, k: int) -> Seq<ValidatorIssue>
        decreases k,
    {
        if k <= 0 {
            seq![]
        } else {
            self.signal_issues(k - 1) + signal_dups(
                k - 1,
                self.cells()[k - 1].signal_names(),
                self.cells()[k - 1].signal_names().len() as int,
            )
        }
    }

    /// The issues of the library, in the order validation finds them: every pair of cells
    /// that share a name, then, cell by cell, every pair of its signals that share a name;
    /// pairs ordered by their first, then their second member.
    pub open spec fn expected_issues(&self) -> Seq<ValidatorIssue> {
        cell_dups(self.cell_names(), self.cells().len() as int) + self.signal_issues(
            self.cells().len() as int,
        )
    }

    /// Checks the library, reporting every pair of cells that share a name and every
    /// pair of signals of a cell that share a name; errors are found exactly where the
    /// library is not valid.
    pub fn validate(&self) -> (r: Issues)
        ensures
            r.error_list() == self.expected_issues(),
            r.error_count() > 0 <==> !self.is_valid(),
    {
        let mut errors: Vec<ValidatorIssue> = Vec::new();
        let n = self.cells.len();
        let ghost names = self.cell_names();
        let mut i: usize = 0;
        while i < n
            invariant
                n == self.cells().len(),
                names == self.cell_names(),
                i <= n,
                errors@.len() == 0 <==> (forall|a: int, b: int| 0 <= a < b < n && a < i ==> #[trigger] names[a] != #[trigger] names[b]),
                errors@ == cell_dups(names, i as int),
                names.len() == n,
            decreases n - i,
        {
            let mut j: usize = i + 1;
            assert(errors@ =~= cell_dups(names, i as int) + cell_dup_row(names, i as int, j as int));
            while j < n
                invariant
                    n == self.cells().len(),
                    names == self.cell_names(),
                    i < n,
                    i < j <= n,
                    errors@.len() == 0 <==> (forall|a: int, b: int| (0 <= a < b < n && a < i) || (a == i && i < b < j) ==> #[trigger] names[a] != #[trigger] names[b]),
                    errors@ == cell_dups(names, i as int) + cell_dup_row(names, i as int, j as int),
                    names.len() == n,
                decreases n - j,
            {
                let same = self.cells[i].name == self.cells[j].name;
                assert(names[i as int] == self.cells()[i as int].name_spec());
                assert(names[j as int] == self.cells()[j as int].name_spec());
                if same {
                    errors.push(ValidatorIssue::DuplicateCellNames { id1: CellId(i), id2: CellId(j) });
                }
                assert(errors@ =~= cell_dups(names, i as int) + cell_dup_row(names, i as int, j + 1));
                j = j + 1;
            }
            assert(errors@ =~= cell_dups(names, i + 1));
            i = i + 1;
        }
        let ghost cell_errors = errors@.len();
        let mut c: usize = 0;
        while c < n
            invariant
                n == self.cells().len(),
                names == self.cell_names(),
                c <= n,
                errors@.len() >= cell_errors,
                cell_errors == 0 <==> !has_duplicate(names),
                errors@.len() == cell_errors <==> (forall|k: int| 0 <= k < c ==> !has_duplicate(#[trigger] self.cells()[k].signal_names())),
                errors@ == cell_dups(names, n as int) + self.signal_issues(c as int),
            decreases n - c,
        {
            let cell = &self.cells[c];
            let m = cell.signals.len();
            let ghost sn = cell.signal_names();
            let ghost before = errors@.len();
            let ghost base = errors@;
            let mut a: usize = 0;
            assert(errors@ =~= base + signal_dups(c as int, sn, 0));
            while a < m
                invariant
                    m == sn.len(),
                    sn == cell.signal_names(),
                    a <= m,
                    errors@.len() >= before,
                    errors@.len() == before <==> (forall|x: int, y: int| 0 <= x < y < m && x < a ==> #[trigger] sn[x] != #[trigger] sn[y]),
                    errors@ == base + signal_dups(c as int, sn, a as int),
                decreases m - a,
            {
                let mut b: usize = a + 1;
                assert(errors@ =~= base + signal_dups(c as int, sn, a as int) + signal_dup_row(c as int, sn, a as int, b as int));
                while b < m
                    invariant
                        m == sn.len(),
                        sn == cell.signal_names(),
                        a < m,
                        a < b <= m,
                        errors@.len() >= before,
                        errors@.len() == before <==> (forall|x: int, y: int| (0 <= x < y < m && x < a) || (x == a && a < y < b) ==> #[trigger] sn[x] != #[trigger] sn[y]),
                        errors@ == base + signal_dups(c as int, sn, a as int) + signal_dup_row(c as int, sn, a as int, b as int),
                    decreases m - b,
                {
                    let same = cell.signals[a] == cell.signals[b];
                    assert(sn[a as int] == cell.signals@[a as int]@);
                    assert(sn[b as int] == cell.signals@[b as int]@);
                    if same {
                        errors.push(
                            ValidatorIssue::DuplicateSignalNames {
                                cell: CellId(c),
                                first: SliceOne(a),
                                second: SliceOne(b),
                            },
                        );
                    }
                    assert(errors@ =~= base + signal_dups(c as int, sn, a as int) + signal_dup_row(c as int, sn, a as int, b + 1));
                    b = b + 1;
                }
                assert(errors@ =~= base + signal_dups(c as int, sn, a + 1));
                a = a + 1;
            }
            assert(errors@ =~= cell_dups(names, n as int) + self.signal_issues(c + 1));
            c = c + 1;
        }
        Issues { errors }
    }
}

// ---------------------------------------------------------------------------
// Netlisting
// ---------------------------------------------------------------------------

/// A netlist include statement: a file, and optionally a section of it.
#[derive(Debug, Clone, PartialEq, Eq)]
pub struct Include {
    /// The path to include.
    pub path: String,
    /// The section of the file to include.
    pub section: Option<String>,
}

/// The text of an optional string.
pub open spec fn opt_text(s: Option<String>) -> Option<Seq<char>> {
    match s {
        Some(x) => Some(x@),
        None => None,
    }
}

impl Include {
    /// Includes the whole file at `path`.
    pub fn new(path: &str) -> (r: Include)
        ensures
            r.path@ == path@,
            r.section is None,
    {
        Include { path: path.to_owned(), section: None }
    }

    /// The same include, of section `section` only.
    pub fn section(self, section: &str) -> (r: Include)
        ensures
            r.path@ == self.path@,
            opt_text(r.section) == Some(section@),
    {
        Include { path: self.path, section: Some(section.to_owned()) }
    }
}

/// Whether the ground node of a testbench is renamed, and to what.
#[derive(Debug, Clone)]
pub enum RenameGround {
    /// The ground node is renamed to this name.
    Yes(String),
    /// The ground node keeps its name.
    No,
}

/// The kind of netlist to export.
#[derive(Debug, Clone)]
pub enum NetlistKind {
    /// A testbench: its top cell is inlined, and its ground may be renamed.
    Testbench(RenameGround),
    /// A collection of cells.
    Cells,
}

/// The netlisted names of the instances of a cell.
#[derive(Debug, Clone, PartialEq, Eq)]
pub struct NetlistCellConversion {
    /// Each instance with its netlisted name, in instance order.
    pub instances: Vec<(InstanceId, String)>,
}

/// The netlisted names of the instances of each cell of a library.
#[derive(Debug, Clone, PartialEq, Eq)]
pub struct NetlistLibConversion {
    /// Each cell with its conversion, in cell order.
    pub cells: Vec<(CellId, NetlistCellConversion)>,
}

/// The texts of a sequence of strings.
pub open spec fn texts(v: Seq<String>) -> Seq<Seq<char>> {
    v.map_values(|s: String| s@)
}

/// The texts of a sequence of connections.
pub open spec fn conn_texts(v: Seq<(String, Vec<String>)>) -> Seq<(Seq<char>, Seq<Seq<char>>)> {
    v.map_values(|c: (String, Vec<String>)| (c.0@, texts(c.1@)))
}

/// The names and widths of a sequence of signals.
pub open spec fn infos(v: Seq<SignalInfo>) -> Seq<(Seq<char>, Option<usize>)> {
    v.map_values(|i: SignalInfo| (i.name@, i.width))
}

/// A schema whose netlists are SPICE-like: each method appends its part of the netlist
/// to `out`, as the matching spec function says.
pub trait HasSpiceLikeNetlist {
    /// The text that starts a netlist.
    spec fn prelude_text(&self) -> Seq<char>;

    /// The text of an include statement of `path`, or of its section `section`.
    spec fn include_text(&self, path: Seq<char>, section: Option<Seq<char>>) -> Seq<char>;

    /// The text that starts subcircuit `name` with ports `ports` (name and bus width).
    spec fn start_subckt_text(&self, name: Seq<char>, ports: Seq<(Seq<char>, Option<usize>)>) -> Seq<char>;

    /// The text that ends subcircuit `name`.
    spec fn end_subckt_text(&self, name: Seq<char>) -> Seq<char>;

    /// The text of instance `name` of subcircuit `child`, with its connections in port order.
    spec fn instance_text(&self, name: Seq<char>, conns: Seq<Seq<char>>, child: Seq<char>) -> Seq<char>;

    /// The netlisted name of that instance.
    spec fn instance_name(&self, name: Seq<char>, conns: Seq<Seq<char>>, child: Seq<char>) -> Seq<char>;

    /// The text of instance `name` of primitive `prim`, with the connections of each port.
    spec fn primitive_inst_text(
        &self,
        name: Seq<char>,
        conns: Seq<(Seq<char>, Seq<Seq<char>>)>,
        prim: Seq<char>,
    ) -> Seq<char>;

    /// The netlisted name of that instance.
    spec fn primitive_inst_name(
        &self,
        name: Seq<char>,
        conns: Seq<(Seq<char>, Seq<Seq<char>>)>,
        prim: Seq<char>,
    ) -> Seq<char>;

    /// The text that defines primitive `prim`, if any.
    spec fn primitive_subckt_text(&self, prim: Seq<char>) -> Seq<char>;

    /// The text of the bits `range` of signal `name`, or of the whole signal.
    spec fn slice_text(&self, name: Seq<char>, range: Option<(usize, usize)>) -> Seq<char>;

    /// The text that ends a netlist.
    spec fn postlude_text(&self) -> Seq<char>;

    /// Writes the prelude.
    fn write_prelude(&self, out: &mut String)
        ensures
            final(out)@ == old(out)@ + self.prelude_text(),
    ;

    /// Writes an include statement.
    fn write_include(&self, out: &mut String, inc: &Include)
        ensures
            final(out)@ == old(out)@ + self.include_text(inc.path@, opt_text(inc.section)),
    ;

    /// Writes the start of a subcircuit.
    fn write_start_subckt(&self, out: &mut String, name: &String, ports: &Vec<SignalInfo>)
        ensures
            final(out)@ == old(out)@ + self.start_subckt_text(name@, infos(ports@)),
    ;

    /// Writes the end of a subcircuit.
    fn write_end_subckt(&self, out: &mut String, name: &String)
        ensures
            final(out)@ == old(out)@ + self.end_subckt_text(name@),
    ;

    /// Writes an instance of a subcircuit, returning its netlisted name.
    fn write_instance(&self, out: &mut String, name: &String, connections: &Vec<String>, child: &String) -> (r: String)
        ensures
            final(out)@ == old(out)@ + self.instance_text(name@, texts(connections@), child@),
            r@ == self.instance_name(name@, texts(connections@), child@),
    ;

    /// Writes an instance of a primitive, returning its netlisted name.
    fn write_primitive_inst(
        &self,
        out: &mut String,
        name: &String,
        connections: &Vec<(String, Vec<String>)>,
        primitive: &String,
    ) -> (r: String)
        ensures
            final(out)@ == old(out)@ + self.primitive_inst_text(name@, conn_texts(connections@), primitive@),
            r@ == self.primitive_inst_name(name@, conn_texts(connections@), primitive@),
    ;

    /// Writes the definition of a primitive, if it needs one.
    fn write_primitive_subckt(&self, out: &mut String, primitive: &String)
        ensures
            final(out)@ == old(out)@ + self.primitive_subckt_text(primitive@),
    ;

    /// Writes a slice of a signal.
    fn write_slice(&self, out: &mut String, slice: Slice, info: &SignalInfo)
        ensures
            final(out)@ == old(out)@ + self.slice_text(info.name@, slice.range),
    ;

    /// Writes the postlude.
    fn write_postlude(&self, out: &mut String)
        ensures
            final(out)@ == old(out)@ + self.postlude_text(),
    ;
}

/// Whether a cell exported as the top cell under `kind` is inlined as a testbench.
pub open spec fn inlined(is_top: bool, kind: NetlistKind) -> bool {
    is_top && kind is Testbench
}

/// The ground signal's name and its replacement, where a testbench renames its ground:
/// the testbench's one port is its ground.
pub open spec fn ground_of(cell: Cell, is_top: bool, kind: NetlistKind) -> Option<(Seq<char>, Seq<char>)> {
    if is_top {
        match kind {
            NetlistKind::Testbench(RenameGround::Yes(r)) => Some(
                (cell.signal_names()[cell.port_signals()[0] as int], r@),
            ),
            _ => None,
        }
    } else {
        None
    }
}

/// The text of slice `sl` of `cell`: the replacement of the ground, where `sl` is the whole
/// ground signal, and otherwise as the schema writes it.
pub open spec fn part_text<T: HasSpiceLikeNetlist>(
    schema: T,
    cell: Cell,
    g: Option<(Seq<char>, Seq<char>)>,
    sl: Slice,
) -> Seq<char> {
    let name = cell.signal_names()[sl.signal as int];
    match g {
        Some((gn, rep)) => if gn == name && sl.range is None {
            rep
        } else {
            schema.slice_text(name, sl.range)
        },
        None => schema.slice_text(name, sl.range),
    }
}

/// The texts of the slices `parts` of `cell`.
pub open spec fn parts_text<T: HasSpiceLikeNetlist>(
    schema: T,
    cell: Cell,
    g: Option<(Seq<char>, Seq<char>)>,
    parts: Seq<Slice>,
) -> Seq<Seq<char>> {
    parts.map_values(|sl: Slice| part_text(schema, cell, g, sl))
}

/// The name of the `k`-th port of `child`.
pub open spec fn port_name(child: Cell, k: int) -> Seq<char> {
    child.signal_names()[child.port_signals()[k] as int]
}

/// The texts connected to the first `k` ports of `child` by an instance with connections
/// `conns` in `cell`, in port order.
pub open spec fn child_conns<T: HasSpiceLikeNetlist>(
    schema: T,
    cell: Cell,
    g: Option<(Seq<char>, Seq<char>)>,
    conns: Seq<(Seq<char>, Seq<Slice>)>,
    child: Cell,
    k: int,
) -> Seq<Seq<char>>
    decreases k,
{
    if k <= 0 {
        seq![]
    } else {
        child_conns(schema, cell, g, conns, child, k - 1) + parts_text(
            schema,
            cell,
            g,
            conn_of(conns, port_name(child, k - 1))->0,
        )
    }
}

/// The texts connected to each port of a primitive instance with connections `conns`.
pub open spec fn prim_conns<T: HasSpiceLikeNetlist>(
    schema: T,
    cell: Cell,
    g: Option<(Seq<char>, Seq<char>)>,
    conns: Seq<(Seq<char>, Seq<Slice>)>,
) -> Seq<(Seq<char>, Seq<Seq<char>>)> {
    conns.map_values(|c: (Seq<char>, Seq<Slice>)| (c.0, parts_text(schema, cell, g, c.1)))
}

/// The text and netlisted name of instance `inst` of `cell`.
pub open spec fn inst_netlist<T: HasSpiceLikeNetlist, S>(
    schema: T,
    lib: LibraryBuilder<S>,
    cell: Cell,
    g: Option<(Seq<char>, Seq<char>)>,
    inst: Instance,
) -> (Seq<char>, Seq<char>) {
    match inst.child_spec() {
        ChildId::Cell(id) => {
            let child = lib.cells()[id.0 as int];
            let cs = child_conns(schema, cell, g, inst.conns(), child, child.port_signals().len() as int);
            (
                schema.instance_text(inst.name_spec(), cs, child.name_spec()),
                schema.instance_name(inst.name_spec(), cs, child.name_spec()),
            )
        },
        ChildId::Primitive(id) => {
            let pc = prim_conns(schema, cell, g, inst.conns());
            let prim = lib.primitive_names()[id.0 as int];
            (
                schema.primitive_inst_text(inst.name_spec(), pc, prim),
                schema.primitive_inst_name(inst.name_spec(), pc, prim),
            )
        },
    }
}

/// The lines of the first `k` instances of `cell`, each indented by `indent`.
pub open spec fn body_text<T: HasSpiceLikeNetlist, S>(
    schema: T,
    lib: LibraryBuilder<S>,
    cell: Cell,
    g: Option<(Seq<char>, Seq<char>)>,
    indent: Seq<char>,
    k: int,
) -> Seq<char>
    decreases k,
{
    if k <= 0 {
        seq![]
    } else {
        body_text(schema, lib, cell, g, indent, k - 1) + indent + inst_netlist(
            schema,
            lib,
            cell,
            g,
            cell.instance_list()[k - 1],
        ).0 + seq!['\n']
    }
}

/// The netlisted names of the first `k` instances of `cell`.
pub open spec fn body_names<T: HasSpiceLikeNetlist, S>(
    schema: T,
    lib: LibraryBuilder<S>,
    cell: Cell,
    g: Option<(Seq<char>, Seq<char>)>,
    k: int,
) -> Seq<(usize, Seq<char>)>
    decreases k,
{
    if k <= 0 {
        seq![]
    } else {
        body_names(schema, lib, cell, g, k - 1).push(
            ((k - 1) as usize, inst_netlist(schema, lib, cell, g, cell.instance_list()[k - 1]).1),
        )
    }
}

/// The name and width of each port of `cell`, in order.
pub open spec fn port_infos(cell: Cell) -> Seq<(Seq<char>, Option<usize>)> {
    cell.port_signals().map_values(
        |p: usize| (cell.signal_names()[p as int], cell.signal_widths()[p as int]),
    )
}

/// The netlist of cell `c` of `lib`: where it is not inlined as a testbench, the start of
/// its subcircuit, a blank line, its instances indented by two spaces, a blank line and
/// the end of its subcircuit followed by a blank line; an inlined testbench gives its
/// instances alone, with its ground renamed where `kind` asks for that.
pub open spec fn cell_netlist<T: HasSpiceLikeNetlist, S>(
    schema: T,
    lib: LibraryBuilder<S>,
    c: int,
    is_top: bool,
    kind: NetlistKind,
) -> Seq<char> {
    let cell = lib.cells()[c];
    let t = inlined(is_top, kind);
    let g = ground_of(cell, is_top, kind);
    let indent = if t {
        seq![]
    } else {
        seq![' ', ' ']
    };
    let body = body_text(schema, lib, cell, g, indent, cell.instance_list().len() as int);
    if t {
        body
    } else {
        schema.start_subckt_text(cell.name_spec(), port_infos(cell)) + seq!['\n', '\n'] + body
            + seq!['\n'] + schema.end_subckt_text(cell.name_spec()) + seq!['\n', '\n']
    }
}

/// The netlisted names of the instances of cell `c` of `lib`.
pub open spec fn cell_names_of<T: HasSpiceLikeNetlist, S>(
    schema: T,
    lib: LibraryBuilder<S>,
    c: int,
    is_top: bool,
    kind: NetlistKind,
) -> Seq<(usize, Seq<char>)> {
    let cell = lib.cells()[c];
    body_names(schema, lib, cell, ground_of(cell, is_top, kind), cell.instance_list().len() as int)
}

/// Whether every index in `lib` points at something: each cell has a width for every
/// signal, its ports and the slices its instances connect name its signals, and its
/// instances name cells and primitives of the library.
pub open spec fn netlist_ok<S>(lib: LibraryBuilder<S>) -> bool {
    forall|c: int| 0 <= c < lib.cells().len() ==> cell_ok(lib, #[trigger] lib.cells()[c])
}

/// Whether the indices in `cell` point at something in `lib`.
pub open spec fn cell_ok<S>(lib: LibraryBuilder<S>, cell: Cell) -> bool {
    &&& cell.wf()
    &&& forall|k: int| 0 <= k < cell.port_signals().len() ==> (#[trigger] cell.port_signals()[k]) < cell.signal_names().len()
    &&& forall|i: int| 0 <= i < cell.instance_list().len() ==> inst_ok(lib, cell, #[trigger] cell.instance_list()[i])
}

/// Whether the indices in instance `inst` of `cell` point at something in `lib`.
pub open spec fn inst_ok<S>(lib: LibraryBuilder<S>, cell: Cell, inst: Instance) -> bool {
    &&& match inst.child_spec() {
        ChildId::Cell(id) => id.0 < lib.cells().len(),
        ChildId::Primitive(id) => id.0 < lib.primitive_names().len(),
    }
    &&& forall|j: int, k: int|
        0 <= j < inst.conns().len() && 0 <= k < inst.conns()[j].1.len() ==> (#[trigger] inst.conns()[j].1[k]).signal
            < cell.signal_names().len()
}

/// Whether netlisting cell `c` of `lib` runs to completion: a testbench whose ground is
/// renamed has exactly one port, and every instance of a cell connects each of that cell's
/// ports.
pub open spec fn cell_netlist_defined<S>(lib: LibraryBuilder<S>, c: int, is_top: bool, kind: NetlistKind) -> bool {
    let cell = lib.cells()[c];
    &&& (is_top && kind matches NetlistKind::Testbench(RenameGround::Yes(_))) ==> cell.port_signals().len() == 1
    &&& forall|i: int|
        0 <= i < cell.instance_list().len() ==> inst_connected(lib, #[trigger] cell.instance_list()[i])
}

/// Whether an instance of a cell connects each port of that cell.
pub open spec fn inst_connected<S>(lib: LibraryBuilder<S>, inst: Instance) -> bool {
    match inst.child_spec() {
        ChildId::Cell(id) => forall|k: int|
            0 <= k < lib.cells()[id.0 as int].port_signals().len() ==> conn_of(
                inst.conns(),
                #[trigger] port_name(lib.cells()[id.0 as int], k),
            ) is Some,
        ChildId::Primitive(_) => true,
    }
}

/// The ground name and replacement held by `g`, as text.
pub open spec fn ground_view(g: Option<(String, String)>) -> Option<(Seq<char>, Seq<char>)> {
    match g {
        Some((a, b)) => Some((a@, b@)),
        None => None,
    }
}

/// The text of slice `sl` of `cell`, as [`part_text`] gives it.
fn make_slice<T: HasSpiceLikeNetlist>(schema: &T, cell: &Cell, sl: Slice, g: &Option<(String, String)>) -> (r: String)
    requires
        cell.wf(),
        sl.signal < cell.signal_names().len(),
    ensures
        r@ == part_text(*schema, *cell, ground_view(*g), sl),
{
    let name = &cell.signals[sl.signal];
    assert(name@ == cell.signal_names()[sl.signal as int]);
    if let Some((gn, rep)) = g {
        if *gn == *name && sl.range.is_none() {
            return rep.clone();
        }
    }
    let info = SignalInfo { name: name.clone(), width: cell.widths[sl.signal] };
    let mut buf = String::new();
    schema.write_slice(&mut buf, sl, &info);
    proof {
        assert(buf@ =~= schema.slice_text(name@, sl.range));
    }
    buf
}

/// Appends the texts of the slices `parts` of `cell` to `acc`.
fn push_slices<T: HasSpiceLikeNetlist>(
    schema: &T,
    cell: &Cell,
    parts: &Vec<Slice>,
    g: &Option<(String, String)>,
    acc: &mut Vec<String>,
)
    requires
        cell.wf(),
        forall|k: int| 0 <= k < parts@.len() ==> (#[trigger] parts@[k]).signal < cell.signal_names().len(),
    ensures
        texts(final(acc)@) == texts(old(acc)@) + parts_text(*schema, *cell, ground_view(*g), parts@),
{
    let ghost gv = ground_view(*g);
    let ghost start = texts(acc@);
    let mut k: usize = 0;
    while k < parts.len()
        invariant
            cell.wf(),
            forall|m: int| 0 <= m < parts@.len() ==> (#[trigger] parts@[m]).signal < cell.signal_names().len(),
            k <= parts@.len(),
            gv == ground_view(*g),
            texts(acc@) == start + parts_text(*schema, *cell, gv, parts@.take(k as int)),
        decreases parts@.len() - k,
    {
        let t = make_slice(schema, cell, parts[k], g);
        let ghost before = acc@;
        acc.push(t);
        proof {
            assert(texts(acc@) =~= texts(before).push(t@));
            assert(parts@.take(k + 1) =~= parts@.take(k as int).push(parts@[k as int]));
            assert(parts_text(*schema, *cell, gv, parts@.take(k + 1)) =~= parts_text(
                *schema,
                *cell,
                gv,
                parts@.take(k as int),
            ).push(part_text(*schema, *cell, gv, parts@[k as int])));
        }
        k = k + 1;
    }
    assert(parts@.take(k as int) =~= parts@);
}

/// The position of the first connection of port `port` of `inst`, if any.
fn find_conn(inst: &Instance, port: &String) -> (r: Option<usize>)
    ensures
        r matches Some(j) ==> j < inst.conns().len() && conn_of(inst.conns(), port@) == Some(
            inst.conns()[j as int].1,
        ),
        r is None ==> conn_of(inst.conns(), port@) is None,
{
    let ghost c = inst.conns();
    let mut i: usize = 0;
    while i < inst.connections.len()
        invariant
            c == inst.conns(),
            i <= inst.connections@.len(),
            forall|j: int| 0 <= j < i ==> (#[trigger] c[j]).0 != port@,
        decreases inst.connections@.len() - i,
    {
        assert(c[i as int].0 == inst.connections@[i as int].0@);
        if inst.connections[i].0 == *port {
            proof {
                lemma_conn_of_at(c, i as int, port@);
            }
            return Some(i);
        }
        i = i + 1;
    }
    proof {
        lemma_conn_of_absent(c, port@);
    }
    None
}

/// The instances and netlisted names of a cell conversion.
pub open spec fn cell_conv_view(r: NetlistCellConversion) -> Seq<(usize, Seq<char>)> {
    r.instances@.map_values(|p: (InstanceId, String)| (p.0.0, p.1@))
}

/// The include statements of the first `k` of `incs`, each followed by a line break.
pub open spec fn includes_text<T: HasSpiceLikeNetlist>(schema: T, incs: Seq<Include>, k: int) -> Seq<char>
    decreases k,
{
    if k <= 0 {
        seq![]
    } else {
        includes_text(schema, incs, k - 1) + schema.include_text(incs[k - 1].path@, opt_text(incs[k - 1].section))
            + seq!['\n']
    }
}

/// Whether cell `c` is the top cell of `lib`.
pub open spec fn is_top_of<S>(lib: LibraryBuilder<S>, c: int) -> bool {
    lib.top_cell() == Some(c as usize)
}

/// The netlists of the first `k` cells of `lib`, in order.
pub open spec fn cells_text<T: HasSpiceLikeNetlist, S>(schema: T, lib: LibraryBuilder<S>, kind: NetlistKind, k: int) -> Seq<char>
    decreases k,
{
    if k <= 0 {
        seq![]
    } else {
        cells_text(schema, lib, kind, k - 1) + cell_netlist(schema, lib, k - 1, is_top_of(lib, k - 1), kind)
    }
}

/// The conversions of the first `k` cells of `lib`.
pub open spec fn cells_conv<T: HasSpiceLikeNetlist, S>(schema: T, lib: LibraryBuilder<S>, kind: NetlistKind, k: int) -> Seq<
    (usize, Seq<(usize, Seq<char>)>),
>
    decreases k,
{
    if k <= 0 {
        seq![]
    } else {
        cells_conv(schema, lib, kind, k - 1).push(
            ((k - 1) as usize, cell_names_of(schema, lib, k - 1, is_top_of(lib, k - 1), kind)),
        )
    }
}

/// The definitions of the first `k` primitives.
pub open spec fn prims_text<T: HasSpiceLikeNetlist>(schema: T, prims: Seq<Seq<char>>, k: int) -> Seq<char>
    decreases k,
{
    if k <= 0 {
        seq![]
    } else {
        prims_text(schema, prims, k - 1) + schema.primitive_subckt_text(prims[k - 1])
    }
}

/// The netlist of `lib`: the prelude, the include statements, a blank line, the netlist of
/// each cell (its top cell inlined where `kind` is a testbench), the definitions of its
/// primitives and the postlude.
pub open spec fn lib_netlist<T: HasSpiceLikeNetlist, S>(
    schema: T,
    lib: LibraryBuilder<S>,
    kind: NetlistKind,
    incs: Seq<Include>,
) -> Seq<char> {
    schema.prelude_text() + includes_text(schema, incs, incs.len() as int) + seq!['\n'] + cells_text(
        schema,
        lib,
        kind,
        lib.cells().len() as int,
    ) + prims_text(schema, lib.primitive_names(), lib.primitive_names().len() as int)
        + schema.postlude_text()
}

/// Whether netlisting every cell of `lib` runs to completion.
pub open spec fn lib_netlist_defined<S>(lib: LibraryBuilder<S>, kind: NetlistKind) -> bool {
    &&& netlist_ok(lib)
    &&& forall|c: int|
        0 <= c < lib.cells().len() ==> #[trigger] cell_netlist_defined(lib, c, is_top_of(lib, c), kind)
}

/// The cells and instance names of a library conversion.
pub open spec fn lib_conv_view(r: NetlistLibConversion) -> Seq<(usize, Seq<(usize, Seq<char>)>)> {
    r.cells@.map_values(|p: (CellId, NetlistCellConversion)| (p.0.0, cell_conv_view(p.1)))
}

/// Whether every slice connected by `inst` names a signal of `cell`.
fn inst_slices_ok(cell: &Cell, inst: &Instance) -> (r: bool)
    ensures
        r == forall|j: int, k: int|
            0 <= j < inst.conns().len() && 0 <= k < inst.conns()[j].1.len() ==> (#[trigger] inst.conns()[j].1[k]).signal
                < cell.signal_names().len(),
{
    let ghost c = inst.conns();
    let n = cell.signals.len();
    let mut j: usize = 0;
    while j < inst.connections.len()
        invariant
            j <= inst.connections@.len(),
            c == inst.conns(),
            n == cell.signal_names().len(),
            forall|a: int, b: int| 0 <= a < j && 0 <= b < c[a].1.len() ==> (#[trigger] c[a].1[b]).signal < n,
        decreases inst.connections@.len() - j,
    {
        let parts = &inst.connections[j].1;
        assert(parts@ == c[j as int].1);
        let mut k: usize = 0;
        while k < parts.len()
            invariant
                k <= parts@.len(),
                parts@ == c[j as int].1,
                c == inst.conns(),
                n == cell.signal_names().len(),
                j < c.len(),
                forall|a: int, b: int| 0 <= a < j && 0 <= b < c[a].1.len() ==> (#[trigger] c[a].1[b]).signal < n,
                forall|b: int| 0 <= b < k ==> (#[trigger] c[j as int].1[b]).signal < n,
            decreases parts@.len() - k,
        {
            if parts[k].signal >= n {
                assert(inst.conns()[j as int].1[k as int].signal >= n);
                return false;
            }
            k = k + 1;
        }
        j = j + 1;
    }
    true
}

/// Whether `inst` connects every port of its child, when its child is a cell of `lib`
/// whose ports name its signals.
fn inst_connected_check<S>(lib: &LibraryBuilder<S>, inst: &Instance) -> (r: bool)
    requires
        inst.child_spec() matches ChildId::Cell(id) ==> id.0 < lib.cells().len() && cell_ok(
            *lib,
            lib.cells()[id.0 as int],
        ),
    ensures
        r == inst_connected(*lib, *inst),
{
    match inst.child {
        ChildId::Primitive(_) => true,
        ChildId::Cell(id) => {
            let child = &lib.cells[id.0];
            let mut k: usize = 0;
            while k < child.ports.len()
                invariant
                    k <= child.port_signals().len(),
                    *child == lib.cells()[id.0 as int],
                    inst.child_spec() == ChildId::Cell(id),
                    cell_ok(*lib, *child),
                    forall|m: int| 0 <= m < k ==> conn_of(inst.conns(), #[trigger] port_name(*child, m)) is Some,
                decreases child.port_signals().len() - k,
            {
                let sig = child.ports[k];
                assert(sig == child.port_signals()[k as int]);
                let name = &child.signals[sig];
                assert(name@ == port_name(*child, k as int));
                if find_conn(inst, name).is_none() {
                    return false;
                }
                k = k + 1;
            }
            true
        },
    }
}

/// Whether the indices in `cell` point at something in `lib`.
fn cell_ok_check<S>(lib: &LibraryBuilder<S>, cell: &Cell) -> (r: bool)
    ensures
        r == cell_ok(*lib, *cell),
{
    if cell.widths.len() != cell.signals.len() {
        return false;
    }
    let n = cell.signals.len();
    let mut k: usize = 0;
    while k < cell.ports.len()
        invariant
            k <= cell.port_signals().len(),
            n == cell.signal_names().len(),
            forall|m: int| 0 <= m < k ==> (#[trigger] cell.port_signals()[m]) < n,
        decreases cell.port_signals().len() - k,
    {
        if cell.ports[k] >= n {
            return false;
        }
        k = k + 1;
    }
    let mut i: usize = 0;
    while i < cell.instances.len()
        invariant
            i <= cell.instance_list().len(),
            cell.wf(),
            forall|m: int| 0 <= m < cell.port_signals().len() ==> (#[trigger] cell.port_signals()[m]) < n,
            n == cell.signal_names().len(),
            forall|m: int| 0 <= m < i ==> inst_ok(*lib, *cell, #[trigger] cell.instance_list()[m]),
        decreases cell.instance_list().len() - i,
    {
        let inst = &cell.instances[i];
        let child_ok = match inst.child {
            ChildId::Cell(id) => id.0 < lib.cells.len(),
            ChildId::Primitive(id) => id.0 < lib.primitives.len(),
        };
        assert(lib.primitive_names().len() == lib.primitives@.len());
        if !child_ok || !inst_slices_ok(cell, inst) {
            assert(!inst_ok(*lib, *cell, cell.instance_list()[i as int]));
            return false;
        }
        i = i + 1;
    }
    true
}

/// Whether netlisting library `lib` as `kind` runs to completion: every cell's indices
/// point at something in `lib`, a testbench whose ground is renamed has exactly one
/// port, and every instance of a cell connects each of that cell's ports.
pub fn can_netlist<S>(lib: &LibraryBuilder<S>, kind: &NetlistKind) -> (r: bool)
    ensures
        r == lib_netlist_defined(*lib, *kind),
{
    let n = lib.cells.len();
    let mut c: usize = 0;
    while c < n
        invariant
            c <= n,
            n == lib.cells().len(),
            forall|m: int| 0 <= m < c ==> cell_ok(*lib, #[trigger] lib.cells()[m]),
        decreases n - c,
    {
        if !cell_ok_check(lib, &lib.cells[c]) {
            assert(!cell_ok(*lib, lib.cells()[c as int]));
            return false;
        }
        c = c + 1;
    }
    assert(netlist_ok(*lib));
    let renamed = match kind {
        NetlistKind::Testbench(RenameGround::Yes(_)) => true,
        _ => false,
    };
    let mut c: usize = 0;
    while c < n
        invariant
            c <= n,
            n == lib.cells().len(),
            netlist_ok(*lib),
            renamed == (kind matches NetlistKind::Testbench(RenameGround::Yes(_))),
            forall|m: int| 0 <= m < c ==> #[trigger] cell_netlist_defined(*lib, m, is_top_of(*lib, m), *kind),
        decreases n - c,
    {
        let cell = &lib.cells[c];
        let is_top = match lib.top {
            Some(t) => t == c,
            None => false,
        };
        assert(is_top == is_top_of(*lib, c as int));
        if is_top && renamed && cell.ports.len() != 1 {
            assert(!cell_netlist_defined(*lib, c as int, is_top_of(*lib, c as int), *kind));
            return false;
        }
        assert(cell_ok(*lib, *cell));
        let mut i: usize = 0;
        while i < cell.instances.len()
            invariant
                i <= cell.instance_list().len(),
                *cell == lib.cells()[c as int],
                c < n,
                n == lib.cells().len(),
                netlist_ok(*lib),
                cell_ok(*lib, *cell),
                forall|m: int| 0 <= m < i ==> inst_connected(*lib, #[trigger] cell.instance_list()[m]),
            decreases cell.instance_list().len() - i,
        {
            let inst = &cell.instances[i];
            assert(inst_ok(*lib, *cell, cell.instance_list()[i as int]));
            if let ChildId::Cell(id) = inst.child {
                assert(cell_ok(*lib, lib.cells()[id.0 as int]));
            }
            if !inst_connected_check(lib, inst) {
                assert(!inst_connected(*lib, cell.instance_list()[i as int]));
                assert(!cell_netlist_defined(*lib, c as int, is_top_of(*lib, c as int), *kind));
                return false;
            }
            i = i + 1;
        }
        c = c + 1;
    }
    true
}

/// Exports the cells of a library as a SPICE-like netlist, through a schema.
pub struct NetlisterInstance<'a, T, S> {
    kind: NetlistKind,
    schema: &'a T,
    lib: &'a LibraryBuilder<S>,
    includes: &'a [Include],
}

impl<'a, T: HasSpiceLikeNetlist, S> NetlisterInstance<'a, T, S> {
    /// The kind of netlist.
    pub closed spec fn kind_spec(&self) -> NetlistKind {
        self.kind
    }

    /// The schema.
    pub closed spec fn schema_spec(&self) -> T {
        *self.schema
    }

    /// The library.
    pub closed spec fn lib_spec(&self) -> LibraryBuilder<S> {
        *self.lib
    }

    /// The include statements.
    pub closed spec fn includes_spec(&self) -> Seq<Include> {
        self.includes@
    }

    /// A netlister of `lib` through `schema`, with `includes` at the start.
    pub fn new(
        kind: NetlistKind,
        schema: &'a T,
        lib: &'a LibraryBuilder<S>,
        includes: &'a [Include],
    ) -> (r: Self)
        ensures
            r.kind_spec() == kind,
            r.schema_spec() == *schema,
            r.lib_spec() == *lib,
            r.includes_spec() == includes@,
    {
        NetlisterInstance { kind, schema, lib, includes }
    }

    /// Appends the netlist of cell `c` to `out`, returning the netlisted names of its
    /// instances: see [`cell_netlist`].
    pub fn export_cell(&self, c: usize, is_top: bool, out: &mut String) -> (r: NetlistCellConversion)
        requires
            netlist_ok(self.lib_spec()),
            c < self.lib_spec().cells().len(),
            cell_netlist_defined(self.lib_spec(), c as int, is_top, self.kind_spec()),
        ensures
            final(out)@ == old(out)@ + cell_netlist(
                self.schema_spec(),
                self.lib_spec(),
                c as int,
                is_top,
                self.kind_spec(),
            ),
            cell_conv_view(r) == cell_names_of(
                self.schema_spec(),
                self.lib_spec(),
                c as int,
                is_top,
                self.kind_spec(),
            ),
    {
        let ghost sch = *self.schema;
        let ghost lib = *self.lib;
        let cell = &self.lib.cells[c];
        assert(cell_ok(lib, *cell));
        let t = match &self.kind {
            NetlistKind::Testbench(_) => is_top,
            NetlistKind::Cells => false,
        };
        let g: Option<(String, String)> = if is_top {
            match &self.kind {
                NetlistKind::Testbench(RenameGround::Yes(rep)) => {
                    let p = cell.ports[0];
                    Some((cell.signals[p].clone(), rep.clone()))
                },
                _ => None,
            }
        } else {
            None
        };
        let ghost gv = ground_view(g);
        assert(gv == ground_of(*cell, is_top, self.kind));
        let ghost indent: Seq<char> = if t {
            seq![]
        } else {
            seq![' ', ' ']
        };
        proof {
            reveal_strlit("\n\n");
            reveal_strlit("  ");
            reveal_strlit("\n");
        }
        if !t {
            let mut ports: Vec<SignalInfo> = Vec::new();
            let mut k: usize = 0;
            while k < cell.ports.len()
                invariant
                    cell_ok(lib, *cell),
                    k <= cell.ports@.len(),
                    infos(ports@) == port_infos(*cell).take(k as int),
                decreases cell.ports@.len() - k,
            {
                let p = cell.ports[k];
                assert(p == cell.port_signals()[k as int]);
                let ghost before = ports@;
                ports.push(SignalInfo { name: cell.signals[p].clone(), width: cell.widths[p] });
                proof {
                    assert(infos(ports@) =~= infos(before).push((cell.signal_names()[p as int], cell.signal_widths()[p as int])));
                    assert(port_infos(*cell).take(k + 1) =~= port_infos(*cell).take(k as int).push(port_infos(*cell)[k as int]));
                }
                k = k + 1;
            }
            assert(port_infos(*cell).take(k as int) =~= port_infos(*cell));
            self.schema.write_start_subckt(out, &cell.name, &ports);
            out.append("\n\n");
        }
        let ghost head = out@;
        let mut conv: Vec<(InstanceId, String)> = Vec::new();
        let n = cell.instances.len();
        let mut i: usize = 0;
        assert(cell_conv_view(NetlistCellConversion { instances: conv }) =~= Seq::<(usize, Seq<char>)>::empty());
        while i < n
            invariant
                netlist_ok(lib),
                lib == *self.lib,
                sch == *self.schema,
                *cell == lib.cells()[c as int],
                c < lib.cells().len(),
                cell_ok(lib, *cell),
                cell_netlist_defined(lib, c as int, is_top, self.kind),
                n == cell.instance_list().len(),
                i <= n,
                gv == ground_view(g),
                indent == (if t { seq![] } else { seq![' ', ' '] }),
                out@ == head + body_text(sch, lib, *cell, gv, indent, i as int),
                cell_conv_view(NetlistCellConversion { instances: conv }) == body_names(sch, lib, *cell, gv, i as int),
            decreases n - i,
        {
            let inst = &cell.instances[i];
            assert(inst_ok(lib, *cell, *inst));
            assert(inst_connected(lib, *inst));
            let ghost o1 = out@;
            proof {
                reveal_strlit("  ");
                reveal_strlit("\n");
            }
            if !t {
                out.append("  ");
            }
            assert(out@ =~= o1 + indent);
            let ghost o2 = out@;
            let ghost line = inst_netlist(sch, lib, *cell, gv, *inst);
            let name = match inst.child {
                ChildId::Cell(id) => {
                    let child = &self.lib.cells[id.0];
                    assert(cell_ok(lib, *child));
                    let mut conns: Vec<String> = Vec::new();
                    let mut k: usize = 0;
                    assert(texts(conns@) =~= Seq::<Seq<char>>::empty());
                    while k < child.ports.len()
                        invariant
                            sch == *self.schema,
                            lib == *self.lib,
                            cell_ok(lib, *cell),
                            cell_ok(lib, *child),
                            inst_ok(lib, *cell, *inst),
                            inst_connected(lib, *inst),
                            *child == lib.cells()[id.0 as int],
                            inst.child_spec() == ChildId::Cell(id),
                            gv == ground_view(g),
                            k <= child.ports@.len(),
                            texts(conns@) == child_conns(sch, *cell, gv, inst.conns(), *child, k as int),
                        decreases child.ports@.len() - k,
                    {
                        let p = child.ports[k];
                        let pname = &child.signals[p];
                        assert(pname@ == port_name(*child, k as int));
                        let j = find_conn(inst, pname).unwrap();
                        let parts = &inst.connections[j].1;
                        assert(parts@ == inst.conns()[j as int].1);
                        assert forall|m: int| 0 <= m < parts@.len() implies (#[trigger] parts@[m]).signal < cell.signal_names().len() by {
                            assert(inst.conns()[j as int].1[m] == parts@[m]);
                        }
                        let ghost cprev = texts(conns@);
                        push_slices(self.schema, cell, parts, &g, &mut conns);
                        proof {
                            assert(conn_of(inst.conns(), port_name(*child, k as int)) == Some(parts@));
                            assert(child_conns(sch, *cell, gv, inst.conns(), *child, k + 1) == child_conns(
                                sch,
                                *cell,
                                gv,
                                inst.conns(),
                                *child,
                                k as int,
                            ) + parts_text(sch, *cell, gv, parts@));
                        }
                        k = k + 1;
                    }
                    self.schema.write_instance(out, &inst.name, &conns, &child.name)
                },
                ChildId::Primitive(id) => {
                    let mut conns: Vec<(String, Vec<String>)> = Vec::new();
                    let mut j: usize = 0;
                    assert(conn_texts(conns@) =~= prim_conns(sch, *cell, gv, inst.conns().take(0)));
                    while j < inst.connections.len()
                        invariant
                            sch == *self.schema,
                            lib == *self.lib,
                            cell_ok(lib, *cell),
                            inst_ok(lib, *cell, *inst),
                            gv == ground_view(g),
                            j <= inst.connections@.len(),
                            conn_texts(conns@) == prim_conns(sch, *cell, gv, inst.conns().take(j as int)),
                        decreases inst.connections@.len() - j,
                    {
                        let parts = &inst.connections[j].1;
                        assert(parts@ == inst.conns()[j as int].1);
                        assert forall|m: int| 0 <= m < parts@.len() implies (#[trigger] parts@[m]).signal < cell.signal_names().len() by {
                            assert(inst.conns()[j as int].1[m] == parts@[m]);
                        }
                        let mut v: Vec<String> = Vec::new();
                        assert(texts(v@) =~= Seq::<Seq<char>>::empty());
                        push_slices(self.schema, cell, parts, &g, &mut v);
                        assert(texts(v@) =~= parts_text(sch, *cell, gv, parts@));
                        let ghost before = conns@;
                        let pn = inst.connections[j].0.clone();
                        let ghost vv = v@;
                        conns.push((pn, v));
                        proof {
                            assert(conn_texts(conns@) =~= conn_texts(before).push((pn@, texts(vv))));
                            assert(inst.conns().take(j + 1) =~= inst.conns().take(j as int).push(inst.conns()[j as int]));
                            assert(prim_conns(sch, *cell, gv, inst.conns().take(j + 1)) =~= prim_conns(
                                sch,
                                *cell,
                                gv,
                                inst.conns().take(j as int),
                            ).push((inst.conns()[j as int].0, parts_text(sch, *cell, gv, inst.conns()[j as int].1))));
                        }
                        j = j + 1;
                    }
                    assert(inst.conns().take(j as int) =~= inst.conns());
                    self.schema.write_primitive_inst(out, &inst.name, &conns, &self.lib.primitives[id.0])
                },
            };
            assert(out@ == o2 + line.0);
            assert(name@ == line.1);
            out.append("\n");
            let ghost cbefore = conv@;
            conv.push((InstanceId(i), name));
            proof {
                assert(cell.instance_list()[i as int] == *inst);
                assert(body_text(sch, lib, *cell, gv, indent, i + 1) == body_text(sch, lib, *cell, gv, indent, i as int)
                    + indent + line.0 + seq!['\n']);
                assert(out@ =~= head + body_text(sch, lib, *cell, gv, indent, i + 1));
                assert(cell_conv_view(NetlistCellConversion { instances: conv }) =~= body_names(
                    sch,
                    lib,
                    *cell,
                    gv,
                    i + 1,
                ));
            }
            i = i + 1;
        }
        if !t {
            out.append("\n");
            self.schema.write_end_subckt(out, &cell.name);
            out.append("\n\n");
        }
        proof {
            assert(out@ =~= old(out)@ + cell_netlist(sch, lib, c as int, is_top, self.kind));
        }
        NetlistCellConversion { instances: conv }
    }

    /// Appends the netlist of the library to `out`, returning the netlisted names of the
    /// instances of each cell: see [`lib_netlist`].
    pub fn export(&self, out: &mut String) -> (r: NetlistLibConversion)
        requires
            lib_netlist_defined(self.lib_spec(), self.kind_spec()),
        ensures
            final(out)@ == old(out)@ + lib_netlist(
                self.schema_spec(),
                self.lib_spec(),
                self.kind_spec(),
                self.includes_spec(),
            ),
            lib_conv_view(r) == cells_conv(
                self.schema_spec(),
                self.lib_spec(),
                self.kind_spec(),
                self.lib_spec().cells().len() as int,
            ),
    {
        let ghost sch = *self.schema;
        let ghost lib = *self.lib;
        let ghost incs = self.includes@;
        self.schema.write_prelude(out);
        let ghost o0 = out@;
        let mut k: usize = 0;
        while k < self.includes.len()
            invariant
                sch == *self.schema,
                incs == self.includes@,
                k <= incs.len(),
                out@ == o0 + includes_text(sch, incs, k as int),
            decreases incs.len() - k,
        {
            self.schema.write_include(out, &self.includes[k]);
            proof {
                reveal_strlit("\n");
            }
            out.append("\n");
            k = k + 1;
        }
        proof {
            reveal_strlit("\n");
        }
        out.append("\n");
        let ghost o1 = out@;
        let mut cells: Vec<(CellId, NetlistCellConversion)> = Vec::new();
        let n = self.lib.cells.len();
        let mut c: usize = 0;
        assert(lib_conv_view(NetlistLibConversion { cells }) =~= cells_conv(sch, lib, self.kind, 0));
        while c < n
            invariant
                sch == *self.schema,
                lib == *self.lib,
                lib_netlist_defined(lib, self.kind),
                n == lib.cells().len(),
                c <= n,
                out@ == o1 + cells_text(sch, lib, self.kind, c as int),
                lib_conv_view(NetlistLibConversion { cells }) == cells_conv(sch, lib, self.kind, c as int),
            decreases n - c,
        {
            let is_top = match self.lib.top {
                Some(t) => t == c,
                None => false,
            };
            assert(is_top == is_top_of(lib, c as int));
            assert(cell_netlist_defined(lib, c as int, is_top_of(lib, c as int), self.kind));
            let conv = self.export_cell(c, is_top, out);
            let ghost before = cells@;
            cells.push((CellId(c), conv));
            proof {
                assert(lib_conv_view(NetlistLibConversion { cells }) =~= before.map_values(
                    |q: (CellId, NetlistCellConversion)| (q.0.0, cell_conv_view(q.1)),
                ).push((c as usize, cell_conv_view(conv))));
            }
            c = c + 1;
        }
        let ghost o2 = out@;
        let np = self.lib.primitives.len();
        let mut p: usize = 0;
        while p < np
            invariant
                sch == *self.schema,
                lib == *self.lib,
                np == lib.primitive_names().len(),
                p <= np,
                out@ == o2 + prims_text(sch, lib.primitive_names(), p as int),
            decreases np - p,
        {
            assert(self.lib.primitives@[p as int]@ == lib.primitive_names()[p as int]);
            self.schema.write_primitive_subckt(out, &self.lib.primitives[p]);
            p = p + 1;
        }
        self.schema.write_postlude(out);
        proof {
            assert(out@ =~= old(out)@ + lib_netlist(sch, lib, self.kind, incs));
        }
        NetlistLibConversion { cells }
    }
}

/// A SPICE-like schema: buses are written bit by bit, each bit as its name followed by
/// the index between the two bus delimiters.
pub struct SpiceLikeSchema {
    /// The texts before and after a bus index.
    pub bus_delimiter: (String, String),
}

/// Bits `from..to` of bus `name`, separated by spaces, each as the name, `st`, the index
/// and `en`.
pub open spec fn bus_bits(name: Seq<char>, st: Seq<char>, en: Seq<char>, from: int, to: int) -> Seq<char>
    decreases to - from,
{
    if to <= from {
        seq![]
    } else {
        bus_bits(name, st, en, from, to - 1) + (if to - 1 > from {
            seq![' ']
        } else {
            seq![]
        }) + name + st + decimal((to - 1) as nat) + en
    }
}

/// The number of spaces in `s`.
pub open spec fn space_count(s: Seq<char>) -> nat
    decreases s.len(),
{
    if s.len() == 0 {
        0
    } else {
        space_count(s.drop_last()) + if s.last() == ' ' {
            1nat
        } else {
            0nat
        }
    }
}

/// Spaces in a concatenation are those of its parts.
proof fn lemma_space_count_add(a: Seq<char>, b: Seq<char>)
    ensures
        space_count(a + b) == space_count(a) + space_count(b),
    decreases b.len(),
{
    if b.len() == 0 {
        assert(a + b =~= a);
    } else {
        assert((a + b).drop_last() =~= a + b.drop_last());
        lemma_space_count_add(a, b.drop_last());
    }
}

/// Text without a space character counts no spaces.
proof fn lemma_space_count_none(s: Seq<char>)
    requires
        !s.contains(' '),
    ensures
        space_count(s) == 0,
    decreases s.len(),
{
    if s.len() > 0 {
        assert(s.last() == s[s.len() - 1]);
        assert(!s.drop_last().contains(' ')) by {
            if s.drop_last().contains(' ') {
                let i = choose|i: int| 0 <= i < s.drop_last().len() && s.drop_last()[i] == ' ';
                assert(s[i] == ' ');
            }
        }
        lemma_space_count_none(s.drop_last());
    }
}

/// Decimal digits hold no space.
proof fn lemma_decimal_no_space(n: nat)
    ensures
        space_count(decimal(n)) == 0,
    decreases n,
{
    let d: nat = if n < 10 { n } else { n % 10 };
    let one = seq![digit_char(d)];
    assert(one.drop_last() =~= Seq::<char>::empty());
    assert(space_count(Seq::<char>::empty()) == 0);
    assert(digit_char(d) != ' ');
    assert(space_count(one) == 0);
    if n >= 10 {
        lemma_decimal_no_space(n / 10);
        lemma_space_count_add(decimal(n / 10), one);
    }
}

/// The text of bit `i` of bus `name`: the name, `st`, the index and `en`.
pub open spec fn bus_bit(name: Seq<char>, st: Seq<char>, en: Seq<char>, i: int) -> Seq<char> {
    name + st + decimal(i as nat) + en
}

/// Bits `from..to` of a bus are written as the bits one by one, separated by single
/// spaces: where the bus name and delimiters hold no space, the text holds exactly
/// `to - from - 1` spaces, starts with bit `from` and ends with bit `to - 1`.
pub proof fn law_bus_bits_spaced(name: Seq<char>, st: Seq<char>, en: Seq<char>, from: int, to: int)
    requires
        0 <= from < to,
        !name.contains(' '),
        !st.contains(' '),
        !en.contains(' '),
    ensures
        space_count(bus_bits(name, st, en, from, to)) == to - from - 1,
        bus_bit(name, st, en, from).len() <= bus_bits(name, st, en, from, to).len(),
        bus_bits(name, st, en, from, to).take(bus_bit(name, st, en, from).len() as int) == bus_bit(
            name,
            st,
            en,
            from,
        ),
        bus_bits(name, st, en, from, to).skip(
            bus_bits(name, st, en, from, to).len() - bus_bit(name, st, en, to - 1).len(),
        ) == bus_bit(name, st, en, to - 1),
    decreases to - from,
{
    let b = bus_bit(name, st, en, to - 1);
    lemma_space_count_none(name);
    lemma_space_count_none(st);
    lemma_space_count_none(en);
    lemma_decimal_no_space((to - 1) as nat);
    lemma_space_count_add(name, st);
    lemma_space_count_add(name + st, decimal((to - 1) as nat));
    lemma_space_count_add(name + st + decimal((to - 1) as nat), en);
    assert(space_count(b) == 0);
    let whole = bus_bits(name, st, en, from, to);
    if to - 1 > from {
        law_bus_bits_spaced(name, st, en, from, to - 1);
        let prev = bus_bits(name, st, en, from, to - 1);
        assert(whole =~= prev + seq![' '] + b);
        lemma_space_count_add(prev, seq![' ']);
        lemma_space_count_add(prev + seq![' '], b);
        assert(seq![' '].drop_last() =~= Seq::<char>::empty());
        assert(space_count(Seq::<char>::empty()) == 0);
        assert(space_count(seq![' ']) == 1);
        let f = bus_bit(name, st, en, from);
        assert(prev.len() >= f.len());
        assert(whole.take(f.len() as int) =~= prev.take(f.len() as int));
    } else {
        assert(bus_bits(name, st, en, from, to - 1) =~= Seq::<char>::empty());
        assert(whole =~= b);
    }
    assert(whole.skip(whole.len() - b.len()) =~= b);
}

/// A SPICE-like schema writes a slice of bits `from..to` of a bus as that many bit names
/// separated by single spaces: with no space in the bus name or delimiters, its text
/// holds exactly `to - from - 1` spaces.
pub proof fn law_spice_slice_spaced(s: SpiceLikeSchema, name: Seq<char>, from: usize, to: usize)
    requires
        from < to,
        !name.contains(' '),
        !s.bus_delimiter.0@.contains(' '),
        !s.bus_delimiter.1@.contains(' '),
    ensures
        space_count(s.slice_text(name, Some((from, to)))) == to - from - 1,
{
    law_bus_bits_spaced(name, s.bus_delimiter.0@, s.bus_delimiter.1@, from as int, to as int);
}

/// The first `k` ports, each preceded by a space: a bus as its bits, one by one.
pub open spec fn ports_text(ports: Seq<(Seq<char>, Option<usize>)>, st: Seq<char>, en: Seq<char>, k: int) -> Seq<char>
    decreases k,
{
    if k <= 0 {
        seq![]
    } else {
        ports_text(ports, st, en, k - 1) + match ports[k - 1].1 {
            Some(w) => spaced_bits(ports[k - 1].0, st, en, w as int),
            None => seq![' '] + ports[k - 1].0,
        }
    }
}

/// Bits `0..w` of bus `name`, each preceded by a space.
pub open spec fn spaced_bits(name: Seq<char>, st: Seq<char>, en: Seq<char>, w: int) -> Seq<char>
    decreases w,
{
    if w <= 0 {
        seq![]
    } else {
        spaced_bits(name, st, en, w - 1) + seq![' '] + name + st + decimal((w - 1) as nat) + en
    }
}

/// The first `k` texts, each preceded by a space.
pub open spec fn spaced(v: Seq<Seq<char>>, k: int) -> Seq<char>
    decreases k,
{
    if k <= 0 {
        seq![]
    } else {
        spaced(v, k - 1) + seq![' '] + v[k - 1]
    }
}

/// The texts connected to the first `k` ports, in the order given, each preceded by a space.
pub open spec fn spaced_conns(v: Seq<(Seq<char>, Seq<Seq<char>>)>, k: int) -> Seq<char>
    decreases k,
{
    if k <= 0 {
        seq![]
    } else {
        spaced_conns(v, k - 1) + spaced(v[k - 1].1, v[k - 1].1.len() as int)
    }
}

/// Appends each text of `v`, preceded by a space, to `out`.
fn push_spaced(out: &mut String, v: &Vec<String>)
    ensures
        final(out)@ == old(out)@ + spaced(texts(v@), v@.len() as int),
{
    let ghost o = out@;
    let mut k: usize = 0;
    while k < v.len()
        invariant
            k <= v@.len(),
            out@ == o + spaced(texts(v@), k as int),
        decreases v@.len() - k,
    {
        proof {
            reveal_strlit(" ");
        }
        out.append(" ");
        out.append(v[k].as_str());
        proof {
            assert(texts(v@)[k as int] == v@[k as int]@);
            assert(out@ =~= o + spaced(texts(v@), k + 1));
        }
        k = k + 1;
    }
}

/// Appends bits `0..w` of bus `name`, each preceded by a space, to `out`.
fn push_spaced_bits(out: &mut String, name: &String, st: &String, en: &String, w: usize)
    ensures
        final(out)@ == old(out)@ + spaced_bits(name@, st@, en@, w as int),
{
    let ghost o = out@;
    let mut i: usize = 0;
    while i < w
        invariant
            i <= w,
            out@ == o + spaced_bits(name@, st@, en@, i as int),
        decreases w - i,
    {
        proof {
            reveal_strlit(" ");
        }
        out.append(" ");
        out.append(name.as_str());
        out.append(st.as_str());
        push_decimal(out, i as u64);
        out.append(en.as_str());
        assert(out@ =~= o + spaced_bits(name@, st@, en@, i + 1));
        i = i + 1;
    }
}

/// Whether byte string `a` comes before `b` in lexicographic order.
pub open spec fn bytes_less(a: Seq<u8>, b: Seq<u8>) -> bool
    decreases a.len(),
{
    if b.len() == 0 {
        false
    } else if a.len() == 0 {
        true
    } else if a[0] < b[0] {
        true
    } else if a[0] > b[0] {
        false
    } else {
        bytes_less(a.drop_first(), b.drop_first())
    }
}

/// Whether text `a` comes before `b` in the order of strings: that of their UTF-8 bytes.
pub open spec fn name_less(a: Seq<char>, b: Seq<char>) -> bool {
    bytes_less(encode_utf8(a), encode_utf8(b))
}

/// Whether `a` comes before `b` in the order of strings.
fn str_less(a: &String, b: &String) -> (r: bool)
    ensures
        r == name_less(a@, b@),
{
    let x = a.as_str().as_bytes();
    let y = b.as_str().as_bytes();
    let ghost xs = x@;
    let ghost ys = y@;
    let mut i: usize = 0;
    assert(xs.skip(0) =~= xs);
    assert(ys.skip(0) =~= ys);
    loop
        invariant
            xs == x@,
            ys == y@,
            xs == encode_utf8(a@),
            ys == encode_utf8(b@),
            i <= xs.len(),
            i <= ys.len(),
            bytes_less(xs, ys) == bytes_less(xs.skip(i as int), ys.skip(i as int)),
        decreases xs.len() - i,
    {
        if i == x.len() || i == y.len() {
            proof {
                assert(xs.skip(i as int).len() == xs.len() - i);
            }
            return i < y.len();
        }
        if x[i] != y[i] {
            return x[i] < y[i];
        }
        proof {
            assert(xs.skip(i as int).drop_first() =~= xs.skip(i + 1));
            assert(ys.skip(i as int).drop_first() =~= ys.skip(i + 1));
        }
        i = i + 1;
    }
}

/// Inserts `x` into `t` after every entry whose name does not come after the name of `x`,
/// scanning from the end: one step of a stable insertion sort by name.
pub open spec fn insert_by_name(t: Seq<(Seq<char>, Seq<Seq<char>>)>, x: (Seq<char>, Seq<Seq<char>>)) -> Seq<
    (Seq<char>, Seq<Seq<char>>),
>
    decreases t.len(),
{
    if t.len() == 0 {
        seq![x]
    } else if name_less(x.0, t.last().0) {
        insert_by_name(t.drop_last(), x).push(t.last())
    } else {
        t.push(x)
    }
}

/// Connections stably sorted by port name.
pub open spec fn sort_by_name(s: Seq<(Seq<char>, Seq<Seq<char>>)>) -> Seq<(Seq<char>, Seq<Seq<char>>)>
    decreases s.len(),
{
    if s.len() == 0 {
        seq![]
    } else {
        insert_by_name(sort_by_name(s.drop_last()), s.last())
    }
}

/// Inserting after the first `i` entries of `t` where the entries from `i` on all come
/// after `x`.
proof fn lemma_insert_by_name_split(t: Seq<(Seq<char>, Seq<Seq<char>>)>, x: (Seq<char>, Seq<Seq<char>>), i: int)
    requires
        0 <= i <= t.len(),
        forall|j: int| i <= j < t.len() ==> name_less(x.0, (#[trigger] t[j]).0),
    ensures
        insert_by_name(t, x) == insert_by_name(t.take(i), x) + t.skip(i),
    decreases t.len() - i,
{
    if i < t.len() {
        let t0 = t.drop_last();
        assert forall|j: int| i <= j < t0.len() implies name_less(x.0, (#[trigger] t0[j]).0) by {
            assert(t0[j] == t[j]);
        }
        lemma_insert_by_name_split(t0, x, i);
        assert(t0.take(i) =~= t.take(i));
        assert(t.skip(i) =~= t0.skip(i).push(t.last()));
        assert(insert_by_name(t, x) == insert_by_name(t0, x).push(t.last()));
        assert((insert_by_name(t.take(i), x) + t0.skip(i)).push(t.last()) =~= insert_by_name(t.take(i), x)
            + t.skip(i));
    } else {
        assert(t.take(i) =~= t);
        assert(t.skip(i) =~= Seq::<(Seq<char>, Seq<Seq<char>>)>::empty());
        assert(insert_by_name(t, x) + t.skip(i) =~= insert_by_name(t, x));
    }
}

/// Sorting keeps the number of connections.
proof fn lemma_sort_by_name_len(s: Seq<(Seq<char>, Seq<Seq<char>>)>)
    ensures
        sort_by_name(s).len() == s.len(),
    decreases s.len(),
{
    if s.len() > 0 {
        lemma_sort_by_name_len(s.drop_last());
        lemma_insert_by_name_len(sort_by_name(s.drop_last()), s.last());
    }
}

/// Insertion adds one connection.
proof fn lemma_insert_by_name_len(t: Seq<(Seq<char>, Seq<Seq<char>>)>, x: (Seq<char>, Seq<Seq<char>>))
    ensures
        insert_by_name(t, x).len() == t.len() + 1,
    decreases t.len(),
{
    if t.len() > 0 && name_less(x.0, t.last().0) {
        lemma_insert_by_name_len(t.drop_last(), x);
    }
}

/// The positions of `c` in the order of their port names, stably.
fn order_by_name(c: &Vec<(String, Vec<String>)>) -> (r: Vec<usize>)
    ensures
        r@.len() == c@.len(),
        forall|k: int| 0 <= k < r@.len() ==> (#[trigger] r@[k]) < c@.len(),
        r@.map_values(|j: usize| conn_texts(c@)[j as int]) == sort_by_name(conn_texts(c@)),
{
    let ghost cv = conn_texts(c@);
    let mut r: Vec<usize> = Vec::new();
    let mut k: usize = 0;
    assert(r@.map_values(|j: usize| cv[j as int]) =~= sort_by_name(cv.take(0)));
    while k < c.len()
        invariant
            cv == conn_texts(c@),
            k <= c@.len(),
            r@.len() == k,
            forall|m: int| 0 <= m < r@.len() ==> (#[trigger] r@[m]) < c@.len(),
            r@.map_values(|j: usize| cv[j as int]) == sort_by_name(cv.take(k as int)),
        decreases c@.len() - k,
    {
        let ghost t = r@.map_values(|j: usize| cv[j as int]);
        let ghost x = cv[k as int];
        let mut i: usize = r.len();
        loop
            invariant
                cv == conn_texts(c@),
                k < c@.len(),
                x == cv[k as int],
                t == r@.map_values(|j: usize| cv[j as int]),
                forall|m: int| 0 <= m < r@.len() ==> (#[trigger] r@[m]) < c@.len(),
                i <= r@.len(),
                forall|j: int| i <= j < t.len() ==> name_less(x.0, (#[trigger] t[j]).0),
            ensures
                i <= r@.len(),
                forall|j: int| i <= j < t.len() ==> name_less(x.0, (#[trigger] t[j]).0),
                i == 0 || !name_less(x.0, t[i - 1].0),
            decreases i,
        {
            if i == 0 {
                break;
            }
            assert(cv[r@[i - 1] as int].0 == c@[r@[i - 1] as int].0@);
            assert(x.0 == c@[k as int].0@);
            assert(t[i - 1] == cv[r@[i - 1] as int]);
            if !str_less(&c[k].0, &c[r[i - 1]].0) {
                break;
            }
            i = i - 1;
        }
        proof {
            lemma_insert_by_name_split(t, x, i as int);
            if i > 0 {
                assert(!name_less(x.0, t[i - 1].0));
                assert(t.take(i as int).last() == t[i - 1]);
                assert(t.take(i as int).drop_last() =~= t.take(i - 1));
            }
            assert(insert_by_name(t.take(i as int), x) == t.take(i as int).push(x));
        }
        let ghost before = r@;
        r.insert(i, k);
        proof {
            assert(r@.map_values(|j: usize| cv[j as int]) =~= t.take(i as int).push(x) + t.skip(i as int));
            assert(cv.take(k + 1).drop_last() =~= cv.take(k as int));
            assert(cv.take(k + 1).last() == x);
        }
        k = k + 1;
    }
    assert(cv.take(k as int) =~= cv);
    r
}

impl HasSpiceLikeNetlist for SpiceLikeSchema {
    open spec fn prelude_text(&self) -> Seq<char> {
        seq![]
    }

    open spec fn include_text(&self, path: Seq<char>, section: Option<Seq<char>>) -> Seq<char> {
        match section {
            Some(sec) => ".LIB \""@ + path + "\" "@ + sec,
            None => ".INCLUDE \""@ + path + "\""@,
        }
    }

    open spec fn start_subckt_text(&self, name: Seq<char>, ports: Seq<(Seq<char>, Option<usize>)>) -> Seq<char> {
        ".SUBCKT "@ + name + ports_text(ports, self.bus_delimiter.0@, self.bus_delimiter.1@, ports.len() as int)
    }

    open spec fn end_subckt_text(&self, name: Seq<char>) -> Seq<char> {
        ".ENDS "@ + name
    }

    open spec fn instance_text(&self, name: Seq<char>, conns: Seq<Seq<char>>, child: Seq<char>) -> Seq<char> {
        name + spaced(conns, conns.len() as int) + seq![' '] + child
    }

    open spec fn instance_name(&self, name: Seq<char>, conns: Seq<Seq<char>>, child: Seq<char>) -> Seq<char> {
        name
    }

    open spec fn primitive_inst_text(
        &self,
        name: Seq<char>,
        conns: Seq<(Seq<char>, Seq<Seq<char>>)>,
        prim: Seq<char>,
    ) -> Seq<char> {
        name + spaced_conns(sort_by_name(conns), conns.len() as int) + seq![' '] + prim
    }

    open spec fn primitive_inst_name(
        &self,
        name: Seq<char>,
        conns: Seq<(Seq<char>, Seq<Seq<char>>)>,
        prim: Seq<char>,
    ) -> Seq<char> {
        name
    }

    open spec fn primitive_subckt_text(&self, prim: Seq<char>) -> Seq<char> {
        seq![]
    }

    open spec fn slice_text(&self, name: Seq<char>, range: Option<(usize, usize)>) -> Seq<char> {
        match range {
            Some((from, to)) => bus_bits(name, self.bus_delimiter.0@, self.bus_delimiter.1@, from as int, to as int),
            None => name,
        }
    }

    open spec fn postlude_text(&self) -> Seq<char> {
        seq![]
    }

    fn write_prelude(&self, out: &mut String) {
        assert(out@ =~= old(out)@ + self.prelude_text());
    }

    fn write_include(&self, out: &mut String, inc: &Include) {
        proof {
            reveal_strlit(".LIB \"");
            reveal_strlit("\" ");
            reveal_strlit(".INCLUDE \"");
            reveal_strlit("\"");
        }
        match &inc.section {
            Some(sec) => {
                out.append(".LIB \"");
                out.append(inc.path.as_str());
                out.append("\" ");
                out.append(sec.as_str());
            },
            None => {
                out.append(".INCLUDE \"");
                out.append(inc.path.as_str());
                out.append("\"");
            },
        }
        assert(out@ =~= old(out)@ + self.include_text(inc.path@, opt_text(inc.section)));
    }

    fn write_start_subckt(&self, out: &mut String, name: &String, ports: &Vec<SignalInfo>) {
        proof {
            reveal_strlit(".SUBCKT ");
            reveal_strlit(" ");
        }
        out.append(".SUBCKT ");
        out.append(name.as_str());
        let ghost o = out@;
        let ghost pv = infos(ports@);
        let mut k: usize = 0;
        while k < ports.len()
            invariant
                k <= ports@.len(),
                pv == infos(ports@),
                out@ == o + ports_text(pv, self.bus_delimiter.0@, self.bus_delimiter.1@, k as int),
            decreases ports@.len() - k,
        {
            let ghost ok = out@;
            match ports[k].width {
                Some(w) => {
                    push_spaced_bits(out, &ports[k].name, &self.bus_delimiter.0, &self.bus_delimiter.1, w);
                },
                None => {
                    proof {
                        reveal_strlit(" ");
                    }
                    out.append(" ");
                    out.append(ports[k].name.as_str());
                },
            }
            assert(pv[k as int] == (ports@[k as int].name@, ports@[k as int].width));
            assert(out@ =~= o + ports_text(pv, self.bus_delimiter.0@, self.bus_delimiter.1@, k + 1));
            k = k + 1;
        }
        assert(out@ =~= old(out)@ + self.start_subckt_text(name@, infos(ports@)));
    }

    fn write_end_subckt(&self, out: &mut String, name: &String) {
        proof {
            reveal_strlit(".ENDS ");
        }
        out.append(".ENDS ");
        out.append(name.as_str());
        assert(out@ =~= old(out)@ + self.end_subckt_text(name@));
    }

    fn write_instance(&self, out: &mut String, name: &String, connections: &Vec<String>, child: &String) -> (r: String) {
        proof {
            reveal_strlit(" ");
        }
        out.append(name.as_str());
        push_spaced(out, connections);
        out.append(" ");
        out.append(child.as_str());
        assert(out@ =~= old(out)@ + self.instance_text(name@, texts(connections@), child@));
        name.clone()
    }

    fn write_primitive_inst(
        &self,
        out: &mut String,
        name: &String,
        connections: &Vec<(String, Vec<String>)>,
        primitive: &String,
    ) -> (r: String) {
        proof {
            reveal_strlit(" ");
        }
        out.append(name.as_str());
        let ghost o = out@;
        let ghost cv = conn_texts(connections@);
        let order = order_by_name(connections);
        let ghost sv = sort_by_name(cv);
        proof {
            lemma_sort_by_name_len(cv);
        }
        let mut k: usize = 0;
        while k < order.len()
            invariant
                k <= order@.len(),
                cv == conn_texts(connections@),
                order@.len() == connections@.len(),
                forall|m: int| 0 <= m < order@.len() ==> (#[trigger] order@[m]) < connections@.len(),
                order@.map_values(|j: usize| cv[j as int]) == sv,
                out@ == o + spaced_conns(sv, k as int),
            decreases order@.len() - k,
        {
            let j = order[k];
            push_spaced(out, &connections[j].1);
            proof {
                assert(sv[k as int] == cv[j as int]);
                assert(cv[j as int].1 == texts(connections@[j as int].1@));
                assert(out@ =~= o + spaced_conns(sv, k + 1));
            }
            k = k + 1;
        }
        out.append(" ");
        out.append(primitive.as_str());
        assert(out@ =~= old(out)@ + self.primitive_inst_text(name@, conn_texts(connections@), primitive@));
        name.clone()
    }

    fn write_primitive_subckt(&self, out: &mut String, primitive: &String) {
        assert(out@ =~= old(out)@ + self.primitive_subckt_text(primitive@));
    }

    fn write_slice(&self, out: &mut String, slice: Slice, info: &SignalInfo) {
        match slice.range {
            Some((from, to)) => {
                let ghost o = out@;
                let mut i: usize = from;
                assert(out@ =~= o + bus_bits(info.name@, self.bus_delimiter.0@, self.bus_delimiter.1@, from as int, from as int));
                while i < to
                    invariant
                        from <= i,
                        i <= to || i == from,
                        out@ == o + bus_bits(info.name@, self.bus_delimiter.0@, self.bus_delimiter.1@, from as int, i as int),
                    decreases to - i,
                {
                    proof {
                        reveal_strlit(" ");
                    }
                    if i > from {
                        out.append(" ");
                    }
                    out.append(info.name.as_str());
                    out.append(self.bus_delimiter.0.as_str());
                    push_decimal(out, i as u64);
                    out.append(self.bus_delimiter.1.as_str());
                    assert(out@ =~= o + bus_bits(info.name@, self.bus_delimiter.0@, self.bus_delimiter.1@, from as int, i + 1));
                    i = i + 1;
                }
                proof {
                    if to < from {
                        assert(bus_bits(info.name@, self.bus_delimiter.0@, self.bus_delimiter.1@, from as int, to as int) =~= seq![]);
                        assert(bus_bits(info.name@, self.bus_delimiter.0@, self.bus_delimiter.1@, from as int, from as int) =~= seq![]);
                    }
                }
                assert(out@ =~= old(out)@ + self.slice_text(info.name@, slice.range));
            },
            None => {
                out.append(info.name.as_str());
            },
        }
    }

    fn write_postlude(&self, out: &mut String) {
        assert(out@ =~= old(out)@ + self.postlude_text());
    }
}

} // verus!
