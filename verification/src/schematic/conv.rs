//! Conversion of raw schematic cells to library cells.
use crate::io::{Node, Port};
use crate::scir;
use crate::scir::{conn_of, CellId, ChildId, DecimalValue, Instance, LibraryBuilder, Slice, SliceOne};
use crate::text::{decimal, push_decimal};
use vstd::prelude::*;

verus! {

/// An instance in a raw cell: the index of the instantiated cell among the raw cells,
/// and the nodes connected to its ports, in the order of the child's ports.
pub struct RawInstance {
    /// The instantiated cell.
    pub child: usize,
    /// The nodes connected to the child's ports.
    pub connections: Vec<Node>,
}

/// A primitive device in a raw cell.
pub enum PrimitiveDevice {
    /// A two-terminal resistor of resistance `value` between `pos` and `neg`.
    Res2 {
        /// The positive terminal.
        pos: Node,
        /// The negative terminal.
        neg: Node,
        /// The resistance.
        value: DecimalValue,
    },
    /// An instance of an outside cell named `cell`, with its ports connected to `ports`
    /// and its parameters set to `params`.
    RawInstance {
        /// The nodes connected to the ports.
        ports: Vec<Node>,
        /// The name of the instantiated cell.
        cell: String,
        /// The instance's parameters, by name.
        params: Vec<(String, DecimalValue)>,
    },
}

/// The contents of a raw cell.
pub enum RawContents {
    /// Opaque text, for a blackbox.
    Opaque(String),
    /// Instances and primitive devices.
    Clear {
        /// The instances.
        instances: Vec<RawInstance>,
        /// The primitive devices.
        primitives: Vec<PrimitiveDevice>,
    },
}

/// A schematic cell as it was built: its nodes, grouped into classes of connected nodes
/// that each have a root, the names of the roots, its ports and its contents.
pub struct RawCell {
    /// The cell's name.
    pub name: String,
    /// Each node with the root of its class, in the order the cell's node map is walked.
    pub roots: Vec<(Node, Node)>,
    /// The name of each root node.
    pub node_names: Vec<(Node, String)>,
    /// The ports, in order.
    pub ports: Vec<Port>,
    /// The contents.
    pub contents: RawContents,
}

/// The last position of `s` whose key is `k`, if any.
pub open spec fn last_idx<V>(s: Seq<(Node, V)>, k: Node) -> Option<int>
    decreases s.len(),
{
    if s.len() == 0 {
        None
    } else if s.last().0 == k {
        Some(s.len() - 1)
    } else {
        last_idx(s.drop_last(), k)
    }
}

/// The value last recorded for key `k` in `s`, if any.
pub open spec fn lookup<V>(s: Seq<(Node, V)>, k: Node) -> Option<V> {
    match last_idx(s, k) {
        Some(i) => Some(s[i].1),
        None => None,
    }
}

/// A position found by `last_idx` holds the key.
proof fn lemma_last_idx<V>(s: Seq<(Node, V)>, k: Node)
    ensures
        last_idx(s, k) matches Some(i) ==> 0 <= i < s.len() && s[i].0 == k,
    decreases s.len(),
{
    if s.len() > 0 && s.last().0 != k {
        lemma_last_idx(s.drop_last(), k);
    }
}

/// Recording a pair records its value for its key and keeps every other key's value.
proof fn lemma_last_idx_push<V>(s: Seq<(Node, V)>, p: (Node, V), k: Node)
    ensures
        last_idx(s.push(p), k) == (if p.0 == k {
            Some(s.len() as int)
        } else {
            last_idx(s, k)
        }),
        lookup(s.push(p), k) == (if p.0 == k {
            Some(p.1)
        } else {
            lookup(s, k)
        }),
{
    assert(s.push(p).drop_last() =~= s);
    lemma_last_idx(s, k);
}

/// The root of node `n` in cell `c`.
pub open spec fn root_of(c: &RawCell, n: Node) -> Node {
    c.roots@[last_idx(c.roots@, n)->0].1
}

/// Node `n` of cell `c` has a root, and that root has a name.
pub open spec fn node_named(c: &RawCell, n: Node) -> bool {
    last_idx(c.roots@, n) is Some && last_idx(c.node_names@, root_of(c, n)) is Some
}

/// The name of node `n` of cell `c`: the name of its root.
pub open spec fn node_name(c: &RawCell, n: Node) -> Seq<char> {
    c.node_names@[last_idx(c.node_names@, root_of(c, n))->0].1@
}

/// The walk over the first `k` pairs of the node map of `c`: the names of the signals
/// made so far (one per root, in the order roots are first met), the roots met, and the
/// signal recorded for each node (later records for a node replace earlier ones).
pub open spec fn walk(c: &RawCell, k: int) -> (Seq<Seq<char>>, Seq<Node>, Seq<(Node, usize)>)
    decreases k,
{
    if k <= 0 {
        (Seq::empty(), Seq::empty(), Seq::empty())
    } else {
        let w = walk(c, k - 1);
        let src = c.roots@[k - 1].0;
        let root = c.roots@[k - 1].1;
        if w.1.contains(root) {
            (w.0, w.1, w.2.push((src, lookup(w.2, root)->0)))
        } else {
            let s = w.0.len() as usize;
            (w.0.push(node_name(c, root)), w.1.push(root), w.2.push((root, s)).push((src, s)))
        }
    }
}

/// The signal of each node of `c` once its whole node map is walked.
pub open spec fn node_signals(c: &RawCell) -> Seq<(Node, usize)> {
    walk(c, c.roots@.len() as int).2
}

/// The signal of node `n` of `c`.
pub open spec fn signal_of(c: &RawCell, n: Node) -> usize {
    lookup(node_signals(c), n)->0
}

/// Node `n` of `c` has a signal.
pub open spec fn has_signal(c: &RawCell, n: Node) -> bool {
    lookup(node_signals(c), n) is Some
}

/// What instance `inst` of `c` connects: for each port of its child, in order, the
/// port's name and the signal of the node connected to it.
pub open spec fn inst_pairs(c: &RawCell, child: &RawCell, conns: Seq<Node>) -> Seq<
    (Seq<char>, Seq<Slice>),
> {
    Seq::new(
        conns.len(),
        |j: int|
            (
                node_name(child, child.ports@[j].node),
                seq![Slice { signal: signal_of(c, conns[j]), range: None }],
            ),
    )
}

/// The slices last connected to port `q` in `s`, if any.
pub open spec fn last_conn(s: Seq<(Seq<char>, Seq<Slice>)>, q: Seq<char>) -> Option<Seq<Slice>>
    decreases s.len(),
{
    if s.len() == 0 {
        None
    } else if s.last().0 == q {
        Some(s.last().1)
    } else {
        last_conn(s.drop_last(), q)
    }
}

/// The name of the `i`th instance of a converted cell.
pub open spec fn inst_name(i: int) -> Seq<char> {
    seq!['x', 'i', 'n', 's', 't'] + decimal(i as nat)
}

/// `x` is the conversion of instance `inst`, the `i`th of cell `c`: named after its
/// position, instantiating the library cell of its child, with each port of the child
/// connected to the signal of the node connected to it.
pub open spec fn inst_converted(
    x: Instance,
    raws: Seq<RawCell>,
    c: &RawCell,
    ids: Seq<Option<usize>>,
    inst: &RawInstance,
    i: int,
) -> bool {
    &&& x.name_spec() == inst_name(i)
    &&& x.child_spec() == ChildId::Cell(CellId(ids[inst.child as int]->0))
    &&& forall|q: Seq<char>|
        #![trigger conn_of(x.conns(), q)]
        conn_of(x.conns(), q) == last_conn(
            inst_pairs(c, &raws[inst.child as int], inst.connections@),
            q,
        )
}

/// Parameters as names and values.
pub open spec fn params_view(ps: Seq<(String, DecimalValue)>) -> Seq<(Seq<char>, DecimalValue)> {
    ps.map_values(|p: (String, DecimalValue)| (p.0@, p.1))
}

/// `p` is the conversion of primitive device `d` of cell `c`: the same device on the
/// signals of its nodes.
pub open spec fn prim_converted(p: scir::PrimitiveDevice, c: &RawCell, d: &PrimitiveDevice) -> bool {
    match d {
        PrimitiveDevice::Res2 { pos, neg, value } => p == scir::PrimitiveDevice::Res2 {
            pos: SliceOne(signal_of(c, *pos)),
            neg: SliceOne(signal_of(c, *neg)),
            value: *value,
        },
        PrimitiveDevice::RawInstance { ports, cell, params } => {
            &&& p matches scir::PrimitiveDevice::RawInstance { ports: ps, cell: name, params: qs }
            &&& name@ == cell@
            &&& ps@ == ports@.map_values(|n: Node| SliceOne(signal_of(c, n)))
            &&& params_view(qs@) == params_view(params@)
        },
    }
}

/// Cell `idx` of `raws` can be converted once its children are: every root of its node
/// map has a name, every node that a port, instance or device uses has a signal, every
/// instance's child is a cell of `raws` and gets a node for each of its ports, and those
/// ports have names.
pub open spec fn cell_ok(raws: Seq<RawCell>, idx: int) -> bool {
    let c = &raws[idx];
    &&& forall|k: int| 0 <= k < c.roots@.len() ==> node_named(c, (#[trigger] c.roots@[k]).1)
    &&& forall|k: int| 0 <= k < c.ports@.len() ==> has_signal(c, (#[trigger] c.ports@[k]).node)
    &&& c.contents matches RawContents::Clear { instances, primitives } ==> {
        &&& forall|i: int|
            0 <= i < instances@.len() ==> {
                let inst = #[trigger] instances@[i];
                let child = &raws[inst.child as int];
                &&& inst.child < raws.len()
                &&& child.ports@.len() == inst.connections@.len()
                &&& forall|j: int|
                    0 <= j < child.ports@.len() ==> node_named(
                        child,
                        (#[trigger] child.ports@[j]).node,
                    ) && has_signal(c, inst.connections@[j])
            }
        &&& forall|k: int|
            0 <= k < primitives@.len() ==> match #[trigger] primitives@[k] {
                PrimitiveDevice::Res2 { pos, neg, value } => has_signal(c, pos) && has_signal(c, neg),
                PrimitiveDevice::RawInstance { ports, cell, params } => forall|j: int|
                    0 <= j < ports@.len() ==> has_signal(c, #[trigger] ports@[j]),
            }
    }
}

/// Every child of cell `idx` of `raws` has a library cell in `ids`.
pub open spec fn children_done(raws: Seq<RawCell>, idx: int, ids: Seq<Option<usize>>) -> bool {
    raws[idx].contents matches RawContents::Clear { instances, primitives } ==> forall|i: int|
        0 <= i < instances@.len() ==> (#[trigger] instances@[i]).child < ids.len()
            && ids[instances@[i].child as int] is Some
}

/// Cell `idx` of `raws` can be converted given the library cells `ids` of the cells
/// converted so far.
pub open spec fn convertible(raws: Seq<RawCell>, idx: int, ids: Seq<Option<usize>>) -> bool {
    cell_ok(raws, idx) && children_done(raws, idx, ids)
}

/// `r` is the conversion of cell `idx` of `raws`, given the library cells `ids` of its
/// children: its name; a signal for each root of its node map, named after the root,
/// in the order roots are first met; ports exposing the signals of their nodes; and for
/// a blackbox its contents, otherwise its converted instances and primitive devices.
pub open spec fn is_conversion(r: scir::Cell, raws: Seq<RawCell>, idx: int, ids: Seq<Option<usize>>) -> bool {
    let c = &raws[idx];
    &&& r.wf()
    &&& r.name_spec() == c.name@
    &&& r.signal_names() == walk(c, c.roots@.len() as int).0
    &&& forall|i: int| 0 <= i < r.signal_widths().len() ==> (#[trigger] r.signal_widths()[i]) is None
    &&& r.port_signals() == c.ports@.map_values(|p: Port| signal_of(c, p.node))
    &&& match c.contents {
        RawContents::Opaque(s) => {
            &&& r.blackbox_contents() == Some(s@)
            &&& r.instance_list().len() == 0
            &&& r.primitive_list().len() == 0
        },
        RawContents::Clear { instances, primitives } => {
            &&& r.blackbox_contents() is None
            &&& r.instance_list().len() == instances@.len()
            &&& forall|i: int|
                0 <= i < instances@.len() ==> inst_converted(
                    #[trigger] r.instance_list()[i],
                    raws,
                    c,
                    ids,
                    &instances@[i],
                    i,
                )
            &&& r.primitive_list().len() == primitives@.len()
            &&& forall|k: int|
                0 <= k < primitives@.len() ==> prim_converted(
                    #[trigger] r.primitive_list()[k],
                    c,
                    &primitives@[k],
                )
        },
    }
}

/// The last position of `s` whose key is `k`, if any.
fn find_last<V>(s: &Vec<(Node, V)>, k: Node) -> (r: Option<usize>)
    ensures
        r matches Some(i) ==> last_idx(s@, k) == Some(i as int) && i < s@.len() && s@[i as int].0 == k,
        r is None ==> last_idx(s@, k) is None,
{
    let mut r: Option<usize> = None;
    let mut i: usize = 0;
    while i < s.len()
        invariant
            i <= s@.len(),
            r matches Some(j) ==> last_idx(s@.take(i as int), k) == Some(j as int),
            r is None ==> last_idx(s@.take(i as int), k) is None,
        decreases s.len() - i,
    {
        assert(s@.take(i + 1).drop_last() =~= s@.take(i as int));
        if s[i].0 == k {
            r = Some(i);
        }
        i = i + 1;
    }
    assert(s@.take(s@.len() as int) =~= s@);
    proof {
        lemma_last_idx(s@, k);
    }
    r
}

/// The name of node `n` of `c`.
fn node_name_of(c: &RawCell, n: Node) -> (r: &str)
    requires
        node_named(c, n),
    ensures
        r@ == node_name(c, n),
{
    let i = find_last(&c.roots, n).unwrap();
    let root = c.roots[i].1;
    let j = find_last(&c.node_names, root).unwrap();
    c.node_names[j].1.as_str()
}

/// The signal of node `n`, given the signals recorded so far.
fn signal_in(nodes: &Vec<(Node, usize)>, n: Node) -> (r: usize)
    requires
        lookup(nodes@, n) is Some,
    ensures
        r == lookup(nodes@, n)->0,
{
    let i = find_last(nodes, n).unwrap();
    nodes[i].1
}

/// Whether `added` holds `n`.
fn holds_node(added: &Vec<Node>, n: Node) -> (r: bool)
    ensures
        r == added@.contains(n),
{
    let mut i: usize = 0;
    while i < added.len()
        invariant
            i <= added@.len(),
            forall|j: int| 0 <= j < i ==> added@[j] != n,
        decreases added.len() - i,
    {
        if added[i] == n {
            return true;
        }
        i = i + 1;
    }
    false
}

/// Converts the `i`th instance `inst` of cell `c`, whose child is the library cell `cid`.
fn convert_instance(
    raws: &Vec<RawCell>,
    c: &RawCell,
    nodes: &Vec<(Node, usize)>,
    inst: &RawInstance,
    cid: usize,
    i: usize,
) -> (r: Instance)
    requires
        nodes@ == node_signals(c),
        inst.child < raws@.len(),
        raws@[inst.child as int].ports@.len() == inst.connections@.len(),
        forall|j: int|
            0 <= j < raws@[inst.child as int].ports@.len() ==> node_named(
                &raws@[inst.child as int],
                (#[trigger] raws@[inst.child as int].ports@[j]).node,
            ) && has_signal(c, inst.connections@[j]),
    ensures
        r.name_spec() == inst_name(i as int),
        r.child_spec() == ChildId::Cell(CellId(cid)),
        forall|q: Seq<char>|
            #![trigger conn_of(r.conns(), q)]
            conn_of(r.conns(), q) == last_conn(
                inst_pairs(c, &raws@[inst.child as int], inst.connections@),
                q,
            ),
{
    let child = &raws[inst.child];
    let ghost pairs = inst_pairs(c, &raws@[inst.child as int], inst.connections@);
    let mut name = String::new();
    proof {
        reveal_strlit("xinst");
    }
    name.append("xinst");
    push_decimal(&mut name, i as u64);
    assert(name@ =~= inst_name(i as int));
    let mut x = Instance::new(name.as_str(), ChildId::Cell(CellId(cid)));
    proof {
        assert forall|q: Seq<char>| #![trigger conn_of(x.conns(), q)]
            conn_of(x.conns(), q) == last_conn(pairs.take(0), q) by {
            assert(x.conns() =~= Seq::<(Seq<char>, Seq<Slice>)>::empty());
            assert(pairs.take(0).len() == 0);
        }
    }
    let mut j: usize = 0;
    while j < child.ports.len()
        invariant
            j <= child.ports@.len(),
            child == &raws@[inst.child as int],
            child.ports@.len() == inst.connections@.len(),
            nodes@ == node_signals(c),
            pairs == inst_pairs(c, child, inst.connections@),
            forall|k: int|
                0 <= k < child.ports@.len() ==> node_named(child, (#[trigger] child.ports@[k]).node)
                    && has_signal(c, inst.connections@[k]),
            x.name_spec() == inst_name(i as int),
            x.child_spec() == ChildId::Cell(CellId(cid)),
            forall|q: Seq<char>|
                #![trigger conn_of(x.conns(), q)]
                conn_of(x.conns(), q) == last_conn(pairs.take(j as int), q),
        decreases child.ports.len() - j,
    {
        assert(node_named(child, child.ports@[j as int].node));
        let pname = node_name_of(child, child.ports[j].node);
        let conn = inst.connections[j];
        let s = signal_in(nodes, conn);
        let mut parts: Vec<Slice> = Vec::new();
        parts.push(Slice::from_one(SliceOne(s)));
        let ghost before = x.conns();
        let ghost pv = parts@;
        x.connect(pname, parts);
        proof {
            assert(pairs.take(j + 1).drop_last() =~= pairs.take(j as int));
            assert(pairs[j as int].0 == pname@);
            assert(pv =~= pairs[j as int].1);
            assert forall|q: Seq<char>| #![trigger conn_of(x.conns(), q)]
                conn_of(x.conns(), q) == last_conn(pairs.take(j + 1), q) by {
                assert(pairs.take(j + 1).last() == pairs[j as int]);
                if q != pname@ {
                    assert(conn_of(x.conns(), q) == conn_of(before, q));
                }
            }
        }
        j = j + 1;
    }
    assert(pairs.take(pairs.len() as int) =~= pairs);
    x
}

/// Converts primitive device `d` of cell `c`.
fn convert_primitive(c: &RawCell, nodes: &Vec<(Node, usize)>, d: &PrimitiveDevice) -> (r:
    scir::PrimitiveDevice)
    requires
        nodes@ == node_signals(c),
        match d {
            PrimitiveDevice::Res2 { pos, neg, value } => has_signal(c, *pos) && has_signal(c, *neg),
            PrimitiveDevice::RawInstance { ports, cell, params } => forall|j: int|
                0 <= j < ports@.len() ==> has_signal(c, #[trigger] ports@[j]),
        },
    ensures
        prim_converted(r, c, d),
{
    match d {
        PrimitiveDevice::Res2 { pos, neg, value } => {
            let p = signal_in(nodes, *pos);
            let n = signal_in(nodes, *neg);
            scir::PrimitiveDevice::Res2 { pos: SliceOne(p), neg: SliceOne(n), value: *value }
        },
        PrimitiveDevice::RawInstance { ports, cell, params } => {
            let mut qs: Vec<(String, DecimalValue)> = Vec::new();
            let mut j: usize = 0;
            while j < params.len()
                invariant
                    j <= params@.len(),
                    params_view(qs@) =~= params_view(params@.take(j as int)),
                decreases params.len() - j,
            {
                let (name, value) = &params[j];
                let ghost q0 = qs@;
                let nc = name.clone();
                assert(nc@ == name@);
                qs.push((nc, *value));
                assert(params@.take(j + 1) =~= params@.take(j as int).push(params@[j as int]));
                assert(params_view(qs@) =~= params_view(q0).push((name@, *value)));
                assert(params_view(params@.take(j + 1)) =~= params_view(params@.take(j as int)).push(
                    (name@, *value),
                ));
                j = j + 1;
            }
            assert(params@.take(params@.len() as int) =~= params@);
            let mut v: Vec<SliceOne> = Vec::new();
            let mut j: usize = 0;
            while j < ports.len()
                invariant
                    j <= ports@.len(),
                    nodes@ == node_signals(c),
                    forall|k: int| 0 <= k < ports@.len() ==> has_signal(c, #[trigger] ports@[k]),
                    v@ =~= ports@.take(j as int).map_values(|n: Node| SliceOne(signal_of(c, n))),
                decreases ports.len() - j,
            {
                assert(has_signal(c, ports@[j as int]));
                let s = signal_in(nodes, ports[j]);
                v.push(SliceOne(s));
                assert(ports@.take(j + 1) =~= ports@.take(j as int).push(ports@[j as int]));
                j = j + 1;
            }
            assert(ports@.take(ports@.len() as int) =~= ports@);
            scir::PrimitiveDevice::RawInstance { ports: v, cell: cell.clone(), params: qs }
        },
    }
}

/// Converts cell `idx` of `raws` to a library cell, given the library cell `ids[j]` of
/// each raw cell `j` converted so far. The cell gets a signal for each root of its node
/// map, named after the root, in the order roots are first met; its ports expose the
/// signals of their nodes; a blackbox keeps its contents, and otherwise each instance
/// becomes an instance named `xinst` and its position, of its child's library cell,
/// connected port by port, and each primitive device is kept on the signals of its nodes.
pub fn to_scir_cell(raws: &Vec<RawCell>, idx: usize, ids: &Vec<Option<usize>>) -> (r: scir::Cell)
    requires
        idx < raws@.len(),
        convertible(raws@, idx as int, ids@),
    ensures
        is_conversion(r, raws@, idx as int, ids@),
{
    let c = &raws[idx];
    let mut cell = scir::Cell::new(c.name.as_str());
    let mut added: Vec<Node> = Vec::new();
    let mut nodes: Vec<(Node, usize)> = Vec::new();
    let mut k: usize = 0;
    while k < c.roots.len()
        invariant
            k <= c.roots@.len(),
            c == &raws@[idx as int],
            forall|m: int| 0 <= m < c.roots@.len() ==> node_named(c, (#[trigger] c.roots@[m]).1),
            cell.wf(),
            cell.name_spec() == c.name@,
            cell.signal_names() == walk(c, k as int).0,
            added@ == walk(c, k as int).1,
            nodes@ == walk(c, k as int).2,
            forall|i: int| 0 <= i < cell.signal_widths().len() ==> (#[trigger] cell.signal_widths()[i]) is None,
            cell.port_signals().len() == 0,
            cell.instance_list().len() == 0,
            cell.primitive_list().len() == 0,
            cell.blackbox_contents() is None,
            forall|j: int| 0 <= j < added@.len() ==> lookup(nodes@, #[trigger] added@[j]) is Some,
        decreases c.roots.len() - k,
    {
        let (src, root) = c.roots[k];
        let ghost n0 = nodes@;
        if holds_node(&added, root) {
            let s = signal_in(&nodes, root);
            nodes.push((src, s));
            proof {
                assert forall|j: int| 0 <= j < added@.len() implies lookup(nodes@, #[trigger] added@[j]) is Some by {
                    lemma_last_idx_push(n0, (src, s), added@[j]);
                }
            }
        } else {
            assert(node_named(c, c.roots@[k as int].1));
            let name = node_name_of(c, root);
            let s = cell.add_node(name);
            added.push(root);
            nodes.push((root, s.0));
            let ghost n1 = nodes@;
            nodes.push((src, s.0));
            proof {
                assert forall|j: int| 0 <= j < added@.len() implies lookup(nodes@, #[trigger] added@[j]) is Some by {
                    lemma_last_idx_push(n0, (root, s.0), added@[j]);
                    lemma_last_idx_push(n1, (src, s.0), added@[j]);
                }
            }
        }
        k = k + 1;
    }
    let ghost m = nodes@;
    assert(m == node_signals(c));
    let mut p: usize = 0;
    while p < c.ports.len()
        invariant
            p <= c.ports@.len(),
            c == &raws@[idx as int],
            nodes@ == node_signals(c),
            forall|j: int| 0 <= j < c.ports@.len() ==> has_signal(c, (#[trigger] c.ports@[j]).node),
            cell.wf(),
            cell.name_spec() == c.name@,
            cell.signal_names() == walk(c, c.roots@.len() as int).0,
            forall|i: int| 0 <= i < cell.signal_widths().len() ==> (#[trigger] cell.signal_widths()[i]) is None,
            cell.port_signals() =~= c.ports@.take(p as int).map_values(|q: Port| signal_of(c, q.node)),
            cell.instance_list().len() == 0,
            cell.primitive_list().len() == 0,
            cell.blackbox_contents() is None,
        decreases c.ports.len() - p,
    {
        assert(has_signal(c, c.ports@[p as int].node));
        let s = signal_in(&nodes, c.ports[p].node);
        cell.expose_port(Slice::from_one(SliceOne(s)), c.ports[p].direction);
        assert(c.ports@.take(p + 1) =~= c.ports@.take(p as int).push(c.ports@[p as int]));
        p = p + 1;
    }
    assert(c.ports@.take(c.ports@.len() as int) =~= c.ports@);
    match &c.contents {
        RawContents::Opaque(s) => {
            cell.set_blackbox(s.clone());
        },
        RawContents::Clear { instances, primitives } => {
            let mut i: usize = 0;
            while i < instances.len()
                invariant
                    i <= instances@.len(),
                    c == &raws@[idx as int],
                    c.contents == (RawContents::Clear { instances: *instances, primitives: *primitives }),
                    convertible(raws@, idx as int, ids@),
                    nodes@ == node_signals(c),
                    cell.wf(),
                    cell.name_spec() == c.name@,
                    cell.signal_names() == walk(c, c.roots@.len() as int).0,
                    forall|j: int| 0 <= j < cell.signal_widths().len() ==> (#[trigger] cell.signal_widths()[j]) is None,
                    cell.port_signals() == c.ports@.map_values(|q: Port| signal_of(c, q.node)),
                    cell.instance_list().len() == i,
                    forall|j: int|
                        0 <= j < i ==> inst_converted(
                            #[trigger] cell.instance_list()[j],
                            raws@,
                            c,
                            ids@,
                            &instances@[j],
                            j,
                        ),
                    cell.primitive_list().len() == 0,
                    cell.blackbox_contents() is None,
                decreases instances.len() - i,
            {
                let inst = &instances[i];
                assert(inst.child < ids@.len() && ids@[inst.child as int] is Some);
                assert(inst.child < raws@.len());
                let cid = ids[inst.child].unwrap();
                let x = convert_instance(raws, c, &nodes, inst, cid, i);
                cell.add_instance(x);
                i = i + 1;
            }
            let mut k: usize = 0;
            while k < primitives.len()
                invariant
                    k <= primitives@.len(),
                    c == &raws@[idx as int],
                    c.contents == (RawContents::Clear { instances: *instances, primitives: *primitives }),
                    convertible(raws@, idx as int, ids@),
                    nodes@ == node_signals(c),
                    cell.wf(),
                    cell.name_spec() == c.name@,
                    cell.signal_names() == walk(c, c.roots@.len() as int).0,
                    forall|j: int| 0 <= j < cell.signal_widths().len() ==> (#[trigger] cell.signal_widths()[j]) is None,
                    cell.port_signals() == c.ports@.map_values(|q: Port| signal_of(c, q.node)),
                    cell.instance_list().len() == instances@.len(),
                    forall|j: int|
                        0 <= j < instances@.len() ==> inst_converted(
                            #[trigger] cell.instance_list()[j],
                            raws@,
                            c,
                            ids@,
                            &instances@[j],
                            j,
                        ),
                    cell.primitive_list().len() == k,
                    forall|j: int|
                        0 <= j < k ==> prim_converted(#[trigger] cell.primitive_list()[j], c, &primitives@[j]),
                    cell.blackbox_contents() is None,
                decreases primitives.len() - k,
            {
                let d = convert_primitive(c, &nodes, &primitives[k]);
                cell.add_primitive(d);
                k = k + 1;
            }
        },
    }
    cell
}

/// No node occurs twice in the node map of `c`.
pub open spec fn srcs_distinct(c: &RawCell) -> bool {
    forall|i: int, j: int| 0 <= i < j < c.roots@.len() ==> c.roots@[i].0 != c.roots@[j].0
}

/// Every root in the node map of `c` is its own root.
pub open spec fn roots_closed(c: &RawCell) -> bool {
    forall|k: int|
        0 <= k < c.roots@.len() ==> lookup(c.roots@, (#[trigger] c.roots@[k]).1) == Some(
            c.roots@[k].1,
        )
}

/// In a list whose keys are distinct, the last position of a position's key is that
/// position.
proof fn lemma_last_idx_distinct<V>(s: Seq<(Node, V)>, k: int)
    requires
        0 <= k < s.len(),
        forall|i: int, j: int| 0 <= i < j < s.len() ==> s[i].0 != s[j].0,
    ensures
        last_idx(s, s[k].0) == Some(k),
    decreases s.len(),
{
    if k < s.len() - 1 {
        let t = s.drop_last();
        assert(s[k].0 != s[s.len() - 1].0);
        assert(t[k] == s[k]);
        assert forall|i: int, j: int| 0 <= i < j < t.len() implies t[i].0 != t[j].0 by {
            assert(t[i] == s[i] && t[j] == s[j]);
        }
        lemma_last_idx_distinct(t, k);
    }
}

/// What the walk over the first `k` pairs keeps: each root met has a signal, each node
/// with a signal has its root met and shares its root's signal, and each node walked
/// has a signal.
pub open spec fn walk_inv(c: &RawCell, k: int) -> bool {
    let w = walk(c, k);
    &&& forall|r: Node| #[trigger] w.1.contains(r) ==> lookup(w.2, r) is Some
    &&& forall|n: Node|
        #[trigger] lookup(w.2, n) is Some ==> w.1.contains(root_of(c, n)) && lookup(w.2, n)
            == lookup(w.2, root_of(c, n))
    &&& forall|j: int| 0 <= j < k ==> #[trigger] lookup(w.2, c.roots@[j].0) is Some
}

/// The walk keeps [`walk_inv`].
proof fn lemma_walk_inv(c: &RawCell, k: int)
    requires
        0 <= k <= c.roots@.len(),
        srcs_distinct(c),
        roots_closed(c),
    ensures
        walk_inv(c, k),
    decreases k,
{
    if k > 0 {
        lemma_walk_inv(c, k - 1);
        let w0 = walk(c, k - 1);
        let w = walk(c, k);
        let src = c.roots@[k - 1].0;
        let root = c.roots@[k - 1].1;
        lemma_last_idx_distinct(c.roots@, k - 1);
        assert(root_of(c, src) == root);
        assert(lookup(c.roots@, root) == Some(root));
        assert(root_of(c, root) == root);
        if w0.1.contains(root) {
            let v = lookup(w0.2, root)->0;
            assert(w.2 == w0.2.push((src, v)));
            assert(w.1 == w0.1);
            assert forall|n: Node| #[trigger] lookup(w.2, n) is Some implies w.1.contains(
                root_of(c, n),
            ) && lookup(w.2, n) == lookup(w.2, root_of(c, n)) by {
                lemma_last_idx_push(w0.2, (src, v), n);
                lemma_last_idx_push(w0.2, (src, v), root_of(c, n));
                lemma_last_idx_push(w0.2, (src, v), root);
                if n != src {
                    assert(lookup(w0.2, n) is Some);
                    if root_of(c, n) == src {
                        assert(lookup(c.roots@, src) == Some(root));
                        assert(w0.1.contains(root_of(c, n)));
                    }
                }
            }
            assert forall|r: Node| #[trigger] w.1.contains(r) implies lookup(w.2, r) is Some by {
                lemma_last_idx_push(w0.2, (src, v), r);
            }
            assert forall|j: int| 0 <= j < k implies #[trigger] lookup(w.2, c.roots@[j].0) is Some by {
                lemma_last_idx_push(w0.2, (src, v), c.roots@[j].0);
            }
        } else {
            let s = w0.0.len() as usize;
            let m1 = w0.2.push((root, s));
            assert(w.2 == m1.push((src, s)));
            assert(w.1 == w0.1.push(root));
            assert forall|x: Node| #[trigger] w.1.contains(x) <==> (w0.1.contains(x) || x == root) by {
                if w.1.contains(x) {
                    let i = choose|i: int| 0 <= i < w.1.len() && w.1[i] == x;
                    if i < w0.1.len() {
                        assert(w0.1[i] == x);
                    }
                }
                if w0.1.contains(x) {
                    let i = choose|i: int| 0 <= i < w0.1.len() && w0.1[i] == x;
                    assert(w.1[i] == x);
                }
                if x == root {
                    assert(w.1[w0.1.len() as int] == x);
                }
            }
            assert forall|n: Node| #[trigger] lookup(w.2, n) is Some implies w.1.contains(
                root_of(c, n),
            ) && lookup(w.2, n) == lookup(w.2, root_of(c, n)) by {
                lemma_last_idx_push(w0.2, (root, s), n);
                lemma_last_idx_push(m1, (src, s), n);
                lemma_last_idx_push(w0.2, (root, s), root_of(c, n));
                lemma_last_idx_push(m1, (src, s), root_of(c, n));
                if n != src && n != root {
                    assert(lookup(w0.2, n) is Some);
                    assert(w0.1.contains(root_of(c, n)));
                    if root_of(c, n) == src {
                        assert(lookup(c.roots@, src) == Some(root));
                    }
                }
            }
            assert forall|r: Node| #[trigger] w.1.contains(r) implies lookup(w.2, r) is Some by {
                lemma_last_idx_push(w0.2, (root, s), r);
                lemma_last_idx_push(m1, (src, s), r);
            }
            assert forall|j: int| 0 <= j < k implies #[trigger] lookup(w.2, c.roots@[j].0) is Some by {
                lemma_last_idx_push(w0.2, (root, s), c.roots@[j].0);
                lemma_last_idx_push(m1, (src, s), c.roots@[j].0);
            }
        }
    }
}

/// Nodes with the same root share a signal: where no node occurs twice in the node map
/// and every root is its own root, two nodes of the map whose roots are equal get the
/// same signal.
pub proof fn law_connected_nodes_share_signal(c: &RawCell, a: Node, b: Node)
    requires
        srcs_distinct(c),
        roots_closed(c),
        last_idx(c.roots@, a) is Some,
        last_idx(c.roots@, b) is Some,
        root_of(c, a) == root_of(c, b),
    ensures
        has_signal(c, a),
        has_signal(c, b),
        signal_of(c, a) == signal_of(c, b),
{
    let n = c.roots@.len() as int;
    lemma_walk_inv(c, n);
    lemma_last_idx(c.roots@, a);
    lemma_last_idx(c.roots@, b);
    let ia = last_idx(c.roots@, a)->0;
    let ib = last_idx(c.roots@, b)->0;
    assert(lookup(walk(c, n).2, c.roots@[ia].0) is Some);
    assert(lookup(walk(c, n).2, c.roots@[ib].0) is Some);
}

/// The children of every cell of `raws` come before it, and every cell can be converted
/// once its children are.
pub open spec fn hierarchy_ok(raws: Seq<RawCell>) -> bool {
    forall|j: int|
        0 <= j < raws.len() ==> #[trigger] cell_ok(raws, j) && (raws[j].contents matches RawContents::Clear {
            instances,
            primitives,
        } ==> forall|i: int|
            0 <= i < instances@.len() ==> (#[trigger] instances@[i]).child < j)
}

/// Each raw cell `j` with a library cell `ids[j] == Some(c)` has its children converted,
/// and cell `c` of `cells` is its conversion.
pub open spec fn memo_ok(raws: Seq<RawCell>, ids: Seq<Option<usize>>, cells: Seq<scir::Cell>) -> bool {
    forall|j: int|
        0 <= j < ids.len() && (#[trigger] ids[j]) is Some ==> {
            &&& ids[j]->0 < cells.len()
            &&& children_done(raws, j, ids)
            &&& is_conversion(cells[ids[j]->0 as int], raws, j, ids)
        }
}

/// `b` keeps every library cell that `a` records.
pub open spec fn ids_grow(a: Seq<Option<usize>>, b: Seq<Option<usize>>) -> bool {
    &&& b.len() == a.len()
    &&& forall|j: int| 0 <= j < a.len() && (#[trigger] a[j]) is Some ==> b[j] == a[j]
}

/// A conversion stays one when more cells are recorded.
proof fn lemma_conversion_stable(
    x: scir::Cell,
    raws: Seq<RawCell>,
    j: int,
    a: Seq<Option<usize>>,
    b: Seq<Option<usize>>,
)
    requires
        is_conversion(x, raws, j, a),
        children_done(raws, j, a),
        ids_grow(a, b),
    ensures
        is_conversion(x, raws, j, b),
        children_done(raws, j, b),
{
    if let RawContents::Clear { instances, primitives } = raws[j].contents {
        assert forall|i: int| 0 <= i < instances@.len() implies inst_converted(
            #[trigger] x.instance_list()[i],
            raws,
            &raws[j],
            b,
            &instances@[i],
            i,
        ) by {
            assert(a[instances@[i].child as int] is Some);
            assert(inst_converted(x.instance_list()[i], raws, &raws[j], a, &instances@[i], i));
        }
        assert forall|i: int| 0 <= i < instances@.len() implies (#[trigger] instances@[i]).child
            < b.len() && b[instances@[i].child as int] is Some by {
            assert(a[instances@[i].child as int] is Some);
        }
    }
}

/// Converts cell `idx` of `raws` into `lib`, converting first each child that has no
/// library cell yet, and returns its library cell; `ids` records the library cell of
/// each raw cell converted.
pub fn to_scir_lib_cell(
    raws: &Vec<RawCell>,
    idx: usize,
    lib: &mut LibraryBuilder,
    ids: &mut Vec<Option<usize>>,
) -> (r: CellId)
    requires
        idx < raws@.len(),
        hierarchy_ok(raws@),
        old(ids)@.len() == raws@.len(),
        memo_ok(raws@, old(ids)@, old(lib).cells()),
    ensures
        ids_grow(old(ids)@, final(ids)@),
        final(ids)@[idx as int] == Some(r.0),
        forall|k: int| idx < k < raws@.len() ==> (#[trigger] final(ids)@[k]) == old(ids)@[k],
        memo_ok(raws@, final(ids)@, final(lib).cells()),
        old(lib).cells().len() <= final(lib).cells().len(),
        final(lib).cells().subrange(0, old(lib).cells().len() as int) == old(lib).cells(),
        final(lib).primitive_names() == old(lib).primitive_names(),
        final(lib).top_cell() == old(lib).top_cell(),
    decreases idx,
{
    if let Some(c) = ids[idx] {
        return CellId(c);
    }
    assert(cell_ok(raws@, idx as int));
    let ghost ids0 = ids@;
    let ghost cells0 = lib.cells();
    if let RawContents::Clear { instances, primitives } = &raws[idx].contents {
        let mut i: usize = 0;
        while i < instances.len()
            invariant
                i <= instances@.len(),
                idx < raws@.len(),
                raws@[idx as int].contents == (RawContents::Clear {
                    instances: *instances,
                    primitives: *primitives,
                }),
                hierarchy_ok(raws@),
                ids@.len() == raws@.len(),
                ids_grow(ids0, ids@),
                forall|k: int| idx <= k < raws@.len() ==> (#[trigger] ids@[k]) == ids0[k],
                memo_ok(raws@, ids@, lib.cells()),
                cells0.len() <= lib.cells().len(),
                lib.cells().subrange(0, cells0.len() as int) == cells0,
                lib.primitive_names() == old(lib).primitive_names(),
                lib.top_cell() == old(lib).top_cell(),
                cells0 == old(lib).cells(),
                ids0 == old(ids)@,
                forall|m: int| 0 <= m < i ==> ids@[(#[trigger] instances@[m]).child as int] is Some,
            decreases instances.len() - i,
        {
            let child = instances[i].child;
            assert(cell_ok(raws@, idx as int));
            assert(child < idx);
            if ids[child].is_none() {
                let ghost before = ids@;
                let ghost cb = lib.cells();
                to_scir_lib_cell(raws, child, lib, ids);
                proof {
                    assert(ids_grow(ids0, ids@));
                    assert(lib.cells().subrange(0, cells0.len() as int) =~= cells0) by {
                        assert(lib.cells().subrange(0, cb.len() as int) == cb);
                        assert forall|q: int| 0 <= q < cells0.len() implies lib.cells()[q] == cells0[q] by {
                            assert(lib.cells().subrange(0, cb.len() as int)[q] == cb[q]);
                            assert(cb.subrange(0, cells0.len() as int)[q] == cells0[q]);
                        }
                    }
                    assert forall|m: int| 0 <= m <= i implies ids@[(#[trigger] instances@[m]).child as int] is Some by {
                        if m < i {
                            assert(before[instances@[m].child as int] is Some);
                        }
                    }
                }
            }
            i = i + 1;
        }
    }
    let ghost ids1 = ids@;
    assert(children_done(raws@, idx as int, ids1));
    let cell = to_scir_cell(raws, idx, ids);
    let ghost cells1 = lib.cells();
    let id = lib.add_cell(cell);
    ids.set(idx, Some(id.0));
    proof {
        assert(ids_grow(ids1, ids@));
        assert(ids_grow(ids0, ids@));
        lemma_conversion_stable(cell, raws@, idx as int, ids1, ids@);
        assert forall|j: int| 0 <= j < ids@.len() && (#[trigger] ids@[j]) is Some implies {
            &&& ids@[j]->0 < lib.cells().len()
            &&& children_done(raws@, j, ids@)
            &&& is_conversion(lib.cells()[ids@[j]->0 as int], raws@, j, ids@)
        } by {
            if j != idx {
                assert(ids1[j] is Some);
                assert(lib.cells()[ids1[j]->0 as int] == cells1[ids1[j]->0 as int]);
                lemma_conversion_stable(cells1[ids1[j]->0 as int], raws@, j, ids1, ids@);
            }
        }
        assert(lib.cells().subrange(0, cells0.len() as int) =~= cells0) by {
            assert forall|q: int| 0 <= q < cells0.len() implies lib.cells()[q] == cells0[q] by {
                assert(cells1.subrange(0, cells0.len() as int)[q] == cells0[q]);
            }
        }
    }
    id
}

/// Converts cell `top` of `raws` and the cells below it into a new library, with the
/// conversion of `top` as its top cell: for some record `ids` of the library cell of
/// each converted raw cell, every library cell recorded is the conversion of its raw
/// cell, given the library cells of that cell's children.
pub fn to_scir_lib(raws: &Vec<RawCell>, top: usize) -> (r: LibraryBuilder)
    requires
        top < raws@.len(),
        hierarchy_ok(raws@),
    ensures
        r.top_cell() matches Some(t) && exists|ids: Seq<Option<usize>>|
            #[trigger] memo_ok(raws@, ids, r.cells()) && ids.len() == raws@.len() && ids[top as int]
                == Some(t),
{
    let mut lib = LibraryBuilder::new();
    let mut ids: Vec<Option<usize>> = Vec::new();
    let mut k: usize = 0;
    while k < raws.len()
        invariant
            k <= raws@.len(),
            ids@.len() == k,
            forall|j: int| 0 <= j < k ==> (#[trigger] ids@[j]) is None,
        decreases raws.len() - k,
    {
        ids.push(None);
        k = k + 1;
    }
    assert(memo_ok(raws@, ids@, lib.cells()));
    let id = to_scir_lib_cell(raws, top, &mut lib, &mut ids);
    lib.set_top(id);
    assert(memo_ok(raws@, ids@, lib.cells()));
    lib
}

} // verus!
