//! Interfaces and signals: directions, nodes, arrays and the traits that flatten them.
use vstd::prelude::*;

verus! {

/// The number of flattened items of a value.
pub trait FlatLen {
    /// The number of flattened items.
    spec fn flat_len(&self) -> nat;

    /// The number of flattened items.
    fn len(&self) -> (r: usize)
        ensures
            r == self.flat_len(),
    ;

    /// Whether there are no flattened items.
    fn is_empty(&self) -> (r: bool)
        ensures
            r == (self.flat_len() == 0),
    {
        self.len() == 0
    }
}

/// A value that flattens into a sequence of `T`s.
pub trait Flatten<T>: FlatLen {
    /// Appends the flattened items to `output`: exactly [`FlatLen::len`] of them, after
    /// what `output` held.
    fn flatten(&self, output: &mut Vec<T>)
        ensures
            final(output)@.len() == old(output)@.len() + self.flat_len(),
            final(output)@.take(old(output)@.len() as int) == old(output)@,
    ;

    /// The flattened items, in a new vector.
    fn flatten_vec(&self) -> (r: Vec<T>)
        ensures
            r@.len() == self.flat_len(),
    {
        let mut vec: Vec<T> = Vec::new();
        self.flatten(&mut vec);
        vec
    }
}

/// A value with a direction for each of its flattened signals.
pub trait Directed: Flatten<Direction> {

}

impl<T: Flatten<Direction>> Directed for T {

}

/// A marker for types that carry no direction.
pub trait Undirected {

}

/// The node-level data of a schematic interface.
pub trait SchematicData: FlatLen + Flatten<Node> {

}

impl<T: FlatLen + Flatten<Node>> SchematicData for T {

}

/// A type that can be instantiated in a schematic, consuming one node per signal.
pub trait SchematicType: FlatLen + Clone {
    /// The data of an instance.
    type Data: SchematicData;

    /// Instantiates the type from the first nodes of `ids`, returning the data and the
    /// nodes left over: exactly [`FlatLen::len`] nodes are taken, and the data has as many
    /// flattened nodes.
    fn instantiate<'n>(&self, ids: &'n [Node]) -> (r: (Self::Data, &'n [Node]))
        requires
            self.flat_len() <= ids@.len(),
        ensures
            r.1@ == ids@.subrange(self.flat_len() as int, ids@.len() as int),
            r.0.flat_len() == self.flat_len(),
    ;
}

/// A marker for types that may be connected to a `T`.
pub trait Connect<T> {

}

/// The port-level data of a layout interface.
pub trait LayoutData: FlatLen {

}

/// A builder of layout data.
pub trait LayoutDataBuilder<T: LayoutData>: FlatLen {
    /// Builds the data, or fails where a port was never set.
    fn build(self) -> Result<T, BuildError>;
}

/// The failure of a layout data builder.
#[derive(Debug, Clone, PartialEq, Eq, Structural)]
pub enum BuildError {
    /// A port was never given geometry.
    MissingPort,
}

/// A type that can be instantiated in a layout.
pub trait LayoutType: FlatLen + Clone {
    /// The data of an instance.
    type Data: LayoutData;
    /// The builder of that data.
    type Builder: LayoutDataBuilder<Self::Data>;

    /// A new builder of instance data.
    fn builder(&self) -> Self::Builder;
}

/// An interface: directed, and usable in both schematics and layouts.
pub trait Io: Directed + SchematicType + LayoutType {

}

/// An input port of type `T`.
#[derive(Debug, Copy, Clone, PartialEq, Eq, Default)]
pub struct Input<T: Undirected>(pub T);

/// An output port of type `T`.
#[derive(Debug, Copy, Clone, PartialEq, Eq, Default)]
pub struct Output<T: Undirected>(pub T);

/// An inout port of type `T`.
#[derive(Debug, Copy, Clone, PartialEq, Eq, Default)]
pub struct InOut<T: Undirected>(pub T);

/// A single bit wire.
#[derive(Debug, Default, Clone, Copy)]
pub struct Signal;

impl Undirected for Signal {

}

impl FlatLen for Signal {
    open spec fn flat_len(&self) -> nat {
        1
    }

    fn len(&self) -> (r: usize) {
        1
    }
}

/// A single node in a circuit.
#[derive(Copy, Clone, Debug, Hash, PartialEq, Eq, Structural, Default)]
pub struct Node(pub u32);

impl FlatLen for Node {
    open spec fn flat_len(&self) -> nat {
        1
    }

    fn len(&self) -> (r: usize) {
        1
    }
}

impl Flatten<Node> for Node {
    fn flatten(&self, output: &mut Vec<Node>) {
        output.push(*self);
        assert(output@.take(old(output)@.len() as int) =~= old(output)@);
    }
}

impl SchematicType for Signal {
    type Data = Node;

    /// Takes the first node.
    fn instantiate<'n>(&self, ids: &'n [Node]) -> (r: (Node, &'n [Node]))
        ensures
            r.0 == ids@[0],
    {
        (ids[0], &ids[1..ids.len()])
    }
}

impl Node {
    /// The index of the node.
    pub fn index(&self) -> (r: u32)
        ensures
            r == self.0,
    {
        self.0
    }

    /// The node of index `u`.
    pub fn from_index(u: u32) -> (r: Node)
        ensures
            r.0 == u,
    {
        Node(u)
    }
}

/// The priority of a node's name: ports outrank named nodes, which outrank automatic ones.
#[derive(Copy, Clone, Debug, PartialEq, Eq, Structural, Hash)]
pub enum NodePriority {
    /// A port of the cell.
    Io,
    /// A node named by the user.
    Named,
    /// A node created automatically.
    Auto,
}

/// The rank of a priority: higher ranks win.
pub open spec fn priority_rank(p: NodePriority) -> int {
    match p {
        NodePriority::Io => 3,
        NodePriority::Named => 2,
        NodePriority::Auto => 1,
    }
}

impl NodePriority {
    /// The rank of the priority: higher ranks win.
    pub fn rank(&self) -> (r: u8)
        ensures
            r == priority_rank(*self),
    {
        match self {
            NodePriority::Io => 3,
            NodePriority::Named => 2,
            NodePriority::Auto => 1,
        }
    }
}

/// The value attached to a set of connected nodes: the node that names the set, with
/// its priority.
#[derive(Copy, Clone, Debug, PartialEq, Eq, Structural, Hash)]
pub struct NodeUfValue {
    /// The priority of the naming node.
    pub priority: NodePriority,
    /// The naming node.
    pub source: Node,
}

impl NodeUfValue {
    /// The value of two merged sets: the one of higher priority, the first on a tie.
    pub fn unify_values(value1: &Self, value2: &Self) -> (r: Self)
        ensures
            r == if priority_rank(value1.priority) >= priority_rank(value2.priority) {
                *value1
            } else {
                *value2
            },
    {
        if value1.priority.rank() >= value2.priority.rank() {
            *value1
        } else {
            *value2
        }
    }
}

/// Merging keeps the value of higher priority whichever side it comes from, and
/// merging a value with itself gives it back.
pub proof fn law_unify_prefers_priority(a: NodeUfValue, b: NodeUfValue)
    ensures
        priority_rank(a.priority) > priority_rank(b.priority) ==> unified(a, b) == a && unified(
            b,
            a,
        ) == a,
        unified(a, a) == a,
        priority_rank(unified(a, b).priority) >= priority_rank(a.priority),
        priority_rank(unified(a, b).priority) >= priority_rank(b.priority),
{
}

/// The result of [`NodeUfValue::unify_values`].
pub open spec fn unified(a: NodeUfValue, b: NodeUfValue) -> NodeUfValue {
    if priority_rank(a.priority) >= priority_rank(b.priority) {
        a
    } else {
        b
    }
}

/// Port directions.
#[derive(Debug, Copy, Clone, PartialEq, Eq, Structural, Hash)]
pub enum Direction {
    /// Input.
    Input,
    /// Output.
    Output,
    /// Input or output.
    InOut,
}

impl Direction {
    /// The direction seen from the other side of a port: inputs become outputs and
    /// outputs inputs; inouts stay as they are.
    pub open spec fn flipped(self) -> Direction {
        match self {
            Direction::Input => Direction::Output,
            Direction::Output => Direction::Input,
            Direction::InOut => Direction::InOut,
        }
    }

    /// Flips the direction.
    pub fn flip(&self) -> (r: Direction)
        ensures
            r == self.flipped(),
    {
        match *self {
            Direction::Input => Direction::Output,
            Direction::Output => Direction::Input,
            Direction::InOut => Direction::InOut,
        }
    }
}

impl Default for Direction {
    fn default() -> (r: Direction)
        ensures
            r == Direction::InOut,
    {
        Direction::InOut
    }
}

/// Flipping a direction twice gives it back.
pub proof fn law_flip_involution(d: Direction)
    ensures
        d.flipped().flipped() == d,
{
}

/// A port: a direction and the node it exposes.
pub struct Port {
    /// The direction.
    pub direction: Direction,
    /// The node.
    pub node: Node,
}

/// An array of `len` values of type `ty`.
#[derive(Debug, Copy, Clone, PartialEq, Eq, Default)]
pub struct Array<T> {
    len: usize,
    ty: T,
}

impl<T> Array<T> {
    /// The number of elements.
    pub closed spec fn len_spec(&self) -> usize {
        self.len
    }

    /// The element type.
    pub closed spec fn ty_spec(&self) -> T {
        self.ty
    }

    /// Creates an array of `len` values of type `ty`.
    pub fn new(len: usize, ty: T) -> (r: Array<T>)
        ensures
            r.len_spec() == len,
            r.ty_spec() == ty,
    {
        Array { len, ty }
    }
}

/// The data of an array: the elements, each of `ty_len` flattened items.
#[derive(Debug, Clone, PartialEq, Eq, Default)]
pub struct ArrayData<T> {
    /// The elements.
    pub elems: Vec<T>,
    /// The number of flattened items of each element.
    pub ty_len: usize,
}

} // verus!
