//! Track cells and the layer stack they are drawn on.
use crate::geometry::span::Span;
use crate::geometry::Dir;
use vstd::arithmetic::div_mod::lemma_fundamental_div_mod_converse;
use vstd::prelude::*;

verus! {

/// Identifies a cell.
#[derive(Debug, Copy, Clone, PartialEq, Eq, Structural, Hash)]
pub struct CellId(pub u64);

/// A cell: a span along a direction, crossed by tracks.
pub struct Cell {
    /// The direction of the cell.
    pub dir: Dir,
    /// The extent of the cell.
    pub span: Span,
    /// The tracks of the cell.
    pub tracks: Vec<Span>,
}

/// Whether span `t` reaches into span `s`: it neither ends before `s` starts nor starts
/// after `s` stops.
pub open spec fn touches(t: (i64, i64), s: (i64, i64)) -> bool {
    !(t.1 < s.0 || t.0 > s.1)
}

impl Cell {
    /// Whether every track of the cell reaches into the cell's span.
    pub fn validate(&self) -> (r: bool)
        ensures
            r == forall|i: int| 0 <= i < self.tracks@.len() ==> touches(#[trigger] self.tracks@[i]@, self.span@),
    {
        let mut i: usize = 0;
        while i < self.tracks.len()
            invariant
                i <= self.tracks@.len(),
                forall|j: int| 0 <= j < i ==> touches(#[trigger] self.tracks@[j]@, self.span@),
            decreases self.tracks@.len() - i,
        {
            let track = &self.tracks[i];
            if track.stop() < self.span.start() || track.start() > self.span.stop() {
                return false;
            }
            i = i + 1;
        }
        true
    }
}

/// The set of cells on a single layer, and the grid of which cell covers each point.
pub struct LayerCells {
    /// The cells, by the number of their id.
    pub cells: std::collections::HashMap<u64, Cell>,
    /// The cell at each grid point, indexed by x and then y.
    pub grid: Vec<Vec<Option<CellId>>>,
}

/// A routing layer of a process.
pub struct PdkLayer {
    /// The direction of the layer's tracks.
    pub dir: Dir,
    /// The width of a primitive cell on this layer.
    pub primitive_cell_width: i64,
}

/// The routing layers of a process and the size of its primitive cell.
pub struct Pdk {
    /// The width of the primitive cell.
    pub primitive_cell_x: i64,
    /// The height of the primitive cell.
    pub primitive_cell_y: i64,
    /// The routing layers, bottom up.
    pub routing_layers: Vec<PdkLayer>,
}

/// The primitive cell size that a layer of direction `dir` must be a multiple of: the
/// height for horizontal layers, the width for vertical ones.
pub open spec fn cell_pitch(p: &Pdk, dir: Dir) -> i64 {
    match dir {
        Dir::Horiz => p.primitive_cell_y,
        Dir::Vert => p.primitive_cell_x,
    }
}

/// `|a|` as an unsigned value.
fn magnitude(a: i64) -> (r: u64)
    ensures
        r == if a < 0 { -a } else { a as int },
{
    if a < 0 {
        (-(a + 1)) as u64 + 1
    } else {
        a as u64
    }
}

/// Whether `a` is a whole multiple of `b`.
pub open spec fn divisible(a: int, b: int) -> bool {
    exists|k: int| #[trigger] (k * b) == a
}

/// Whether `b` divides `a`.
fn divides(a: i64, b: i64) -> (r: bool)
    requires
        b != 0,
    ensures
        r == divisible(a as int, b as int),
{
    let ua = magnitude(a);
    let ub = magnitude(b);
    let q = ua / ub;
    let rem = ua % ub;
    proof {
        assert(ua == q * ub + rem && 0 <= rem < ub) by (nonlinear_arith)
            requires
                q == ua / ub,
                rem == ua % ub,
                ub > 0,
        ;
        let sa: int = if a < 0 { -1 } else { 1 };
        let sb: int = if b < 0 { -1 } else { 1 };
        assert(a == sa * ua && b == sb * ub);
        if rem == 0 {
            let k = sa * sb * q;
            assert(k * b == a) by (nonlinear_arith)
                requires
                    a == sa * ua,
                    b == sb * ub,
                    ua == q * ub,
                    sb * sb == 1,
                    k == sa * sb * q,
            ;
        } else {
            if divisible(a as int, b as int) {
                let k = choose|k: int| #[trigger] (k * b) == a;
                let m = sa * sb * k;
                assert(ua == m * ub + 0) by (nonlinear_arith)
                    requires
                        k * b == a,
                        a == sa * ua,
                        b == sb * ub,
                        sa * sa == 1,
                        sb * sb == 1,
                        m == sa * sb * k,
                ;
                lemma_fundamental_div_mod_converse(ua as int, ub as int, m, 0);
            }
        }
    }
    rem == 0
}

impl Pdk {
    /// Whether the layer stack is consistent: adjacent routing layers alternate
    /// direction, and each layer's primitive cell width is a multiple of the primitive
    /// cell's size across its tracks.
    pub open spec fn valid(&self) -> bool {
        forall|i: int| 0 <= i < self.routing_layers@.len() ==> #[trigger] self.layer_ok(i)
    }

    /// Whether layer `i` alternates direction with the layer below it, if any, and its
    /// primitive cell width is a multiple of the primitive cell's size across its tracks.
    pub open spec fn layer_ok(&self, i: int) -> bool {
        &&& i > 0 ==> self.routing_layers@[i].dir != self.routing_layers@[i - 1].dir
        &&& divisible(
            self.routing_layers@[i].primitive_cell_width as int,
            cell_pitch(self, self.routing_layers@[i].dir) as int,
        )
    }

    /// Whether the remainder of layer `i`'s primitive cell width by the primitive cell's
    /// size across its tracks cannot be taken: that size is zero, or it is -1 and the
    /// width the least `i64`.
    pub open spec fn rem_fails(&self, i: int) -> bool {
        let w = self.routing_layers@[i].primitive_cell_width;
        let p = cell_pitch(self, self.routing_layers@[i].dir);
        p == 0 || (p == -1 && w == i64::MIN)
    }

    /// Whether checking reaches a layer whose remainder cannot be taken: every layer below
    /// it is consistent and it alternates direction with the one below it.
    pub open spec fn validate_fails(&self) -> bool {
        exists|i: int|
            0 <= i < self.routing_layers@.len() && (forall|j: int| 0 <= j < i ==> #[trigger] self.layer_ok(j))
                && (i > 0 ==> self.routing_layers@[i].dir != self.routing_layers@[i - 1].dir)
                && #[trigger] self.rem_fails(i)
    }

    /// Checks that the layer stack is consistent.
    pub fn validate(&self) -> (r: bool)
        requires
            !self.validate_fails(),
        ensures
            r == self.valid(),
    {
        let mut prev_dir: Option<Dir> = None;
        let mut i: usize = 0;
        while i < self.routing_layers.len()
            invariant
                !self.validate_fails(),
                i <= self.routing_layers@.len(),
                i == 0 ==> prev_dir is None,
                i > 0 ==> prev_dir == Some(self.routing_layers@[i - 1].dir),
                forall|j: int| 0 <= j < i ==> #[trigger] self.layer_ok(j),
            decreases self.routing_layers@.len() - i,
        {
            let layer = &self.routing_layers[i];
            if let Some(p) = prev_dir {
                if p == layer.dir {
                    assert(!self.layer_ok(i as int));
                    return false;
                }
            }
            prev_dir = Some(layer.dir);
            let pitch = match layer.dir {
                Dir::Horiz => self.primitive_cell_y,
                Dir::Vert => self.primitive_cell_x,
            };
            assert(!self.rem_fails(i as int));
            if !divides(layer.primitive_cell_width, pitch) {
                assert(!self.layer_ok(i as int));
                return false;
            }
            i = i + 1;
        }
        true
    }
}

} // verus!
