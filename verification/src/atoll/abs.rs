//! Abstract views of routing tiles.
use super::PointState;
use crate::geometry::{Point, Rect};
use vstd::arithmetic::div_mod::{
    lemma_div_is_ordered, lemma_fundamental_div_mod, lemma_fundamental_div_mod_converse,
};
use vstd::prelude::*;

verus! {

/// The quotient of `a` by a nonzero `b`, rounded down.
pub open spec fn floor_div(a: int, b: int) -> int {
    if b > 0 {
        a / b
    } else {
        (-a) / (-b)
    }
}

/// The quotient of `a` by a nonzero `b`, rounded up.
pub open spec fn ceil_div(a: int, b: int) -> int {
    -floor_div(-a, b)
}

/// Divides `a` by the positive `b`, rounding down.
fn div_floor_pos(a: i64, b: i64) -> (r: i64)
    requires
        b > 0,
    ensures
        r == floor_div(a as int, b as int),
{
    if a >= 0 {
        let q = (a as u64) / (b as u64);
        let rem = (a as u64) % (b as u64);
        proof {
            assert(a == q * b + rem && 0 <= rem < b) by (nonlinear_arith)
                requires
                    q == (a as u64) / (b as u64),
                    rem == (a as u64) % (b as u64),
                    a >= 0,
                    b > 0,
            ;
            lemma_fundamental_div_mod_converse(a as int, b as int, q as int, rem as int);
        }
        q as i64
    } else {
        let m = (-(a + 1)) as u64;
        let q = m / (b as u64);
        let rem = m % (b as u64);
        proof {
            assert(m == q * b + rem && 0 <= rem < b) by (nonlinear_arith)
                requires
                    q == m / (b as u64),
                    rem == m % (b as u64),
                    b > 0,
            ;
            assert(a == (-(q as int) - 1) * b + (b - rem - 1)) by (nonlinear_arith)
                requires
                    m == q * b + rem,
                    m == -(a + 1),
            ;
            lemma_fundamental_div_mod_converse(
                a as int,
                b as int,
                -(q as int) - 1,
                b - rem - 1,
            );
        }
        -(q as i64) - 1
    }
}

/// Divides `a` by the positive `b`, rounding up.
fn div_ceil_pos(a: i64, b: i64) -> (r: i64)
    requires
        b > 0,
    ensures
        r == ceil_div(a as int, b as int),
{
    if a > 0 {
        let m = (a - 1) as u64;
        let q = m / (b as u64);
        let rem = m % (b as u64);
        proof {
            assert(m == q * b + rem && 0 <= rem < b) by (nonlinear_arith)
                requires
                    q == m / (b as u64),
                    rem == m % (b as u64),
                    b > 0,
            ;
            assert(-a == (-(q as int) - 1) * b + (b - rem - 1)) by (nonlinear_arith)
                requires
                    m == q * b + rem,
                    m == a - 1,
            ;
            lemma_fundamental_div_mod_converse(
                -(a as int),
                b as int,
                -(q as int) - 1,
                b - rem - 1,
            );
        }
        q as i64 + 1
    } else if a == 0 {
        proof {
            lemma_fundamental_div_mod_converse(0, b as int, 0, 0);
        }
        0
    } else {
        let m = (-(a + 1)) as u64;
        let q = m / (b as u64);
        let rem = m % (b as u64);
        proof {
            assert(m == q * b + rem && 0 <= rem < b) by (nonlinear_arith)
                requires
                    q == m / (b as u64),
                    rem == m % (b as u64),
                    b > 0,
            ;
            assert(-a == q * b + rem + 1) by (nonlinear_arith)
                requires
                    m == q * b + rem,
                    m == -(a + 1),
            ;
        }
        if rem + 1 == b as u64 {
            proof {
                assert(-a == (q + 1) * b + 0) by (nonlinear_arith)
                    requires
                        -a == q * b + rem + 1,
                        rem + 1 == b,
                ;
                lemma_fundamental_div_mod_converse(-(a as int), b as int, q as int + 1, 0);
            }
            -(q as i64) - 1
        } else {
            proof {
                lemma_fundamental_div_mod_converse(-(a as int), b as int, q as int, rem + 1);
            }
            -(q as i64)
        }
    }
}

/// The abstract view of a routing tile.
pub struct AtollAbstract {
    /// The topmost layer used within the tile.
    pub top_layer: usize,
    /// The bounds of the tile, in units of the least common multiple of the track pitches
    /// of the layers up to `top_layer`.
    ///
    /// The "origin" of the tile, in those units, is the lower left of this rectangle.
    pub lcm_bounds: Rect,
    /// The state of each layer, up to and including `top_layer`.
    pub layers: Vec<LayerAbstract>,
    /// The width of one unit, in physical units.
    pub lcm_unit_width: i64,
    /// The height of one unit, in physical units.
    pub lcm_unit_height: i64,
}

impl AtollAbstract {
    /// The sides (left, bottom, right, top) of the tile in physical units: each side of
    /// its bounds scaled by the unit size across it.
    pub open spec fn physical_sides(&self) -> (int, int, int, int) {
        (
            self.lcm_bounds.sides().0 * self.lcm_unit_width,
            self.lcm_bounds.sides().1 * self.lcm_unit_height,
            self.lcm_bounds.sides().2 * self.lcm_unit_width,
            self.lcm_bounds.sides().3 * self.lcm_unit_height,
        )
    }

    /// The lower-left corner of the tile in physical units.
    pub open spec fn physical_corner(&self) -> (int, int) {
        (
            self.lcm_bounds.sides().0 * self.lcm_unit_width,
            self.lcm_bounds.sides().1 * self.lcm_unit_height,
        )
    }

    /// The bounds of the tile in physical units: each side scaled by the unit size.
    pub fn physical_bounds(&self) -> (r: Rect)
        requires
            self.lcm_unit_width > 0,
            self.lcm_unit_height > 0,
            i64::MIN <= self.lcm_bounds.sides().0 * self.lcm_unit_width <= i64::MAX,
            i64::MIN <= self.lcm_bounds.sides().1 * self.lcm_unit_height <= i64::MAX,
            i64::MIN <= self.lcm_bounds.sides().2 * self.lcm_unit_width <= i64::MAX,
            i64::MIN <= self.lcm_bounds.sides().3 * self.lcm_unit_height <= i64::MAX,
        ensures
            (r.sides().0 as int, r.sides().1 as int, r.sides().2 as int, r.sides().3 as int)
                == self.physical_sides(),
    {
        let w = self.lcm_unit_width;
        let h = self.lcm_unit_height;
        let l = self.lcm_bounds.left();
        let b = self.lcm_bounds.bot();
        let r = self.lcm_bounds.right();
        let t = self.lcm_bounds.top();
        assert(l * w <= r * w) by (nonlinear_arith)
            requires
                l <= r,
                w > 0,
        ;
        assert(b * h <= t * h) by (nonlinear_arith)
            requires
                b <= t,
                h > 0,
        ;
        Rect::from_sides(l * w, b * h, r * w, t * h)
    }

    /// The origin of the tile in physical units: its lower-left corner scaled by the
    /// unit size.
    pub fn physical_origin(&self) -> (r: Point)
        requires
            i64::MIN <= self.lcm_bounds.sides().0 * self.lcm_unit_width <= i64::MAX,
            i64::MIN <= self.lcm_bounds.sides().1 * self.lcm_unit_height <= i64::MAX,
        ensures
            (r.x as int, r.y as int) == self.physical_corner(),
    {
        let ll = self.lcm_bounds.lower_left();
        Point { x: ll.x * self.lcm_unit_width, y: ll.y * self.lcm_unit_height }
    }
}

/// The physical origin of an abstract is the lower-left corner of its physical bounds.
pub proof fn law_physical_origin_is_lower_left(a: AtollAbstract)
    ensures
        a.physical_corner() == (a.physical_sides().0, a.physical_sides().1),
{
}

/// The abstracted state of a single routing layer.
pub enum LayerAbstract {
    /// The layer is fully blocked.
    ///
    /// No routing on this layer is permitted.
    Blocked,
    /// The layer is available for routing and exposes the state of each point on the
    /// routing grid, indexed by x and then y.
    Detailed { states: Vec<Vec<PointState>> },
}

/// An abstract view prepared for drawing.
pub struct DebugAbstract {
    /// The abstract view.
    pub abs: AtollAbstract,
}

/// An element of a layout cell, as far as the top routing layer depends on it.
#[derive(Debug, Copy, Clone, PartialEq, Eq, Structural)]
pub enum CellElement {
    /// An instance of the cell at this index of the cell list.
    Instance(usize),
    /// A shape, with the index of its layer in the routing stack, if it is a routing layer.
    Shape(Option<usize>),
    /// A text label.
    Text,
}

/// The larger of two optional layer indices, where any index is larger than none.
pub open spec fn max_layer(a: Option<usize>, b: Option<usize>) -> Option<usize> {
    match (a, b) {
        (Some(x), Some(y)) => Some(if x >= y { x } else { y }),
        (Some(x), None) => Some(x),
        (None, _) => b,
    }
}

/// Cells may only instantiate cells listed before them.
pub open spec fn cells_ordered(cells: Seq<Vec<CellElement>>) -> bool {
    forall|i: int, j: int|
        #![trigger cells[i]@[j]]
        0 <= i < cells.len() && 0 <= j < cells[i]@.len() ==> (cells[i]@[j] matches CellElement::Instance(c)
            ==> c < i)
}

/// The topmost routing layer used by the first `n` elements of cell `i`, through its
/// shapes and, recursively, its instances.
pub open spec fn top_of_elems(cells: Seq<Vec<CellElement>>, i: int, n: int) -> Option<usize>
    decreases i, n,
{
    if n <= 0 || !(0 <= i < cells.len()) || n > cells[i]@.len() {
        None
    } else {
        let rest = top_of_elems(cells, i, n - 1);
        match cells[i]@[n - 1] {
            CellElement::Instance(c) => if c < i {
                max_layer(rest, top_of_elems(cells, c as int, cells[c as int]@.len() as int))
            } else {
                rest
            },
            CellElement::Shape(l) => max_layer(rest, l),
            CellElement::Text => rest,
        }
    }
}

/// The topmost routing layer used by cell `i`.
pub open spec fn top_of_cell(cells: Seq<Vec<CellElement>>, i: int) -> Option<usize> {
    top_of_elems(cells, i, cells[i]@.len() as int)
}

/// The routing layer an element reaches on its own: a shape's layer, or the top layer of
/// the instantiated cell.
pub open spec fn elem_layer(cells: Seq<Vec<CellElement>>, e: CellElement) -> Option<usize> {
    match e {
        CellElement::Instance(c) => top_of_cell(cells, c as int),
        CellElement::Shape(l) => l,
        CellElement::Text => None,
    }
}

/// The top layer of the first `n` elements of a cell is their highest layer: it is at
/// least the layer each of them reaches, and it is the layer one of them reaches; it is
/// `None` exactly when none reaches a routing layer.
pub proof fn law_top_layer_is_highest(cells: Seq<Vec<CellElement>>, i: int, n: int)
    requires
        cells_ordered(cells),
        0 <= i < cells.len(),
        0 <= n <= cells[i]@.len(),
    ensures
        forall|j: int|
            0 <= j < n && (#[trigger] elem_layer(cells, cells[i]@[j])) is Some ==> top_of_elems(
                cells,
                i,
                n,
            ) is Some && elem_layer(cells, cells[i]@[j])->0 <= top_of_elems(cells, i, n)->0,
        top_of_elems(cells, i, n) matches Some(t) ==> exists|j: int|
            0 <= j < n && #[trigger] elem_layer(cells, cells[i]@[j]) == Some(t),
    decreases n,
{
    if n > 0 {
        law_top_layer_is_highest(cells, i, n - 1);
        let e = cells[i]@[n - 1];
        assert(e matches CellElement::Instance(c) ==> c < i);
        let rest = top_of_elems(cells, i, n - 1);
        let top = top_of_elems(cells, i, n);
        assert(top == max_layer(rest, elem_layer(cells, e)));
        if let Some(t) = top {
            if rest == Some(t) {
                let j = choose|j: int| 0 <= j < n - 1 && #[trigger] elem_layer(cells, cells[i]@[j]) == Some(t);
                assert(elem_layer(cells, cells[i]@[j]) == Some(t));
            } else {
                assert(elem_layer(cells, cells[i]@[n - 1]) == Some(t));
            }
        }
    }
}

/// The top layer of a cell is the highest layer its elements reach (see
/// [`law_top_layer_is_highest`]).
pub proof fn law_top_of_cell_is_highest(cells: Seq<Vec<CellElement>>, i: int)
    requires
        cells_ordered(cells),
        0 <= i < cells.len(),
    ensures
        forall|j: int|
            0 <= j < cells[i]@.len() && (#[trigger] elem_layer(cells, cells[i]@[j])) is Some
                ==> top_of_cell(cells, i) is Some && elem_layer(cells, cells[i]@[j])->0
                <= top_of_cell(cells, i)->0,
        top_of_cell(cells, i) matches Some(t) ==> exists|j: int|
            0 <= j < cells[i]@.len() && #[trigger] elem_layer(cells, cells[i]@[j]) == Some(t),
{
    law_top_layer_is_highest(cells, i, cells[i]@.len() as int);
}

/// The larger of two optional layer indices.
fn max_opt(a: Option<usize>, b: Option<usize>) -> (r: Option<usize>)
    ensures
        r == max_layer(a, b),
{
    match (a, b) {
        (Some(x), Some(y)) => Some(if x >= y { x } else { y }),
        (Some(x), None) => Some(x),
        (None, _) => b,
    }
}

/// The topmost routing layer used by cell `cell` of `cells`, or `None` where it draws
/// on no routing layer.
pub fn top_layer(cells: &Vec<Vec<CellElement>>, cell: usize) -> (r: Option<usize>)
    requires
        cell < cells@.len(),
        cells_ordered(cells@),
    ensures
        r == top_of_cell(cells@, cell as int),
{
    let mut state: Vec<Option<Option<usize>>> = Vec::new();
    let mut k: usize = 0;
    while k < cells.len()
        invariant
            k <= cells@.len(),
            state@.len() == k,
            forall|j: int| 0 <= j < k ==> state@[j] is None,
        decreases cells@.len() - k,
    {
        state.push(None);
        k = k + 1;
    }
    top_layer_inner(cells, cell, &mut state)
}

/// The memo is sound: every layer it records is the cell's topmost layer.
pub open spec fn memo_ok(cells: Seq<Vec<CellElement>>, state: Seq<Option<Option<usize>>>) -> bool {
    &&& state.len() == cells.len()
    &&& forall|j: int|
        0 <= j < state.len() ==> (#[trigger] state[j] matches Some(t) ==> t == top_of_cell(cells, j))
}

/// The topmost routing layer used by cell `cell`, remembering the answer for every
/// cell visited in `state`.
pub fn top_layer_inner(
    cells: &Vec<Vec<CellElement>>,
    cell: usize,
    state: &mut Vec<Option<Option<usize>>>,
) -> (r: Option<usize>)
    requires
        cell < cells@.len(),
        cells_ordered(cells@),
        memo_ok(cells@, old(state)@),
    ensures
        r == top_of_cell(cells@, cell as int),
        memo_ok(cells@, final(state)@),
        final(state)@[cell as int] == Some(r),
        old(state)@[cell as int] is Some ==> final(state)@ == old(state)@,
        forall|j: int|
            0 <= j < old(state)@.len() && (#[trigger] old(state)@[j]) is Some ==> final(state)@[j]
                == old(state)@[j],
    decreases cell,
{
    if let Some(layer) = state[cell] {
        return layer;
    }
    let ghost st0 = state@;
    let elems = &cells[cell];
    let mut top: Option<usize> = None;
    let mut n: usize = 0;
    while n < elems.len()
        invariant
            cell < cells@.len(),
            cells_ordered(cells@),
            *elems == cells@[cell as int],
            n <= elems@.len(),
            memo_ok(cells@, state@),
            top == top_of_elems(cells@, cell as int, n as int),
            st0.len() == state@.len(),
            forall|j: int| 0 <= j < st0.len() && (#[trigger] st0[j]) is Some ==> state@[j] == st0[j],
        decreases elems@.len() - n,
    {
        match elems[n] {
            CellElement::Instance(c) => {
                assert(cells@[cell as int]@[n as int] matches CellElement::Instance(c) ==> c < cell);
                let sub = top_layer_inner(cells, c, state);
                top = max_opt(top, sub);
            },
            CellElement::Shape(l) => {
                top = max_opt(top, l);
            },
            CellElement::Text => {},
        }
        n = n + 1;
    }
    state.set(cell, Some(top));
    top
}

/// Divides `a` by `b`, rounding down; the quotient of the least `i64` by -1 does not
/// fit and is left out.
pub fn div_floor(a: i64, b: i64) -> (r: i64)
    requires
        b != 0,
        !(a == i64::MIN && b == -1),
    ensures
        r == floor_div(a as int, b as int),
{
    if b > 0 {
        div_floor_pos(a, b)
    } else if b == i64::MIN {
        proof {
            let d: int = 0x8000_0000_0000_0000;
            if a == i64::MIN {
                lemma_fundamental_div_mod_converse(-(a as int), d, 1, 0);
            } else if a > 0 {
                lemma_fundamental_div_mod_converse(-(a as int), d, -1, d - a);
            } else {
                lemma_fundamental_div_mod_converse(-(a as int), d, 0, -(a as int));
            }
        }
        if a == i64::MIN {
            1
        } else if a > 0 {
            -1
        } else {
            0
        }
    } else if a == i64::MIN {
        let mb = (-b) as u64;
        let q = 0x8000_0000_0000_0000u64 / mb;
        proof {
            assert(q <= 0x4000_0000_0000_0000) by (nonlinear_arith)
                requires
                    q == 0x8000_0000_0000_0000u64 / mb,
                    mb >= 2,
            ;
        }
        q as i64
    } else {
        div_floor_pos(-a, -b)
    }
}

/// Divides `a` by `b`, rounding up; the quotient of the least `i64` by -1 does not fit
/// and is left out.
pub fn div_ceil(a: i64, b: i64) -> (r: i64)
    requires
        b != 0,
        !(a == i64::MIN && b == -1),
    ensures
        r == ceil_div(a as int, b as int),
{
    if b > 0 {
        div_ceil_pos(a, b)
    } else if b == i64::MIN {
        proof {
            let d: int = 0x8000_0000_0000_0000;
            if a < 0 {
                lemma_fundamental_div_mod_converse(a as int, d, -1, d + a);
            } else {
                lemma_fundamental_div_mod_converse(a as int, d, 0, a as int);
            }
        }
        if a < 0 {
            1
        } else {
            0
        }
    } else if a == i64::MIN {
        let mb = (-b) as u64;
        let q = 0x7fff_ffff_ffff_ffffu64 / mb;
        let rem = 0x7fff_ffff_ffff_ffffu64 % mb;
        proof {
            assert(0x7fff_ffff_ffff_ffff == q * mb + rem && 0 <= rem < mb && q < 0x4000_0000_0000_0000)
                by (nonlinear_arith)
                requires
                    q == 0x7fff_ffff_ffff_ffffu64 / mb,
                    rem == 0x7fff_ffff_ffff_ffffu64 % mb,
                    mb >= 2,
            ;
            assert(a == (-(q as int) - 1) * mb + (mb - rem - 1)) by (nonlinear_arith)
                requires
                    0x7fff_ffff_ffff_ffff == q * mb + rem,
                    a == -0x8000_0000_0000_0000,
            ;
            lemma_fundamental_div_mod_converse(a as int, mb as int, -(q as int) - 1, mb - rem - 1);
        }
        q as i64 + 1
    } else {
        div_ceil_pos(-a, -b)
    }
}

/// Rounding down never exceeds rounding up, and both are monotone: for `a <= c`, the
/// floor of `a / b` is at most the ceiling of `c / b`.
pub proof fn lemma_floor_le_ceil(a: int, c: int, b: int)
    requires
        a <= c,
        b > 0,
    ensures
        floor_div(a, b) <= ceil_div(c, b),
{
    lemma_div_is_ordered(a, c, b);
    lemma_fundamental_div_mod(c, b);
    lemma_fundamental_div_mod(-c, b);
    let q1 = c / b;
    let q2 = (-c) / b;
    let r1 = c % b;
    let r2 = (-c) % b;
    assert(q1 + q2 <= 0) by (nonlinear_arith)
        requires
            c == b * q1 + r1,
            -c == b * q2 + r2,
            0 <= r1 < b,
            0 <= r2 < b,
            b > 0,
    ;
}

/// A port of a cell as the routing grid sees it: the index of its routing layer, and the
/// grid points that lie within it (`None` when no grid point does), in that layer's grid
/// coordinates.
#[derive(Debug, Copy, Clone)]
pub struct PortOnGrid {
    /// The routing layer of the port.
    pub layer: usize,
    /// The grid points within the port.
    pub points: Option<Rect>,
}

/// Whether the closed rectangle `r` holds the point `(x, y)`.
pub open spec fn rect_covers(r: Rect, x: int, y: int) -> bool {
    r.sides().0 <= x <= r.sides().2 && r.sides().1 <= y <= r.sides().3
}

/// Whether port `p` covers grid point `(x, y)` of layer `layer`.
pub open spec fn port_covers(p: PortOnGrid, layer: int, x: int, y: int) -> bool {
    p.layer == layer && (p.points matches Some(r) && rect_covers(r, x, y))
}

/// Whether some port covers grid point `(x, y)` of layer `layer`.
pub open spec fn obstructed(ports: Seq<PortOnGrid>, layer: int, x: int, y: int) -> bool {
    exists|i: int| 0 <= i < ports.len() && #[trigger] port_covers(ports[i], layer, x, y)
}

/// The quotient of `a` by a positive `b`, rounded toward zero.
pub open spec fn trunc_div(a: int, b: int) -> int {
    if a >= 0 {
        a / b
    } else {
        -((-a) / b)
    }
}

/// The state of grid point `(x, y)` of layer `layer`: obstructed where a port covers it,
/// available elsewhere.
pub open spec fn grid_point_state(ports: Seq<PortOnGrid>, layer: int, x: int, y: int) -> PointState {
    if obstructed(ports, layer, x, y) {
        PointState::Obstructed
    } else {
        PointState::Available
    }
}

/// `states` is the `nx` by `ny` grid of layer `layer`, indexed by x and then y, whose
/// point `(x, y)` is the point `(x + xofs, y + yofs)` of the ports' grid coordinates.
pub open spec fn states_are(
    states: Seq<Vec<PointState>>,
    ports: Seq<PortOnGrid>,
    layer: int,
    nx: int,
    ny: int,
    xofs: int,
    yofs: int,
) -> bool {
    &&& states.len() == nx
    &&& forall|x: int|
        0 <= x < nx ==> (#[trigger] states[x])@.len() == ny && forall|y: int|
            0 <= y < ny ==> states[x]@[y] == grid_point_state(ports, layer, x + xofs, y + yofs)
}

/// The grid offset of a layer whose pitches are `pitch`, for a tile whose lower-left
/// corner lies at `origin` in physical units: the corner's grid coordinates, rounded
/// toward zero.
pub open spec fn grid_offset(origin: (int, int), pitch: (i64, i64)) -> (int, int) {
    (trunc_div(origin.0, pitch.0 as int), trunc_div(origin.1, pitch.1 as int))
}

/// Every port that holds grid points lies on a layer up to `top`, and all of its points,
/// moved by its layer's offset, lie on that layer's grid of `dims` points.
pub open spec fn ports_in_grid(
    ports: Seq<PortOnGrid>,
    dims: Seq<(usize, usize)>,
    pitches: Seq<(i64, i64)>,
    top: int,
    origin: (int, int),
) -> bool {
    forall|i: int|
        0 <= i < ports.len() && (#[trigger] ports[i]).points is Some ==> {
            let p = ports[i];
            let r = p.points->0;
            let (xo, yo) = grid_offset(origin, pitches[p.layer as int]);
            &&& p.layer <= top
            &&& 0 <= r.sides().0 - xo
            &&& r.sides().2 - xo < dims[p.layer as int].0
            &&& 0 <= r.sides().1 - yo
            &&& r.sides().3 - yo < dims[p.layer as int].1
        }
}

/// `layers` holds the detailed state of each layer up to `top`: on layer `l`, a grid of
/// `dims[l]` points, offset by the tile's corner `origin`, on which exactly the points
/// covered by a port are obstructed.
pub open spec fn layers_are(
    layers: Seq<LayerAbstract>,
    ports: Seq<PortOnGrid>,
    dims: Seq<(usize, usize)>,
    pitches: Seq<(i64, i64)>,
    top: int,
    origin: (int, int),
) -> bool {
    &&& layers.len() == top + 1
    &&& forall|l: int|
        0 <= l <= top ==> (#[trigger] layers[l] matches LayerAbstract::Detailed { states }
            && states_are(
            states@,
            ports,
            l,
            dims[l].0 as int,
            dims[l].1 as int,
            grid_offset(origin, pitches[l]).0,
            grid_offset(origin, pitches[l]).1,
        ))
}

/// Divides `a` by a positive `b`, rounding toward zero.
fn trunc_div_i64(a: i64, b: i64) -> (r: i64)
    requires
        b > 0,
    ensures
        r == trunc_div(a as int, b as int),
{
    if a >= 0 {
        let q = (a as u64) / (b as u64);
        q as i64
    } else {
        let m: u64 = if a == i64::MIN {
            0x8000_0000_0000_0000u64
        } else {
            (-a) as u64
        };
        let q = m / (b as u64);
        proof {
            assert(q <= m) by (nonlinear_arith)
                requires
                    q == m / (b as u64),
                    b >= 1,
            ;
        }
        if q == 0x8000_0000_0000_0000u64 {
            i64::MIN
        } else {
            -(q as i64)
        }
    }
}

/// Whether some port covers grid point `(x, y)` of layer `layer`.
fn obstructed_at(ports: &Vec<PortOnGrid>, layer: usize, x: i128, y: i128) -> (r: bool)
    ensures
        r == obstructed(ports@, layer as int, x as int, y as int),
{
    let mut i: usize = 0;
    while i < ports.len()
        invariant
            i <= ports@.len(),
            forall|j: int| 0 <= j < i ==> !port_covers(ports@[j], layer as int, x as int, y as int),
        decreases ports.len() - i,
    {
        let p = ports[i];
        if p.layer == layer {
            if let Some(r) = p.points {
                if r.left() as i128 <= x && x <= r.right() as i128 && r.bot() as i128 <= y && y
                    <= r.top() as i128 {
                    assert(port_covers(ports@[i as int], layer as int, x as int, y as int));
                    return true;
                }
            }
        }
        i = i + 1;
    }
    false
}

/// The `nx` by `ny` grid of states of layer `layer`, whose point `(x, y)` is the point
/// `(x + xofs, y + yofs)` of the ports' grid coordinates.
fn layer_states(
    ports: &Vec<PortOnGrid>,
    layer: usize,
    nx: usize,
    ny: usize,
    xofs: i64,
    yofs: i64,
) -> (r: Vec<Vec<PointState>>)
    ensures
        states_are(r@, ports@, layer as int, nx as int, ny as int, xofs as int, yofs as int),
{
    let mut states: Vec<Vec<PointState>> = Vec::new();
    let mut x: usize = 0;
    while x < nx
        invariant
            x <= nx,
            states@.len() == x,
            forall|i: int|
                0 <= i < x ==> (#[trigger] states@[i])@.len() == ny && forall|y: int|
                    0 <= y < ny ==> states@[i]@[y] == grid_point_state(
                        ports@,
                        layer as int,
                        i + xofs,
                        y + yofs,
                    ),
        decreases nx - x,
    {
        let mut col: Vec<PointState> = Vec::new();
        let mut y: usize = 0;
        while y < ny
            invariant
                y <= ny,
                x < nx,
                col@.len() == y,
                forall|j: int|
                    0 <= j < y ==> (#[trigger] col@[j]) == grid_point_state(
                        ports@,
                        layer as int,
                        x + xofs,
                        j + yofs,
                    ),
            decreases ny - y,
        {
            let gx: i128 = x as i128 + xofs as i128;
            let gy: i128 = y as i128 + yofs as i128;
            let st = if obstructed_at(ports, layer, gx, gy) {
                PointState::Obstructed
            } else {
                PointState::Available
            };
            col.push(st);
            y = y + 1;
        }
        states.push(col);
        x = x + 1;
    }
    states
}

/// The state of each routing layer up to `top` of a tile whose lower-left corner lies at
/// `origin` in physical units: layer `l` is a grid of `dims[l]` points, whose offset from
/// the ports' grid coordinates is the corner divided by the layer's pitches `pitches[l]`,
/// rounded toward zero; the points that a port covers are obstructed, the others available.
pub fn port_obstructions(
    origin: Point,
    top: usize,
    dims: &Vec<(usize, usize)>,
    pitches: &Vec<(i64, i64)>,
    ports: &Vec<PortOnGrid>,
) -> (r: Vec<LayerAbstract>)
    requires
        top < dims@.len(),
        top < pitches@.len(),
        forall|l: int| 0 <= l < pitches@.len() ==> (#[trigger] pitches@[l]).0 > 0 && pitches@[l].1 > 0,
        ports_in_grid(ports@, dims@, pitches@, top as int, (origin.x as int, origin.y as int)),
    ensures
        layers_are(r@, ports@, dims@, pitches@, top as int, (origin.x as int, origin.y as int)),
{
    let ghost o = (origin.x as int, origin.y as int);
    let mut layers: Vec<LayerAbstract> = Vec::new();
    let n = dims.len();
    let mut l: usize = 0;
    while l <= top
        invariant
            l <= top + 1,
            top < n,
            n == dims@.len(),
            top < pitches@.len(),
            forall|k: int| 0 <= k < pitches@.len() ==> (#[trigger] pitches@[k]).0 > 0 && pitches@[k].1 > 0,
            o == (origin.x as int, origin.y as int),
            layers@.len() == l,
            forall|k: int|
                0 <= k < l ==> (#[trigger] layers@[k] matches LayerAbstract::Detailed { states }
                    && states_are(
                    states@,
                    ports@,
                    k,
                    dims@[k].0 as int,
                    dims@[k].1 as int,
                    grid_offset(o, pitches@[k]).0,
                    grid_offset(o, pitches@[k]).1,
                )),
        decreases top + 1 - l,
    {
        let (px, py) = pitches[l];
        assert(pitches@[l as int].0 > 0 && pitches@[l as int].1 > 0);
        let xofs = trunc_div_i64(origin.x, px);
        let yofs = trunc_div_i64(origin.y, py);
        let (nx, ny) = dims[l];
        let states = layer_states(ports, l, nx, ny, xofs, yofs);
        layers.push(LayerAbstract::Detailed { states });
        l = l + 1;
    }
    layers
}

/// The frame of the abstract view of cell `cell`, whose layout has bounding box `bbox`:
/// its top routing layer (at least layer 1) and its bounds in units of `units[top]`, the
/// least-common-multiple unit of the layers up to the top one, rounded outwards.
pub open spec fn abstract_frame(
    cells: Seq<Vec<CellElement>>,
    cell: int,
    bbox: Rect,
    units: Seq<(i64, i64)>,
) -> (usize, (int, int, int, int)) {
    let t = top_of_cell(cells, cell)->0;
    let top = if t == 0 { 1usize } else { t };
    let (w, h) = units[top as int];
    (
        top,
        (
            floor_div(bbox.sides().0 as int, w as int),
            floor_div(bbox.sides().1 as int, h as int),
            ceil_div(bbox.sides().2 as int, w as int),
            ceil_div(bbox.sides().3 as int, h as int),
        ),
    )
}

/// The lower-left corner of the abstract view's frame in physical units: its corner in
/// least-common-multiple units, scaled by the unit size.
pub open spec fn abstract_origin(
    cells: Seq<Vec<CellElement>>,
    cell: int,
    bbox: Rect,
    units: Seq<(i64, i64)>,
) -> (int, int) {
    let (top, sides) = abstract_frame(cells, cell, bbox, units);
    let (w, h) = units[top as int];
    (sides.0 * w, sides.1 * h)
}

/// Generates the abstract view of cell `cell` of `cells`, whose layout has bounding box
/// `bbox`; `units[t]` is the least-common-multiple unit `(width, height)` of the routing
/// layers `0..=t`. Layer `l` of the routing grid has `dims[l]` points over the tile and
/// pitches `pitches[l]`, and `ports` are the cell's ports on routing layers, on that grid:
/// each layer up to the top one is detailed, with the points under a port obstructed.
pub fn generate_abstract(
    cells: &Vec<Vec<CellElement>>,
    cell: usize,
    bbox: Rect,
    units: &Vec<(i64, i64)>,
    dims: &Vec<(usize, usize)>,
    pitches: &Vec<(i64, i64)>,
    ports: &Vec<PortOnGrid>,
) -> (r: AtollAbstract)
    requires
        cell < cells@.len(),
        cells_ordered(cells@),
        top_of_cell(cells@, cell as int) is Some,
        forall|t: int| 0 <= t < units@.len() ==> (#[trigger] units@[t]).0 > 0 && units@[t].1 > 0,
        ({
            let t = top_of_cell(cells@, cell as int)->0;
            (if t == 0 { 1 } else { t }) < units@.len()
        }),
        abstract_frame(cells@, cell as int, bbox, units@).0 < dims@.len(),
        abstract_frame(cells@, cell as int, bbox, units@).0 < pitches@.len(),
        forall|l: int| 0 <= l < pitches@.len() ==> (#[trigger] pitches@[l]).0 > 0 && pitches@[l].1 > 0,
        i64::MIN <= abstract_origin(cells@, cell as int, bbox, units@).0,
        i64::MIN <= abstract_origin(cells@, cell as int, bbox, units@).1,
        ports_in_grid(
            ports@,
            dims@,
            pitches@,
            abstract_frame(cells@, cell as int, bbox, units@).0 as int,
            abstract_origin(cells@, cell as int, bbox, units@),
        ),
    ensures
        r.top_layer == abstract_frame(cells@, cell as int, bbox, units@).0,
        ({
            let (l, b, rt, t) = r.lcm_bounds.sides();
            (l as int, b as int, rt as int, t as int) == abstract_frame(
                cells@,
                cell as int,
                bbox,
                units@,
            ).1
        }),
        (r.lcm_unit_width, r.lcm_unit_height) == units@[r.top_layer as int],
        layers_are(
            r.layers@,
            ports@,
            dims@,
            pitches@,
            r.top_layer as int,
            abstract_origin(cells@, cell as int, bbox, units@),
        ),
{
    let top = match top_layer(cells, cell) {
        Some(t) => t,
        None => 0,
    };
    let top = if top == 0 { 1 } else { top };
    let (w, h) = units[top];
    let l = bbox.left();
    let b = bbox.bot();
    let xmin = div_floor(l, w);
    let xmax = div_ceil(bbox.right(), w);
    let ymin = div_floor(b, h);
    let ymax = div_ceil(bbox.top(), h);
    proof {
        lemma_floor_le_ceil(bbox.sides().0 as int, bbox.sides().2 as int, w as int);
        lemma_floor_le_ceil(bbox.sides().1 as int, bbox.sides().3 as int, h as int);
        lemma_floor_times_le(l as int, w as int);
        lemma_floor_times_le(b as int, h as int);
    }
    let lcm_bounds = Rect::from_sides(xmin, ymin, xmax, ymax);
    let origin = Point { x: xmin * w, y: ymin * h };
    let layers = port_obstructions(origin, top, dims, pitches, ports);
    AtollAbstract { top_layer: top, lcm_bounds, layers, lcm_unit_width: w, lcm_unit_height: h }
}

/// A quotient rounded down, times the divisor, is at most the dividend.
proof fn lemma_floor_times_le(a: int, b: int)
    requires
        b > 0,
    ensures
        floor_div(a, b) * b <= a,
{
    lemma_fundamental_div_mod(a, b);
    assert(floor_div(a, b) == a / b);
    assert(a % b >= 0);
    assert((a / b) * b == b * (a / b)) by (nonlinear_arith);
}

} // verus!
