//! The SkyWater 130nm process: its layers and their GDS numbers, and its MOS devices.
use crate::io::{Direction, FlatLen, Flatten, InOut, Signal};
use crate::text::{push_signed_decimal, signed_decimal};
use vstd::prelude::*;

verus! {

/// A GDS layer: its layer number and data type.
#[derive(Clone, Copy, Debug, PartialEq, Eq, Structural, Hash)]
pub struct GdsLayer(pub u16, pub u8);

/// The layers of the process.
#[derive(Copy, Clone, Debug, PartialEq, Eq, Structural, Hash)]
pub enum Sky130Layer {
    /// The `PrBoundary` layer.
    PrBoundary,
    /// The `Pwell` layer.
    Pwell,
    /// The `Nwell` layer.
    Nwell,
    /// The `Dnwell` layer.
    Dnwell,
    /// The `Vhvi` layer.
    Vhvi,
    /// The `Diff` layer.
    Diff,
    /// The `Tap` layer.
    Tap,
    /// The `Psdm` layer.
    Psdm,
    /// The `Nsdm` layer.
    Nsdm,
    /// The `Poly` layer.
    Poly,
    /// The `Ldntm` layer.
    Ldntm,
    /// The `Lvtn` layer.
    Lvtn,
    /// The `Hvtp` layer.
    Hvtp,
    /// The `Hvtr` layer.
    Hvtr,
    /// The `Tunm` layer.
    Tunm,
    /// The `Licon1` layer.
    Licon1,
    /// The `Npc` layer.
    Npc,
    /// The `Li1` layer.
    Li1,
    /// The `Mcon` layer.
    Mcon,
    /// The `Met1` layer.
    Met1,
    /// The `Via` layer.
    Via,
    /// The `Met2` layer.
    Met2,
    /// The `Via2` layer.
    Via2,
    /// The `Met3` layer.
    Met3,
    /// The `Via3` layer.
    Via3,
    /// The `Met4` layer.
    Met4,
    /// The `Via4` layer.
    Via4,
    /// The `Met5` layer.
    Met5,
    /// The `Pad` layer.
    Pad,
    /// The `Rpm` layer.
    Rpm,
    /// The `Urpm` layer.
    Urpm,
    /// The `Hvi` layer.
    Hvi,
    /// The `Ncm` layer.
    Ncm,
    /// The `CfomDrawing` layer.
    CfomDrawing,
    /// The `CfomMask` layer.
    CfomMask,
    /// The `CfomMaskAdd` layer.
    CfomMaskAdd,
    /// The `CfomMaskDrop` layer.
    CfomMaskDrop,
    /// The `Cli1mDrawing` layer.
    Cli1mDrawing,
    /// The `Cli1mMask` layer.
    Cli1mMask,
    /// The `Cli1mMaskAdd` layer.
    Cli1mMaskAdd,
    /// The `Cli1mMaskDrop` layer.
    Cli1mMaskDrop,
    /// The `AreaIdLowTapDensity` layer.
    AreaIdLowTapDensity,
    /// The `AreaIdSeal` layer.
    AreaIdSeal,
    /// The `AreaIdCore` layer.
    AreaIdCore,
    /// The `AreaIdFrame` layer.
    AreaIdFrame,
    /// The `AreaIdEsd` layer.
    AreaIdEsd,
    /// The `AreaIdStandardc` layer.
    AreaIdStandardc,
    /// The `AreaIdAnalog` layer.
    AreaIdAnalog,
    /// The `Outline` layer.
    Outline,
}

/// The GDS layer on which shapes of layer `l` are drawn.
pub open spec fn drawing_layer_of(l: Sky130Layer) -> GdsLayer {
    match l {
        Sky130Layer::PrBoundary => GdsLayer(235u16, 4u8),
        Sky130Layer::Pwell => GdsLayer(64u16, 44u8),
        Sky130Layer::Nwell => GdsLayer(64u16, 20u8),
        Sky130Layer::Dnwell => GdsLayer(64u16, 18u8),
        Sky130Layer::Vhvi => GdsLayer(74u16, 21u8),
        Sky130Layer::Diff => GdsLayer(65u16, 20u8),
        Sky130Layer::Tap => GdsLayer(65u16, 44u8),
        Sky130Layer::Psdm => GdsLayer(94u16, 20u8),
        Sky130Layer::Nsdm => GdsLayer(93u16, 44u8),
        Sky130Layer::Poly => GdsLayer(66u16, 20u8),
        Sky130Layer::Ldntm => GdsLayer(11u16, 44u8),
        Sky130Layer::Lvtn => GdsLayer(125u16, 44u8),
        Sky130Layer::Hvtp => GdsLayer(78u16, 44u8),
        Sky130Layer::Hvtr => GdsLayer(18u16, 20u8),
        Sky130Layer::Tunm => GdsLayer(80u16, 20u8),
        Sky130Layer::Licon1 => GdsLayer(66u16, 44u8),
        Sky130Layer::Npc => GdsLayer(95u16, 20u8),
        Sky130Layer::Li1 => GdsLayer(67u16, 20u8),
        Sky130Layer::Mcon => GdsLayer(67u16, 44u8),
        Sky130Layer::Met1 => GdsLayer(68u16, 20u8),
        Sky130Layer::Via => GdsLayer(68u16, 44u8),
        Sky130Layer::Met2 => GdsLayer(69u16, 20u8),
        Sky130Layer::Via2 => GdsLayer(69u16, 44u8),
        Sky130Layer::Met3 => GdsLayer(70u16, 20u8),
        Sky130Layer::Via3 => GdsLayer(70u16, 44u8),
        Sky130Layer::Met4 => GdsLayer(71u16, 20u8),
        Sky130Layer::Via4 => GdsLayer(71u16, 44u8),
        Sky130Layer::Met5 => GdsLayer(72u16, 20u8),
        Sky130Layer::Pad => GdsLayer(76u16, 20u8),
        Sky130Layer::Rpm => GdsLayer(86u16, 20u8),
        Sky130Layer::Urpm => GdsLayer(79u16, 20u8),
        Sky130Layer::Hvi => GdsLayer(75u16, 20u8),
        Sky130Layer::Ncm => GdsLayer(92u16, 44u8),
        Sky130Layer::CfomDrawing => GdsLayer(22u16, 20u8),
        Sky130Layer::CfomMask => GdsLayer(23u16, 0u8),
        Sky130Layer::CfomMaskAdd => GdsLayer(22u16, 21u8),
        Sky130Layer::CfomMaskDrop => GdsLayer(22u16, 22u8),
        Sky130Layer::Cli1mDrawing => GdsLayer(115u16, 44u8),
        Sky130Layer::Cli1mMask => GdsLayer(56u16, 0u8),
        Sky130Layer::Cli1mMaskAdd => GdsLayer(115u16, 43u8),
        Sky130Layer::Cli1mMaskDrop => GdsLayer(115u16, 42u8),
        Sky130Layer::AreaIdLowTapDensity => GdsLayer(81u16, 14u8),
        Sky130Layer::AreaIdSeal => GdsLayer(81u16, 1u8),
        Sky130Layer::AreaIdCore => GdsLayer(81u16, 2u8),
        Sky130Layer::AreaIdFrame => GdsLayer(81u16, 3u8),
        Sky130Layer::AreaIdEsd => GdsLayer(81u16, 19u8),
        Sky130Layer::AreaIdStandardc => GdsLayer(81u16, 4u8),
        Sky130Layer::AreaIdAnalog => GdsLayer(81u16, 79u8),
        Sky130Layer::Outline => GdsLayer(236u16, 0u8),
    }
}

/// The GDS layer for pins of layer `l`, if it has one.
pub open spec fn pin_layer_of(l: Sky130Layer) -> Option<GdsLayer> {
    match l {
        Sky130Layer::Pwell => Some(GdsLayer(122u16, 16u8)),
        Sky130Layer::Nwell => Some(GdsLayer(64u16, 16u8)),
        Sky130Layer::Poly => Some(GdsLayer(66u16, 16u8)),
        Sky130Layer::Licon1 => Some(GdsLayer(66u16, 58u8)),
        Sky130Layer::Li1 => Some(GdsLayer(67u16, 16u8)),
        Sky130Layer::Mcon => Some(GdsLayer(67u16, 48u8)),
        Sky130Layer::Met1 => Some(GdsLayer(68u16, 16u8)),
        Sky130Layer::Via => Some(GdsLayer(68u16, 58u8)),
        Sky130Layer::Met2 => Some(GdsLayer(69u16, 16u8)),
        Sky130Layer::Via2 => Some(GdsLayer(69u16, 58u8)),
        Sky130Layer::Met3 => Some(GdsLayer(70u16, 16u8)),
        Sky130Layer::Via3 => Some(GdsLayer(70u16, 48u8)),
        Sky130Layer::Met4 => Some(GdsLayer(71u16, 16u8)),
        Sky130Layer::Via4 => Some(GdsLayer(71u16, 48u8)),
        Sky130Layer::Met5 => Some(GdsLayer(72u16, 16u8)),
        Sky130Layer::Pad => Some(GdsLayer(76u16, 16u8)),
        _ => None,
    }
}

/// The GDS layer for labels of layer `l`, if it has one.
pub open spec fn label_layer_of(l: Sky130Layer) -> Option<GdsLayer> {
    match l {
        Sky130Layer::Pwell => Some(GdsLayer(64u16, 59u8)),
        Sky130Layer::Nwell => Some(GdsLayer(64u16, 5u8)),
        Sky130Layer::Poly => Some(GdsLayer(66u16, 5u8)),
        Sky130Layer::Licon1 => Some(GdsLayer(66u16, 41u8)),
        Sky130Layer::Li1 => Some(GdsLayer(67u16, 5u8)),
        Sky130Layer::Mcon => Some(GdsLayer(67u16, 41u8)),
        Sky130Layer::Met1 => Some(GdsLayer(68u16, 5u8)),
        Sky130Layer::Via => Some(GdsLayer(68u16, 41u8)),
        Sky130Layer::Met2 => Some(GdsLayer(69u16, 5u8)),
        Sky130Layer::Via2 => Some(GdsLayer(69u16, 41u8)),
        Sky130Layer::Met3 => Some(GdsLayer(70u16, 5u8)),
        Sky130Layer::Via3 => Some(GdsLayer(70u16, 41u8)),
        Sky130Layer::Met4 => Some(GdsLayer(71u16, 5u8)),
        Sky130Layer::Via4 => Some(GdsLayer(71u16, 41u8)),
        Sky130Layer::Met5 => Some(GdsLayer(72u16, 5u8)),
        Sky130Layer::Pad => Some(GdsLayer(76u16, 5u8)),
        _ => None,
    }
}

impl Sky130Layer {
    /// The GDS layer on which shapes of this layer are drawn.
    pub fn gds_layer(&self) -> (r: GdsLayer)
        ensures
            r == drawing_layer_of(*self),
    {
        match self {
            Sky130Layer::PrBoundary => GdsLayer(235, 4),
            Sky130Layer::Pwell => GdsLayer(64, 44),
            Sky130Layer::Nwell => GdsLayer(64, 20),
            Sky130Layer::Dnwell => GdsLayer(64, 18),
            Sky130Layer::Vhvi => GdsLayer(74, 21),
            Sky130Layer::Diff => GdsLayer(65, 20),
            Sky130Layer::Tap => GdsLayer(65, 44),
            Sky130Layer::Psdm => GdsLayer(94, 20),
            Sky130Layer::Nsdm => GdsLayer(93, 44),
            Sky130Layer::Poly => GdsLayer(66, 20),
            Sky130Layer::Ldntm => GdsLayer(11, 44),
            Sky130Layer::Lvtn => GdsLayer(125, 44),
            Sky130Layer::Hvtp => GdsLayer(78, 44),
            Sky130Layer::Hvtr => GdsLayer(18, 20),
            Sky130Layer::Tunm => GdsLayer(80, 20),
            Sky130Layer::Licon1 => GdsLayer(66, 44),
            Sky130Layer::Npc => GdsLayer(95, 20),
            Sky130Layer::Li1 => GdsLayer(67, 20),
            Sky130Layer::Mcon => GdsLayer(67, 44),
            Sky130Layer::Met1 => GdsLayer(68, 20),
            Sky130Layer::Via => GdsLayer(68, 44),
            Sky130Layer::Met2 => GdsLayer(69, 20),
            Sky130Layer::Via2 => GdsLayer(69, 44),
            Sky130Layer::Met3 => GdsLayer(70, 20),
            Sky130Layer::Via3 => GdsLayer(70, 44),
            Sky130Layer::Met4 => GdsLayer(71, 20),
            Sky130Layer::Via4 => GdsLayer(71, 44),
            Sky130Layer::Met5 => GdsLayer(72, 20),
            Sky130Layer::Pad => GdsLayer(76, 20),
            Sky130Layer::Rpm => GdsLayer(86, 20),
            Sky130Layer::Urpm => GdsLayer(79, 20),
            Sky130Layer::Hvi => GdsLayer(75, 20),
            Sky130Layer::Ncm => GdsLayer(92, 44),
            Sky130Layer::CfomDrawing => GdsLayer(22, 20),
            Sky130Layer::CfomMask => GdsLayer(23, 0),
            Sky130Layer::CfomMaskAdd => GdsLayer(22, 21),
            Sky130Layer::CfomMaskDrop => GdsLayer(22, 22),
            Sky130Layer::Cli1mDrawing => GdsLayer(115, 44),
            Sky130Layer::Cli1mMask => GdsLayer(56, 0),
            Sky130Layer::Cli1mMaskAdd => GdsLayer(115, 43),
            Sky130Layer::Cli1mMaskDrop => GdsLayer(115, 42),
            Sky130Layer::AreaIdLowTapDensity => GdsLayer(81, 14),
            Sky130Layer::AreaIdSeal => GdsLayer(81, 1),
            Sky130Layer::AreaIdCore => GdsLayer(81, 2),
            Sky130Layer::AreaIdFrame => GdsLayer(81, 3),
            Sky130Layer::AreaIdEsd => GdsLayer(81, 19),
            Sky130Layer::AreaIdStandardc => GdsLayer(81, 4),
            Sky130Layer::AreaIdAnalog => GdsLayer(81, 79),
            Sky130Layer::Outline => GdsLayer(236, 0),
        }
    }

    /// The GDS layer for pins of this layer, if it has one.
    pub fn gds_pin_layer(&self) -> (r: Option<GdsLayer>)
        ensures
            r == pin_layer_of(*self),
    {
        match self {
            Sky130Layer::Pwell => Some(GdsLayer(122, 16)),
            Sky130Layer::Nwell => Some(GdsLayer(64, 16)),
            Sky130Layer::Poly => Some(GdsLayer(66, 16)),
            Sky130Layer::Licon1 => Some(GdsLayer(66, 58)),
            Sky130Layer::Li1 => Some(GdsLayer(67, 16)),
            Sky130Layer::Mcon => Some(GdsLayer(67, 48)),
            Sky130Layer::Met1 => Some(GdsLayer(68, 16)),
            Sky130Layer::Via => Some(GdsLayer(68, 58)),
            Sky130Layer::Met2 => Some(GdsLayer(69, 16)),
            Sky130Layer::Via2 => Some(GdsLayer(69, 58)),
            Sky130Layer::Met3 => Some(GdsLayer(70, 16)),
            Sky130Layer::Via3 => Some(GdsLayer(70, 48)),
            Sky130Layer::Met4 => Some(GdsLayer(71, 16)),
            Sky130Layer::Via4 => Some(GdsLayer(71, 48)),
            Sky130Layer::Met5 => Some(GdsLayer(72, 16)),
            Sky130Layer::Pad => Some(GdsLayer(76, 16)),
            _ => None,
        }
    }

    /// The GDS layer for labels of this layer, if it has one.
    pub fn gds_label_layer(&self) -> (r: Option<GdsLayer>)
        ensures
            r == label_layer_of(*self),
    {
        match self {
            Sky130Layer::Pwell => Some(GdsLayer(64, 59)),
            Sky130Layer::Nwell => Some(GdsLayer(64, 5)),
            Sky130Layer::Poly => Some(GdsLayer(66, 5)),
            Sky130Layer::Licon1 => Some(GdsLayer(66, 41)),
            Sky130Layer::Li1 => Some(GdsLayer(67, 5)),
            Sky130Layer::Mcon => Some(GdsLayer(67, 41)),
            Sky130Layer::Met1 => Some(GdsLayer(68, 5)),
            Sky130Layer::Via => Some(GdsLayer(68, 41)),
            Sky130Layer::Met2 => Some(GdsLayer(69, 5)),
            Sky130Layer::Via2 => Some(GdsLayer(69, 41)),
            Sky130Layer::Met3 => Some(GdsLayer(70, 5)),
            Sky130Layer::Via3 => Some(GdsLayer(70, 41)),
            Sky130Layer::Met4 => Some(GdsLayer(71, 5)),
            Sky130Layer::Via4 => Some(GdsLayer(71, 41)),
            Sky130Layer::Met5 => Some(GdsLayer(72, 5)),
            Sky130Layer::Pad => Some(GdsLayer(76, 5)),
            _ => None,
        }
    }

}

/// Whether every layer that has a pin layer also has a label layer, and the other way
/// round.
pub proof fn law_pins_have_labels(l: Sky130Layer)
    ensures
        pin_layer_of(l) is Some <==> label_layer_of(l) is Some,
{
}

/// Every pin layer differs from its layer's drawing and label layers. Apart from the
/// p-well, pins and labels lie on their layer's own GDS layer number: a layer drawn with
/// datatype 20 (n-well, poly, local interconnect, the metals and the pad) has its pins on
/// datatype 16 and its labels on datatype 5; a contact or via, drawn with datatype 44,
/// has its pins on datatype 58 or 48 and its labels on datatype 41.
pub proof fn law_pin_layers(l: Sky130Layer)
    ensures
        pin_layer_of(l) matches Some(p) ==> p != drawing_layer_of(l) && Some(p) != label_layer_of(l),
        l != Sky130Layer::Pwell && pin_layer_of(l) is Some ==> {
            let d = drawing_layer_of(l);
            let p = pin_layer_of(l)->0;
            let q = label_layer_of(l)->0;
            &&& p.0 == d.0
            &&& q.0 == d.0
            &&& d.1 == 20u8 ==> p.1 == 16u8 && q.1 == 5u8
            &&& d.1 == 44u8 ==> (p.1 == 58u8 || p.1 == 48u8) && q.1 == 41u8
        },
{
}

/// The position of a layer in the routing stack: 0 for local interconnect, then 1 to 5
/// for the metals.
pub open spec fn routing_level(l: Sky130Layer) -> Option<int> {
    match l {
        Sky130Layer::Li1 => Some(0),
        Sky130Layer::Met1 => Some(1),
        Sky130Layer::Met2 => Some(2),
        Sky130Layer::Met3 => Some(3),
        Sky130Layer::Met4 => Some(4),
        Sky130Layer::Met5 => Some(5),
        _ => None,
    }
}

/// The routing stack lies on consecutive GDS layer numbers: the layer at routing level
/// `k` is drawn on `(67 + k, 20)`, has its pins on `(67 + k, 16)` and its labels on
/// `(67 + k, 5)`; the contact or via at level `k` is drawn on `(66 + k, 44)`, with its
/// pins on layer `66 + k` and its labels on `(66 + k, 41)`.
pub proof fn law_routing_stack_layers(l: Sky130Layer)
    ensures
        routing_level(l) matches Some(k) ==> {
            &&& drawing_layer_of(l) == GdsLayer((67 + k) as u16, 20u8)
            &&& pin_layer_of(l) == Some(GdsLayer((67 + k) as u16, 16u8))
            &&& label_layer_of(l) == Some(GdsLayer((67 + k) as u16, 5u8))
        },
        via_level(l) matches Some(k) ==> {
            &&& drawing_layer_of(l) == GdsLayer((66 + k) as u16, 44u8)
            &&& pin_layer_of(l) matches Some(p) && p.0 == (66 + k) as u16
            &&& label_layer_of(l) == Some(GdsLayer((66 + k) as u16, 41u8))
        },
{
}

/// The position of a contact or via in the stack: 0 for the contact to local
/// interconnect, 1 for the contact to metal 1, then 2 to 5 for the vias above.
pub open spec fn via_level(l: Sky130Layer) -> Option<int> {
    match l {
        Sky130Layer::Licon1 => Some(0),
        Sky130Layer::Mcon => Some(1),
        Sky130Layer::Via => Some(2),
        Sky130Layer::Via2 => Some(3),
        Sky130Layer::Via3 => Some(4),
        Sky130Layer::Via4 => Some(5),
        _ => None,
    }
}

/// MOSFET sizing parameters.
#[derive(Clone, Copy, Debug, Hash, PartialEq, Eq, Structural)]
pub struct MosParams {
    /// Device width, in nm.
    pub w: i64,
    /// Device channel length, in nm.
    pub l: i64,
    /// Number of fingers.
    pub nf: i64,
}

impl From<(i64, i64, i64)> for MosParams {
    fn from(value: (i64, i64, i64)) -> (r: MosParams) {
        MosParams { w: value.0, l: value.1, nf: value.2 }
    }
}

impl vstd::std_specs::convert::FromSpecImpl<(i64, i64, i64)> for MosParams {
    open spec fn obeys_from_spec() -> bool {
        true
    }

    open spec fn from_spec(v: (i64, i64, i64)) -> MosParams {
        MosParams { w: v.0, l: v.1, nf: v.2 }
    }
}

impl From<(i64, i64)> for MosParams {
    fn from(value: (i64, i64)) -> (r: MosParams) {
        MosParams { w: value.0, l: value.1, nf: 1 }
    }
}

impl vstd::std_specs::convert::FromSpecImpl<(i64, i64)> for MosParams {
    open spec fn obeys_from_spec() -> bool {
        true
    }

    open spec fn from_spec(v: (i64, i64)) -> MosParams {
        MosParams { w: v.0, l: v.1, nf: 1 }
    }
}

/// The text of parameters: width, length and fingers, joined by `x`.
pub open spec fn params_text(p: MosParams) -> Seq<char> {
    signed_decimal(p.w as int) + seq!['x'] + signed_decimal(p.l as int) + seq!['x'] + signed_decimal(
        p.nf as int,
    )
}

impl MosParams {
    /// The parameters as text, such as `1000x150x2`.
    pub fn to_text(&self) -> (r: String)
        ensures
            r@ == params_text(*self),
    {
        let mut s = String::new();
        push_signed_decimal(&mut s, self.w);
        s.append("x");
        push_signed_decimal(&mut s, self.l);
        s.append("x");
        push_signed_decimal(&mut s, self.nf);
        proof {
            reveal_strlit("x");
        }
        s
    }
}

/// An enumeration of Sky 130 MOSFET varieties.
#[derive(Clone, Copy, Debug, PartialEq, Eq, Structural, Hash)]
pub enum MosKind {
    /// A core NMOS device.
    Nfet01v8,
    /// A core low-threshold NMOS device.
    Nfet01v8Lvt,
    /// A 3.3V native-threshold NMOS device.
    Nfet03v3Nvt,
    /// A 5.0V native-threshold NMOS device.
    Nfet05v0Nvt,
    /// A 20.0V NMOS device.
    Nfet20v0,
    /// A special latch NMOS, used as the pull down device in SRAM cells.
    SpecialNfetLatch,
    /// A special pass NMOS, used as the access device in SRAM cells.
    SpecialNfetPass,
    /// A special pass PMOS, used as the pull-up device in SRAM cells.
    SpecialPfetPass,
    /// A core PMOS device.
    Pfet01v8,
    /// A core high-threshold PMOS device.
    Pfet01v8Hvt,
    /// A core low-threshold PMOS device.
    Pfet01v8Lvt,
    /// A 20.0V PMOS device.
    Pfet20v0,
}

/// The subcircuit the open-source process uses for kind `k`.
pub open spec fn open_subckt_name(k: MosKind) -> Seq<char> {
    match k {
        MosKind::Nfet01v8 => "sky130_fd_pr__nfet_01v8"@,
        MosKind::Nfet01v8Lvt => "sky130_fd_pr__nfet_01v8_lvt"@,
        MosKind::Nfet03v3Nvt => "sky130_fd_pr__nfet_03v3_nvt"@,
        MosKind::Nfet05v0Nvt => "sky130_fd_pr__nfet_05v0_nvt"@,
        MosKind::Nfet20v0 => "sky130_fd_pr__nfet_20v0"@,
        MosKind::SpecialNfetLatch => "sky130_fd_pr__special_nfet_latch"@,
        MosKind::SpecialNfetPass => "sky130_fd_pr__special_nfet_pass"@,
        MosKind::SpecialPfetPass => "sky130_fd_pr__special_pfet_pass"@,
        MosKind::Pfet01v8 => "sky130_fd_pr__pfet_01v8"@,
        MosKind::Pfet01v8Hvt => "sky130_fd_pr__pfet_01v8_hvt"@,
        MosKind::Pfet01v8Lvt => "sky130_fd_pr__pfet_01v8_lvt"@,
        MosKind::Pfet20v0 => "sky130_fd_pr__pfet_20v0"@,
    }
}

/// The subcircuit the commercial process uses for kind `k`.
pub open spec fn commercial_subckt_name(k: MosKind) -> Seq<char> {
    match k {
        MosKind::Nfet01v8 => "nshort"@,
        MosKind::Nfet01v8Lvt => "nlowvt"@,
        MosKind::Nfet03v3Nvt => "ntvnative"@,
        MosKind::Nfet05v0Nvt => "nhvnative"@,
        MosKind::Nfet20v0 => "nvhv"@,
        MosKind::SpecialNfetLatch => "npd"@,
        MosKind::SpecialNfetPass => "npass"@,
        MosKind::SpecialPfetPass => "ppu"@,
        MosKind::Pfet01v8 => "pshort"@,
        MosKind::Pfet01v8Hvt => "phighvt"@,
        MosKind::Pfet01v8Lvt => "plowvt"@,
        MosKind::Pfet20v0 => "pvhv"@,
    }
}

/// The name of devices of kind `k`.
pub open spec fn device_name(k: MosKind) -> Seq<char> {
    match k {
        MosKind::Nfet01v8 => "nfet_01v8"@,
        MosKind::Nfet01v8Lvt => "nfet_01v8_lvt"@,
        MosKind::Nfet03v3Nvt => "nfet_03v3_nvt"@,
        MosKind::Nfet05v0Nvt => "nfet_05v0_nvt"@,
        MosKind::Nfet20v0 => "nfet_20v0"@,
        MosKind::SpecialNfetLatch => "special_nfet_latch"@,
        MosKind::SpecialNfetPass => "special_nfet_pass"@,
        MosKind::SpecialPfetPass => "special_pfet_pass"@,
        MosKind::Pfet01v8 => "pfet_01v8"@,
        MosKind::Pfet01v8Hvt => "pfet_01v8_hvt"@,
        MosKind::Pfet01v8Lvt => "pfet_01v8_lvt"@,
        MosKind::Pfet20v0 => "pfet_20v0"@,
    }
}

impl MosKind {
    /// The subcircuit the open-source process uses for this kind.
    pub fn open_subckt(&self) -> (r: &'static str)
        ensures
            r@ == open_subckt_name(*self),
    {
        match self {
            MosKind::Nfet01v8 => "sky130_fd_pr__nfet_01v8",
            MosKind::Nfet01v8Lvt => "sky130_fd_pr__nfet_01v8_lvt",
            MosKind::Nfet03v3Nvt => "sky130_fd_pr__nfet_03v3_nvt",
            MosKind::Nfet05v0Nvt => "sky130_fd_pr__nfet_05v0_nvt",
            MosKind::Nfet20v0 => "sky130_fd_pr__nfet_20v0",
            MosKind::SpecialNfetLatch => "sky130_fd_pr__special_nfet_latch",
            MosKind::SpecialNfetPass => "sky130_fd_pr__special_nfet_pass",
            MosKind::SpecialPfetPass => "sky130_fd_pr__special_pfet_pass",
            MosKind::Pfet01v8 => "sky130_fd_pr__pfet_01v8",
            MosKind::Pfet01v8Hvt => "sky130_fd_pr__pfet_01v8_hvt",
            MosKind::Pfet01v8Lvt => "sky130_fd_pr__pfet_01v8_lvt",
            MosKind::Pfet20v0 => "sky130_fd_pr__pfet_20v0",
        }
    }

    /// The subcircuit the commercial process uses for this kind.
    pub fn commercial_subckt(&self) -> (r: &'static str)
        ensures
            r@ == commercial_subckt_name(*self),
    {
        match self {
            MosKind::Nfet01v8 => "nshort",
            MosKind::Nfet01v8Lvt => "nlowvt",
            MosKind::Nfet03v3Nvt => "ntvnative",
            MosKind::Nfet05v0Nvt => "nhvnative",
            MosKind::Nfet20v0 => "nvhv",
            MosKind::SpecialNfetLatch => "npd",
            MosKind::SpecialNfetPass => "npass",
            MosKind::SpecialPfetPass => "ppu",
            MosKind::Pfet01v8 => "pshort",
            MosKind::Pfet01v8Hvt => "phighvt",
            MosKind::Pfet01v8Lvt => "plowvt",
            MosKind::Pfet20v0 => "pvhv",
        }
    }

    /// The name of devices of this kind.
    pub fn device(&self) -> (r: &'static str)
        ensures
            r@ == device_name(*self),
    {
        match self {
            MosKind::Nfet01v8 => "nfet_01v8",
            MosKind::Nfet01v8Lvt => "nfet_01v8_lvt",
            MosKind::Nfet03v3Nvt => "nfet_03v3_nvt",
            MosKind::Nfet05v0Nvt => "nfet_05v0_nvt",
            MosKind::Nfet20v0 => "nfet_20v0",
            MosKind::SpecialNfetLatch => "special_nfet_latch",
            MosKind::SpecialNfetPass => "special_nfet_pass",
            MosKind::SpecialPfetPass => "special_pfet_pass",
            MosKind::Pfet01v8 => "pfet_01v8",
            MosKind::Pfet01v8Hvt => "pfet_01v8_hvt",
            MosKind::Pfet01v8Lvt => "pfet_01v8_lvt",
            MosKind::Pfet20v0 => "pfet_20v0",
        }
    }

    /// The name of a device of this kind with parameters `params`, such as
    /// `nfet_01v8_1000x150x1`.
    pub fn block_name(&self, params: &MosParams) -> (r: String)
        ensures
            r@ == device_name(*self) + seq!['_'] + params_text(*params),
    {
        let mut s = String::from_str(self.device());
        s.append("_");
        let p = params.to_text();
        s.append(p.as_str());
        proof {
            reveal_strlit("_");
        }
        s
    }
}

/// The set of supported gate lengths.
#[derive(Debug, Copy, Clone, PartialEq, Eq, Structural, Hash, Default)]
pub enum MosLength {
    /// 150nm.
    ///
    /// This is the minimum length supported by the SKY130 technology.
    #[default]
    L150,
}

impl MosLength {
    /// The length in nanometers.
    pub fn nm(&self) -> (r: i64)
        ensures
            r == 150,
    {
        match *self {
            MosLength::L150 => 150,
        }
    }
}

/// Determines the connection direction of a transistor gate.
#[derive(Debug, Copy, Clone, PartialEq, Eq, Structural, Hash, Default)]
pub enum GateDir {
    /// Connects the poly towards the right.
    #[default]
    Right,
    /// Connects the poly towards the left.
    Left,
}

/// The power IO of the standard cells.
#[derive(Debug, Default, Clone, Copy)]
pub struct PowerIo {
    /// The ground rail.
    pub vgnd: InOut<Signal>,
    /// The power rail.
    pub vpwr: InOut<Signal>,
    /// The nwell body contact.
    pub vnb: InOut<Signal>,
    /// The pwell body contact.
    pub vpb: InOut<Signal>,
}

impl FlatLen for PowerIo {
    open spec fn flat_len(&self) -> nat {
        4
    }

    fn len(&self) -> (r: usize) {
        4
    }
}

impl Flatten<Direction> for PowerIo {
    /// Appends one inout direction per rail.
    fn flatten(&self, output: &mut Vec<Direction>)
        ensures
            final(output)@ == old(output)@ + seq![
                Direction::InOut,
                Direction::InOut,
                Direction::InOut,
                Direction::InOut,
            ],
    {
        output.push(Direction::InOut);
        output.push(Direction::InOut);
        output.push(Direction::InOut);
        output.push(Direction::InOut);
        assert(output@ =~= old(output)@ + seq![
            Direction::InOut,
            Direction::InOut,
            Direction::InOut,
            Direction::InOut,
        ]);
        assert(output@.take(old(output)@.len() as int) =~= old(output)@);
    }
}

/// The IO of an NMOS or PMOS tile: its numbers of source/drain and gate contacts.
#[derive(Debug, Copy, Clone, PartialEq, Eq, Structural)]
pub struct BareMosTileIo {
    /// The number of source/drain contacts on li1: one more than the fingers.
    pub sd: usize,
    /// The number of gate contacts on li1: one per finger.
    pub g: usize,
}

/// A tile of one transistor with several fingers.
#[derive(Debug, Copy, Clone, PartialEq, Eq, Structural, Hash)]
pub struct MosTile {
    /// The width, in nm.
    pub w: i64,
    /// The channel length.
    pub len: MosLength,
    /// The number of fingers.
    pub nf: i64,
    /// Where the gates connect.
    pub gate_dir: GateDir,
}

impl MosTile {
    /// The name of the tile, such as `mos_tile_w1000_l150_nf2`.
    pub fn name(&self) -> (r: String)
        ensures
            r@ == "mos_tile_w"@ + signed_decimal(self.w as int) + "_l"@ + signed_decimal(150)
                + "_nf"@ + signed_decimal(self.nf as int),
    {
        let mut s = String::from_str("mos_tile_w");
        push_signed_decimal(&mut s, self.w);
        s.append("_l");
        push_signed_decimal(&mut s, self.len.nm());
        s.append("_nf");
        push_signed_decimal(&mut s, self.nf);
        s
    }

    /// The contacts of the tile: one source/drain contact more than fingers, and one gate
    /// contact per finger.
    pub fn io(&self) -> (r: BareMosTileIo)
        requires
            0 <= self.nf < usize::MAX,
        ensures
            r.sd == self.nf + 1,
            r.g == self.nf,
    {
        BareMosTileIo { sd: self.nf as usize + 1, g: self.nf as usize }
    }
}

} // verus!
