//! GDSII stream records and the library data model read from them.
pub mod read;
pub mod scan;
pub mod parse;

use vstd::prelude::*;

verus! {

/// The type of a GDSII record, as given by the third byte of its header.
#[derive(Clone, Copy, Debug, PartialEq, Eq, Structural, Hash)]
pub enum GdsRecordType {
    /// The `Header` record.
    Header,
    /// The `BgnLib` record.
    BgnLib,
    /// The `LibName` record.
    LibName,
    /// The `Units` record.
    Units,
    /// The `EndLib` record.
    EndLib,
    /// The `BgnStruct` record.
    BgnStruct,
    /// The `StructName` record.
    StructName,
    /// The `EndStruct` record.
    EndStruct,
    /// The `Boundary` record.
    Boundary,
    /// The `Path` record.
    Path,
    /// The `StructRef` record.
    StructRef,
    /// The `ArrayRef` record.
    ArrayRef,
    /// The `Text` record.
    Text,
    /// The `Layer` record.
    Layer,
    /// The `DataType` record.
    DataType,
    /// The `Width` record.
    Width,
    /// The `Xy` record.
    Xy,
    /// The `EndElement` record.
    EndElement,
    /// The `StructRefName` record.
    StructRefName,
    /// The `ColRow` record.
    ColRow,
    /// The `TextNode` record.
    TextNode,
    /// The `Node` record.
    Node,
    /// The `TextType` record.
    TextType,
    /// The `Presentation` record.
    Presentation,
    /// The `Spacing` record.
    Spacing,
    /// The `String` record.
    String,
    /// The `Strans` record.
    Strans,
    /// The `Mag` record.
    Mag,
    /// The `Angle` record.
    Angle,
    /// The `Uinteger` record.
    Uinteger,
    /// The `Ustring` record.
    Ustring,
    /// The `RefLibs` record.
    RefLibs,
    /// The `Fonts` record.
    Fonts,
    /// The `PathType` record.
    PathType,
    /// The `Generations` record.
    Generations,
    /// The `AttrTable` record.
    AttrTable,
    /// The `StypTable` record.
    StypTable,
    /// The `StrType` record.
    StrType,
    /// The `ElemFlags` record.
    ElemFlags,
    /// The `ElemKey` record.
    ElemKey,
    /// The `LinkType` record.
    LinkType,
    /// The `LinkKeys` record.
    LinkKeys,
    /// The `Nodetype` record.
    Nodetype,
    /// The `PropAttr` record.
    PropAttr,
    /// The `PropValue` record.
    PropValue,
    /// The `Box` record.
    Box,
    /// The `BoxType` record.
    BoxType,
    /// The `Plex` record.
    Plex,
    /// The `BeginExtn` record.
    BeginExtn,
    /// The `EndExtn` record.
    EndExtn,
    /// The `TapeNum` record.
    TapeNum,
    /// The `TapeCode` record.
    TapeCode,
    /// The `StrClass` record.
    StrClass,
    /// The `Reserved` record.
    Reserved,
    /// The `Format` record.
    Format,
    /// The `Mask` record.
    Mask,
    /// The `EndMasks` record.
    EndMasks,
    /// The `LibDirSize` record.
    LibDirSize,
    /// The `SrfName` record.
    SrfName,
    /// The `LibSecur` record.
    LibSecur,
}

/// The byte that encodes each record type.
pub open spec fn record_type_code(t: GdsRecordType) -> u8 {
    match t {
        GdsRecordType::Header => 0u8,
        GdsRecordType::BgnLib => 1u8,
        GdsRecordType::LibName => 2u8,
        GdsRecordType::Units => 3u8,
        GdsRecordType::EndLib => 4u8,
        GdsRecordType::BgnStruct => 5u8,
        GdsRecordType::StructName => 6u8,
        GdsRecordType::EndStruct => 7u8,
        GdsRecordType::Boundary => 8u8,
        GdsRecordType::Path => 9u8,
        GdsRecordType::StructRef => 10u8,
        GdsRecordType::ArrayRef => 11u8,
        GdsRecordType::Text => 12u8,
        GdsRecordType::Layer => 13u8,
        GdsRecordType::DataType => 14u8,
        GdsRecordType::Width => 15u8,
        GdsRecordType::Xy => 16u8,
        GdsRecordType::EndElement => 17u8,
        GdsRecordType::StructRefName => 18u8,
        GdsRecordType::ColRow => 19u8,
        GdsRecordType::TextNode => 20u8,
        GdsRecordType::Node => 21u8,
        GdsRecordType::TextType => 22u8,
        GdsRecordType::Presentation => 23u8,
        GdsRecordType::Spacing => 24u8,
        GdsRecordType::String => 25u8,
        GdsRecordType::Strans => 26u8,
        GdsRecordType::Mag => 27u8,
        GdsRecordType::Angle => 28u8,
        GdsRecordType::Uinteger => 29u8,
        GdsRecordType::Ustring => 30u8,
        GdsRecordType::RefLibs => 31u8,
        GdsRecordType::Fonts => 32u8,
        GdsRecordType::PathType => 33u8,
        GdsRecordType::Generations => 34u8,
        GdsRecordType::AttrTable => 35u8,
        GdsRecordType::StypTable => 36u8,
        GdsRecordType::StrType => 37u8,
        GdsRecordType::ElemFlags => 38u8,
        GdsRecordType::ElemKey => 39u8,
        GdsRecordType::LinkType => 40u8,
        GdsRecordType::LinkKeys => 41u8,
        GdsRecordType::Nodetype => 42u8,
        GdsRecordType::PropAttr => 43u8,
        GdsRecordType::PropValue => 44u8,
        GdsRecordType::Box => 45u8,
        GdsRecordType::BoxType => 46u8,
        GdsRecordType::Plex => 47u8,
        GdsRecordType::BeginExtn => 48u8,
        GdsRecordType::EndExtn => 49u8,
        GdsRecordType::TapeNum => 50u8,
        GdsRecordType::TapeCode => 51u8,
        GdsRecordType::StrClass => 52u8,
        GdsRecordType::Reserved => 53u8,
        GdsRecordType::Format => 54u8,
        GdsRecordType::Mask => 55u8,
        GdsRecordType::EndMasks => 56u8,
        GdsRecordType::LibDirSize => 57u8,
        GdsRecordType::SrfName => 58u8,
        GdsRecordType::LibSecur => 59u8,
    }
}

/// The record type encoded by a byte, if any.
pub open spec fn record_type_of_code(b: u8) -> Option<GdsRecordType> {
    match b {
        0u8 => Some(GdsRecordType::Header),
        1u8 => Some(GdsRecordType::BgnLib),
        2u8 => Some(GdsRecordType::LibName),
        3u8 => Some(GdsRecordType::Units),
        4u8 => Some(GdsRecordType::EndLib),
        5u8 => Some(GdsRecordType::BgnStruct),
        6u8 => Some(GdsRecordType::StructName),
        7u8 => Some(GdsRecordType::EndStruct),
        8u8 => Some(GdsRecordType::Boundary),
        9u8 => Some(GdsRecordType::Path),
        10u8 => Some(GdsRecordType::StructRef),
        11u8 => Some(GdsRecordType::ArrayRef),
        12u8 => Some(GdsRecordType::Text),
        13u8 => Some(GdsRecordType::Layer),
        14u8 => Some(GdsRecordType::DataType),
        15u8 => Some(GdsRecordType::Width),
        16u8 => Some(GdsRecordType::Xy),
        17u8 => Some(GdsRecordType::EndElement),
        18u8 => Some(GdsRecordType::StructRefName),
        19u8 => Some(GdsRecordType::ColRow),
        20u8 => Some(GdsRecordType::TextNode),
        21u8 => Some(GdsRecordType::Node),
        22u8 => Some(GdsRecordType::TextType),
        23u8 => Some(GdsRecordType::Presentation),
        24u8 => Some(GdsRecordType::Spacing),
        25u8 => Some(GdsRecordType::String),
        26u8 => Some(GdsRecordType::Strans),
        27u8 => Some(GdsRecordType::Mag),
        28u8 => Some(GdsRecordType::Angle),
        29u8 => Some(GdsRecordType::Uinteger),
        30u8 => Some(GdsRecordType::Ustring),
        31u8 => Some(GdsRecordType::RefLibs),
        32u8 => Some(GdsRecordType::Fonts),
        33u8 => Some(GdsRecordType::PathType),
        34u8 => Some(GdsRecordType::Generations),
        35u8 => Some(GdsRecordType::AttrTable),
        36u8 => Some(GdsRecordType::StypTable),
        37u8 => Some(GdsRecordType::StrType),
        38u8 => Some(GdsRecordType::ElemFlags),
        39u8 => Some(GdsRecordType::ElemKey),
        40u8 => Some(GdsRecordType::LinkType),
        41u8 => Some(GdsRecordType::LinkKeys),
        42u8 => Some(GdsRecordType::Nodetype),
        43u8 => Some(GdsRecordType::PropAttr),
        44u8 => Some(GdsRecordType::PropValue),
        45u8 => Some(GdsRecordType::Box),
        46u8 => Some(GdsRecordType::BoxType),
        47u8 => Some(GdsRecordType::Plex),
        48u8 => Some(GdsRecordType::BeginExtn),
        49u8 => Some(GdsRecordType::EndExtn),
        50u8 => Some(GdsRecordType::TapeNum),
        51u8 => Some(GdsRecordType::TapeCode),
        52u8 => Some(GdsRecordType::StrClass),
        53u8 => Some(GdsRecordType::Reserved),
        54u8 => Some(GdsRecordType::Format),
        55u8 => Some(GdsRecordType::Mask),
        56u8 => Some(GdsRecordType::EndMasks),
        57u8 => Some(GdsRecordType::LibDirSize),
        58u8 => Some(GdsRecordType::SrfName),
        59u8 => Some(GdsRecordType::LibSecur),
        _ => None,
    }
}

impl GdsRecordType {
    /// Decodes a record-type byte.
    pub fn from_u8(b: u8) -> (r: Option<GdsRecordType>)
        ensures
            r == record_type_of_code(b),
    {
        match b {
            0 => Some(GdsRecordType::Header),
            1 => Some(GdsRecordType::BgnLib),
            2 => Some(GdsRecordType::LibName),
            3 => Some(GdsRecordType::Units),
            4 => Some(GdsRecordType::EndLib),
            5 => Some(GdsRecordType::BgnStruct),
            6 => Some(GdsRecordType::StructName),
            7 => Some(GdsRecordType::EndStruct),
            8 => Some(GdsRecordType::Boundary),
            9 => Some(GdsRecordType::Path),
            10 => Some(GdsRecordType::StructRef),
            11 => Some(GdsRecordType::ArrayRef),
            12 => Some(GdsRecordType::Text),
            13 => Some(GdsRecordType::Layer),
            14 => Some(GdsRecordType::DataType),
            15 => Some(GdsRecordType::Width),
            16 => Some(GdsRecordType::Xy),
            17 => Some(GdsRecordType::EndElement),
            18 => Some(GdsRecordType::StructRefName),
            19 => Some(GdsRecordType::ColRow),
            20 => Some(GdsRecordType::TextNode),
            21 => Some(GdsRecordType::Node),
            22 => Some(GdsRecordType::TextType),
            23 => Some(GdsRecordType::Presentation),
            24 => Some(GdsRecordType::Spacing),
            25 => Some(GdsRecordType::String),
            26 => Some(GdsRecordType::Strans),
            27 => Some(GdsRecordType::Mag),
            28 => Some(GdsRecordType::Angle),
            29 => Some(GdsRecordType::Uinteger),
            30 => Some(GdsRecordType::Ustring),
            31 => Some(GdsRecordType::RefLibs),
            32 => Some(GdsRecordType::Fonts),
            33 => Some(GdsRecordType::PathType),
            34 => Some(GdsRecordType::Generations),
            35 => Some(GdsRecordType::AttrTable),
            36 => Some(GdsRecordType::StypTable),
            37 => Some(GdsRecordType::StrType),
            38 => Some(GdsRecordType::ElemFlags),
            39 => Some(GdsRecordType::ElemKey),
            40 => Some(GdsRecordType::LinkType),
            41 => Some(GdsRecordType::LinkKeys),
            42 => Some(GdsRecordType::Nodetype),
            43 => Some(GdsRecordType::PropAttr),
            44 => Some(GdsRecordType::PropValue),
            45 => Some(GdsRecordType::Box),
            46 => Some(GdsRecordType::BoxType),
            47 => Some(GdsRecordType::Plex),
            48 => Some(GdsRecordType::BeginExtn),
            49 => Some(GdsRecordType::EndExtn),
            50 => Some(GdsRecordType::TapeNum),
            51 => Some(GdsRecordType::TapeCode),
            52 => Some(GdsRecordType::StrClass),
            53 => Some(GdsRecordType::Reserved),
            54 => Some(GdsRecordType::Format),
            55 => Some(GdsRecordType::Mask),
            56 => Some(GdsRecordType::EndMasks),
            57 => Some(GdsRecordType::LibDirSize),
            58 => Some(GdsRecordType::SrfName),
            59 => Some(GdsRecordType::LibSecur),
            _ => None,
        }
    }

    /// Encodes a record type as its byte.
    pub fn to_u8(&self) -> (r: u8)
        ensures
            r == record_type_code(*self),
    {
        match self {
            GdsRecordType::Header => 0,
            GdsRecordType::BgnLib => 1,
            GdsRecordType::LibName => 2,
            GdsRecordType::Units => 3,
            GdsRecordType::EndLib => 4,
            GdsRecordType::BgnStruct => 5,
            GdsRecordType::StructName => 6,
            GdsRecordType::EndStruct => 7,
            GdsRecordType::Boundary => 8,
            GdsRecordType::Path => 9,
            GdsRecordType::StructRef => 10,
            GdsRecordType::ArrayRef => 11,
            GdsRecordType::Text => 12,
            GdsRecordType::Layer => 13,
            GdsRecordType::DataType => 14,
            GdsRecordType::Width => 15,
            GdsRecordType::Xy => 16,
            GdsRecordType::EndElement => 17,
            GdsRecordType::StructRefName => 18,
            GdsRecordType::ColRow => 19,
            GdsRecordType::TextNode => 20,
            GdsRecordType::Node => 21,
            GdsRecordType::TextType => 22,
            GdsRecordType::Presentation => 23,
            GdsRecordType::Spacing => 24,
            GdsRecordType::String => 25,
            GdsRecordType::Strans => 26,
            GdsRecordType::Mag => 27,
            GdsRecordType::Angle => 28,
            GdsRecordType::Uinteger => 29,
            GdsRecordType::Ustring => 30,
            GdsRecordType::RefLibs => 31,
            GdsRecordType::Fonts => 32,
            GdsRecordType::PathType => 33,
            GdsRecordType::Generations => 34,
            GdsRecordType::AttrTable => 35,
            GdsRecordType::StypTable => 36,
            GdsRecordType::StrType => 37,
            GdsRecordType::ElemFlags => 38,
            GdsRecordType::ElemKey => 39,
            GdsRecordType::LinkType => 40,
            GdsRecordType::LinkKeys => 41,
            GdsRecordType::Nodetype => 42,
            GdsRecordType::PropAttr => 43,
            GdsRecordType::PropValue => 44,
            GdsRecordType::Box => 45,
            GdsRecordType::BoxType => 46,
            GdsRecordType::Plex => 47,
            GdsRecordType::BeginExtn => 48,
            GdsRecordType::EndExtn => 49,
            GdsRecordType::TapeNum => 50,
            GdsRecordType::TapeCode => 51,
            GdsRecordType::StrClass => 52,
            GdsRecordType::Reserved => 53,
            GdsRecordType::Format => 54,
            GdsRecordType::Mask => 55,
            GdsRecordType::EndMasks => 56,
            GdsRecordType::LibDirSize => 57,
            GdsRecordType::SrfName => 58,
            GdsRecordType::LibSecur => 59,
        }
    }

    /// Whether this record type may appear in a stream.
    ///
    /// Many record types are deprecated, or were provisioned without ever being
    /// implemented; all of those are deemed invalid.
    pub fn valid(&self) -> (r: bool)
        ensures
            r == record_type_valid(*self),
    {
        match self {
            GdsRecordType::TextNode => false,
            GdsRecordType::Spacing => false,
            GdsRecordType::Uinteger => false,
            GdsRecordType::Ustring => false,
            GdsRecordType::StypTable => false,
            GdsRecordType::StrType => false,
            GdsRecordType::ElemKey => false,
            GdsRecordType::LinkType => false,
            GdsRecordType::LinkKeys => false,
            GdsRecordType::StrClass => false,
            GdsRecordType::Reserved => false,
            _ => true,
        }
    }

    /// The name of the record type, as `Debug` prints it.
    pub fn name(&self) -> (r: &'static str)
        ensures
            r@ == record_type_name(*self),
    {
        match self {
            GdsRecordType::Header => "Header",
            GdsRecordType::BgnLib => "BgnLib",
            GdsRecordType::LibName => "LibName",
            GdsRecordType::Units => "Units",
            GdsRecordType::EndLib => "EndLib",
            GdsRecordType::BgnStruct => "BgnStruct",
            GdsRecordType::StructName => "StructName",
            GdsRecordType::EndStruct => "EndStruct",
            GdsRecordType::Boundary => "Boundary",
            GdsRecordType::Path => "Path",
            GdsRecordType::StructRef => "StructRef",
            GdsRecordType::ArrayRef => "ArrayRef",
            GdsRecordType::Text => "Text",
            GdsRecordType::Layer => "Layer",
            GdsRecordType::DataType => "DataType",
            GdsRecordType::Width => "Width",
            GdsRecordType::Xy => "Xy",
            GdsRecordType::EndElement => "EndElement",
            GdsRecordType::StructRefName => "StructRefName",
            GdsRecordType::ColRow => "ColRow",
            GdsRecordType::TextNode => "TextNode",
            GdsRecordType::Node => "Node",
            GdsRecordType::TextType => "TextType",
            GdsRecordType::Presentation => "Presentation",
            GdsRecordType::Spacing => "Spacing",
            GdsRecordType::String => "String",
            GdsRecordType::Strans => "Strans",
            GdsRecordType::Mag => "Mag",
            GdsRecordType::Angle => "Angle",
            GdsRecordType::Uinteger => "Uinteger",
            GdsRecordType::Ustring => "Ustring",
            GdsRecordType::RefLibs => "RefLibs",
            GdsRecordType::Fonts => "Fonts",
            GdsRecordType::PathType => "PathType",
            GdsRecordType::Generations => "Generations",
            GdsRecordType::AttrTable => "AttrTable",
            GdsRecordType::StypTable => "StypTable",
            GdsRecordType::StrType => "StrType",
            GdsRecordType::ElemFlags => "ElemFlags",
            GdsRecordType::ElemKey => "ElemKey",
            GdsRecordType::LinkType => "LinkType",
            GdsRecordType::LinkKeys => "LinkKeys",
            GdsRecordType::Nodetype => "Nodetype",
            GdsRecordType::PropAttr => "PropAttr",
            GdsRecordType::PropValue => "PropValue",
            GdsRecordType::Box => "Box",
            GdsRecordType::BoxType => "BoxType",
            GdsRecordType::Plex => "Plex",
            GdsRecordType::BeginExtn => "BeginExtn",
            GdsRecordType::EndExtn => "EndExtn",
            GdsRecordType::TapeNum => "TapeNum",
            GdsRecordType::TapeCode => "TapeCode",
            GdsRecordType::StrClass => "StrClass",
            GdsRecordType::Reserved => "Reserved",
            GdsRecordType::Format => "Format",
            GdsRecordType::Mask => "Mask",
            GdsRecordType::EndMasks => "EndMasks",
            GdsRecordType::LibDirSize => "LibDirSize",
            GdsRecordType::SrfName => "SrfName",
            GdsRecordType::LibSecur => "LibSecur",
        }
    }
}

/// Whether a record type may appear in a stream.
pub open spec fn record_type_valid(t: GdsRecordType) -> bool {
    match t {
        GdsRecordType::TextNode => false,
        GdsRecordType::Spacing => false,
        GdsRecordType::Uinteger => false,
        GdsRecordType::Ustring => false,
        GdsRecordType::StypTable => false,
        GdsRecordType::StrType => false,
        GdsRecordType::ElemKey => false,
        GdsRecordType::LinkType => false,
        GdsRecordType::LinkKeys => false,
        GdsRecordType::StrClass => false,
        GdsRecordType::Reserved => false,
        _ => true,
    }
}

/// The name of a record type.
pub open spec fn record_type_name(t: GdsRecordType) -> Seq<char> {
    match t {
        GdsRecordType::Header => "Header"@,
        GdsRecordType::BgnLib => "BgnLib"@,
        GdsRecordType::LibName => "LibName"@,
        GdsRecordType::Units => "Units"@,
        GdsRecordType::EndLib => "EndLib"@,
        GdsRecordType::BgnStruct => "BgnStruct"@,
        GdsRecordType::StructName => "StructName"@,
        GdsRecordType::EndStruct => "EndStruct"@,
        GdsRecordType::Boundary => "Boundary"@,
        GdsRecordType::Path => "Path"@,
        GdsRecordType::StructRef => "StructRef"@,
        GdsRecordType::ArrayRef => "ArrayRef"@,
        GdsRecordType::Text => "Text"@,
        GdsRecordType::Layer => "Layer"@,
        GdsRecordType::DataType => "DataType"@,
        GdsRecordType::Width => "Width"@,
        GdsRecordType::Xy => "Xy"@,
        GdsRecordType::EndElement => "EndElement"@,
        GdsRecordType::StructRefName => "StructRefName"@,
        GdsRecordType::ColRow => "ColRow"@,
        GdsRecordType::TextNode => "TextNode"@,
        GdsRecordType::Node => "Node"@,
        GdsRecordType::TextType => "TextType"@,
        GdsRecordType::Presentation => "Presentation"@,
        GdsRecordType::Spacing => "Spacing"@,
        GdsRecordType::String => "String"@,
        GdsRecordType::Strans => "Strans"@,
        GdsRecordType::Mag => "Mag"@,
        GdsRecordType::Angle => "Angle"@,
        GdsRecordType::Uinteger => "Uinteger"@,
        GdsRecordType::Ustring => "Ustring"@,
        GdsRecordType::RefLibs => "RefLibs"@,
        GdsRecordType::Fonts => "Fonts"@,
        GdsRecordType::PathType => "PathType"@,
        GdsRecordType::Generations => "Generations"@,
        GdsRecordType::AttrTable => "AttrTable"@,
        GdsRecordType::StypTable => "StypTable"@,
        GdsRecordType::StrType => "StrType"@,
        GdsRecordType::ElemFlags => "ElemFlags"@,
        GdsRecordType::ElemKey => "ElemKey"@,
        GdsRecordType::LinkType => "LinkType"@,
        GdsRecordType::LinkKeys => "LinkKeys"@,
        GdsRecordType::Nodetype => "Nodetype"@,
        GdsRecordType::PropAttr => "PropAttr"@,
        GdsRecordType::PropValue => "PropValue"@,
        GdsRecordType::Box => "Box"@,
        GdsRecordType::BoxType => "BoxType"@,
        GdsRecordType::Plex => "Plex"@,
        GdsRecordType::BeginExtn => "BeginExtn"@,
        GdsRecordType::EndExtn => "EndExtn"@,
        GdsRecordType::TapeNum => "TapeNum"@,
        GdsRecordType::TapeCode => "TapeCode"@,
        GdsRecordType::StrClass => "StrClass"@,
        GdsRecordType::Reserved => "Reserved"@,
        GdsRecordType::Format => "Format"@,
        GdsRecordType::Mask => "Mask"@,
        GdsRecordType::EndMasks => "EndMasks"@,
        GdsRecordType::LibDirSize => "LibDirSize"@,
        GdsRecordType::SrfName => "SrfName"@,
        GdsRecordType::LibSecur => "LibSecur"@,
    }
}

/// Decoding the code of a record type gives the type back, so no two types share a code.
pub proof fn law_record_type_roundtrip(t: GdsRecordType)
    ensures
        record_type_of_code(record_type_code(t)) == Some(t),
{
}

/// The data type of a GDSII record, as given by the fourth byte of its header.
#[derive(Clone, Copy, Debug, PartialEq, Eq, Structural, Hash)]
pub enum GdsDataType {
    /// No data.
    NoData,
    /// Bit flags.
    BitArray,
    /// Big-endian 16-bit integers.
    I16,
    /// Big-endian 32-bit integers.
    I32,
    /// Four-byte reals (unused).
    F32,
    /// Eight-byte GDSII reals.
    F64,
    /// ASCII text.
    Str,
}

/// The data type encoded by a byte, if any.
pub open spec fn data_type_of_code(b: u8) -> Option<GdsDataType> {
    match b {
        0u8 => Some(GdsDataType::NoData),
        1u8 => Some(GdsDataType::BitArray),
        2u8 => Some(GdsDataType::I16),
        3u8 => Some(GdsDataType::I32),
        4u8 => Some(GdsDataType::F32),
        5u8 => Some(GdsDataType::F64),
        6u8 => Some(GdsDataType::Str),
        _ => None,
    }
}

impl GdsDataType {
    /// Decodes a data-type byte.
    pub fn from_u8(b: u8) -> (r: Option<GdsDataType>)
        ensures
            r == data_type_of_code(b),
    {
        match b {
            0 => Some(GdsDataType::NoData),
            1 => Some(GdsDataType::BitArray),
            2 => Some(GdsDataType::I16),
            3 => Some(GdsDataType::I32),
            4 => Some(GdsDataType::F32),
            5 => Some(GdsDataType::F64),
            6 => Some(GdsDataType::Str),
            _ => None,
        }
    }
}

/// The header of a record: its types and the length of its content in bytes.
#[derive(Clone, Copy, Debug, PartialEq, Eq, Structural)]
pub struct GdsRecordHeader {
    /// The record type.
    pub rtype: GdsRecordType,
    /// The data type.
    pub dtype: GdsDataType,
    /// The number of content bytes, excluding the four header bytes.
    pub len: u16,
}

impl View for GdsRecordHeader {
    type V = GdsRecordHeader;

    open spec fn view(&self) -> GdsRecordHeader {
        *self
    }
}

/// A decoded GDSII record.
///
/// Eight-byte reals are kept as their raw big-endian 64-bit pattern.
#[derive(Clone, Debug)]
pub enum GdsRecord {
    /// Stream version.
    Header { version: i16 },
    /// Library dates.
    BgnLib { dates: Vec<i16> },
    /// Library name.
    LibName(String),
    /// Library units, as two raw eight-byte reals.
    Units(u64, u64),
    /// End of library.
    EndLib,
    /// Struct dates.
    BgnStruct { dates: Vec<i16> },
    /// Struct name.
    StructName(String),
    /// Name of a referenced struct.
    StructRefName(String),
    /// End of struct.
    EndStruct,
    /// Start of a boundary element.
    Boundary,
    /// Start of a path element.
    Path,
    /// Start of a struct reference.
    StructRef,
    /// Start of an array reference.
    ArrayRef,
    /// Start of a text element.
    Text,
    /// Layer number.
    Layer(i16),
    /// Data type number.
    DataType(i16),
    /// Path width.
    Width(i32),
    /// Coordinates.
    Xy(Vec<i32>),
    /// End of element.
    EndElement,
    /// Array columns and rows.
    ColRow { cols: i16, rows: i16 },
    /// Start of a node element.
    Node,
    /// Text type.
    TextType(i16),
    /// Text presentation flags.
    Presentation(u8, u8),
    /// Text string.
    String(String),
    /// Transformation flags.
    Strans(u8, u8),
    /// Magnification, as a raw eight-byte real.
    Mag(u64),
    /// Angle, as a raw eight-byte real.
    Angle(u64),
    /// Referenced libraries.
    RefLibs(String),
    /// Fonts.
    Fonts(String),
    /// Path type.
    PathType(i16),
    /// Generations.
    Generations(i16),
    /// Attribute table.
    AttrTable(String),
    /// Element flags.
    ElemFlags(u8, u8),
    /// Node type.
    Nodetype(i16),
    /// Property attribute.
    PropAttr(i16),
    /// Property value.
    PropValue(String),
    /// Start of a box element.
    Box,
    /// Box type.
    BoxType(i16),
    /// Plex number.
    Plex(i32),
    /// Path begin extension.
    BeginExtn(i32),
    /// Path end extension.
    EndExtn(i32),
    /// Tape number.
    TapeNum(i16),
    /// Tape code.
    TapeCode(Vec<i16>),
    /// Format.
    Format(i16),
    /// Mask.
    Mask(String),
    /// End of masks.
    EndMasks,
    /// Library directory size.
    LibDirSize(i16),
    /// Sticks rule file name.
    SrfName(String),
    /// Library security.
    LibSecur(i16),
}

/// The mathematical value of a [`GdsRecord`]: text as characters, vectors as sequences.
pub enum RecordView {
    Header { version: i16 },
    BgnLib { dates: Seq<i16> },
    LibName(Seq<char>),
    Units(u64, u64),
    EndLib,
    BgnStruct { dates: Seq<i16> },
    StructName(Seq<char>),
    StructRefName(Seq<char>),
    EndStruct,
    Boundary,
    Path,
    StructRef,
    ArrayRef,
    Text,
    Layer(i16),
    DataType(i16),
    Width(i32),
    Xy(Seq<i32>),
    EndElement,
    ColRow { cols: i16, rows: i16 },
    Node,
    TextType(i16),
    Presentation(u8, u8),
    String(Seq<char>),
    Strans(u8, u8),
    Mag(u64),
    Angle(u64),
    RefLibs(Seq<char>),
    Fonts(Seq<char>),
    PathType(i16),
    Generations(i16),
    AttrTable(Seq<char>),
    ElemFlags(u8, u8),
    Nodetype(i16),
    PropAttr(i16),
    PropValue(Seq<char>),
    Box,
    BoxType(i16),
    Plex(i32),
    BeginExtn(i32),
    EndExtn(i32),
    TapeNum(i16),
    TapeCode(Seq<i16>),
    Format(i16),
    Mask(Seq<char>),
    EndMasks,
    LibDirSize(i16),
    SrfName(Seq<char>),
    LibSecur(i16),
}

impl View for GdsRecord {
    type V = RecordView;

    open spec fn view(&self) -> RecordView {
        match self {
            GdsRecord::Header { version } => RecordView::Header { version: *version },
            GdsRecord::BgnLib { dates } => RecordView::BgnLib { dates: dates@ },
            GdsRecord::LibName(s) => RecordView::LibName(s@),
            GdsRecord::Units(a, b) => RecordView::Units(*a, *b),
            GdsRecord::EndLib => RecordView::EndLib,
            GdsRecord::BgnStruct { dates } => RecordView::BgnStruct { dates: dates@ },
            GdsRecord::StructName(s) => RecordView::StructName(s@),
            GdsRecord::StructRefName(s) => RecordView::StructRefName(s@),
            GdsRecord::EndStruct => RecordView::EndStruct,
            GdsRecord::Boundary => RecordView::Boundary,
            GdsRecord::Path => RecordView::Path,
            GdsRecord::StructRef => RecordView::StructRef,
            GdsRecord::ArrayRef => RecordView::ArrayRef,
            GdsRecord::Text => RecordView::Text,
            GdsRecord::Layer(d) => RecordView::Layer(*d),
            GdsRecord::DataType(d) => RecordView::DataType(*d),
            GdsRecord::Width(d) => RecordView::Width(*d),
            GdsRecord::Xy(d) => RecordView::Xy(d@),
            GdsRecord::EndElement => RecordView::EndElement,
            GdsRecord::ColRow { cols, rows } => RecordView::ColRow { cols: *cols, rows: *rows },
            GdsRecord::Node => RecordView::Node,
            GdsRecord::TextType(d) => RecordView::TextType(*d),
            GdsRecord::Presentation(a, b) => RecordView::Presentation(*a, *b),
            GdsRecord::String(s) => RecordView::String(s@),
            GdsRecord::Strans(a, b) => RecordView::Strans(*a, *b),
            GdsRecord::Mag(d) => RecordView::Mag(*d),
            GdsRecord::Angle(d) => RecordView::Angle(*d),
            GdsRecord::RefLibs(s) => RecordView::RefLibs(s@),
            GdsRecord::Fonts(s) => RecordView::Fonts(s@),
            GdsRecord::PathType(d) => RecordView::PathType(*d),
            GdsRecord::Generations(d) => RecordView::Generations(*d),
            GdsRecord::AttrTable(s) => RecordView::AttrTable(s@),
            GdsRecord::ElemFlags(a, b) => RecordView::ElemFlags(*a, *b),
            GdsRecord::Nodetype(d) => RecordView::Nodetype(*d),
            GdsRecord::PropAttr(d) => RecordView::PropAttr(*d),
            GdsRecord::PropValue(s) => RecordView::PropValue(s@),
            GdsRecord::Box => RecordView::Box,
            GdsRecord::BoxType(d) => RecordView::BoxType(*d),
            GdsRecord::Plex(d) => RecordView::Plex(*d),
            GdsRecord::BeginExtn(d) => RecordView::BeginExtn(*d),
            GdsRecord::EndExtn(d) => RecordView::EndExtn(*d),
            GdsRecord::TapeNum(d) => RecordView::TapeNum(*d),
            GdsRecord::TapeCode(d) => RecordView::TapeCode(d@),
            GdsRecord::Format(d) => RecordView::Format(*d),
            GdsRecord::Mask(s) => RecordView::Mask(s@),
            GdsRecord::EndMasks => RecordView::EndMasks,
            GdsRecord::LibDirSize(d) => RecordView::LibDirSize(*d),
            GdsRecord::SrfName(s) => RecordView::SrfName(s@),
            GdsRecord::LibSecur(d) => RecordView::LibSecur(*d),
        }
    }
}

impl GdsRecord {
    /// Whether this is the end-of-library record.
    pub fn is_end_lib(&self) -> (r: bool)
        ensures
            r == (self@ is EndLib),
    {
        match self {
            GdsRecord::EndLib => true,
            _ => false,
        }
    }

    /// A copy of the record.
    pub fn duplicate(&self) -> (r: GdsRecord)
        ensures
            r@ == self@,
    {
        match self {
            GdsRecord::Header { version } => GdsRecord::Header { version: *version },
            GdsRecord::BgnLib { dates } => GdsRecord::BgnLib { dates: dates.clone() },
            GdsRecord::LibName(s) => GdsRecord::LibName(s.clone()),
            GdsRecord::Units(a, b) => GdsRecord::Units(*a, *b),
            GdsRecord::EndLib => GdsRecord::EndLib,
            GdsRecord::BgnStruct { dates } => GdsRecord::BgnStruct { dates: dates.clone() },
            GdsRecord::StructName(s) => GdsRecord::StructName(s.clone()),
            GdsRecord::StructRefName(s) => GdsRecord::StructRefName(s.clone()),
            GdsRecord::EndStruct => GdsRecord::EndStruct,
            GdsRecord::Boundary => GdsRecord::Boundary,
            GdsRecord::Path => GdsRecord::Path,
            GdsRecord::StructRef => GdsRecord::StructRef,
            GdsRecord::ArrayRef => GdsRecord::ArrayRef,
            GdsRecord::Text => GdsRecord::Text,
            GdsRecord::Layer(d) => GdsRecord::Layer(*d),
            GdsRecord::DataType(d) => GdsRecord::DataType(*d),
            GdsRecord::Width(d) => GdsRecord::Width(*d),
            GdsRecord::Xy(d) => GdsRecord::Xy(d.clone()),
            GdsRecord::EndElement => GdsRecord::EndElement,
            GdsRecord::ColRow { cols, rows } => GdsRecord::ColRow { cols: *cols, rows: *rows },
            GdsRecord::Node => GdsRecord::Node,
            GdsRecord::TextType(d) => GdsRecord::TextType(*d),
            GdsRecord::Presentation(a, b) => GdsRecord::Presentation(*a, *b),
            GdsRecord::String(s) => GdsRecord::String(s.clone()),
            GdsRecord::Strans(a, b) => GdsRecord::Strans(*a, *b),
            GdsRecord::Mag(d) => GdsRecord::Mag(*d),
            GdsRecord::Angle(d) => GdsRecord::Angle(*d),
            GdsRecord::RefLibs(s) => GdsRecord::RefLibs(s.clone()),
            GdsRecord::Fonts(s) => GdsRecord::Fonts(s.clone()),
            GdsRecord::PathType(d) => GdsRecord::PathType(*d),
            GdsRecord::Generations(d) => GdsRecord::Generations(*d),
            GdsRecord::AttrTable(s) => GdsRecord::AttrTable(s.clone()),
            GdsRecord::ElemFlags(a, b) => GdsRecord::ElemFlags(*a, *b),
            GdsRecord::Nodetype(d) => GdsRecord::Nodetype(*d),
            GdsRecord::PropAttr(d) => GdsRecord::PropAttr(*d),
            GdsRecord::PropValue(s) => GdsRecord::PropValue(s.clone()),
            GdsRecord::Box => GdsRecord::Box,
            GdsRecord::BoxType(d) => GdsRecord::BoxType(*d),
            GdsRecord::Plex(d) => GdsRecord::Plex(*d),
            GdsRecord::BeginExtn(d) => GdsRecord::BeginExtn(*d),
            GdsRecord::EndExtn(d) => GdsRecord::EndExtn(*d),
            GdsRecord::TapeNum(d) => GdsRecord::TapeNum(*d),
            GdsRecord::TapeCode(d) => GdsRecord::TapeCode(d.clone()),
            GdsRecord::Format(d) => GdsRecord::Format(*d),
            GdsRecord::Mask(s) => GdsRecord::Mask(s.clone()),
            GdsRecord::EndMasks => GdsRecord::EndMasks,
            GdsRecord::LibDirSize(d) => GdsRecord::LibDirSize(*d),
            GdsRecord::SrfName(s) => GdsRecord::SrfName(s.clone()),
            GdsRecord::LibSecur(d) => GdsRecord::LibSecur(*d),
        }
    }
}

/// The parsing context: which kind of structure the parser is inside.
#[derive(Clone, Copy, Debug, PartialEq, Eq, Structural)]
pub enum GdsContext {
    Library,
    Struct,
    StructRef,
    ArrayRef,
    Boundary,
    Box,
    Path,
    Text,
    Node,
    Property,
}

/// A failure of the underlying byte source or text decoding.
#[derive(Clone, Copy, Debug, PartialEq, Eq, Structural)]
pub enum GdsIoError {
    /// The input ended before a complete value could be read.
    UnexpectedEof,
    /// A seek moved the position out of range.
    InvalidSeek,
    /// Text content was not valid UTF-8.
    InvalidUtf8,
}

/// Errors raised while reading GDSII.
#[derive(Clone, Debug)]
pub enum GdsError {
    /// A record whose types and length do not form a known record.
    RecordDecode(GdsRecordType, GdsDataType, u16),
    /// A record length that is too short or odd.
    RecordLen(usize),
    /// An unknown data-type byte.
    InvalidDataType(u8),
    /// An unknown or invalid record-type byte.
    InvalidRecordType(u8),
    /// A valid but unsupported record.
    Unsupported(Option<GdsRecord>, Option<GdsContext>),
    /// A record that does not fit where it appears.
    Parse {
        msg: String,
        record: GdsRecord,
        recordnum: usize,
        bytepos: u64,
        ctx: Vec<GdsContext>,
    },
    /// A failure of the underlying reader.
    Boxed(GdsIoError),
    /// Any other error, described in text.
    Str(String),
    /// A required field of a structure was never set.
    UninitializedField(String),
}

/// The mathematical value of a [`GdsError`].
pub enum ErrorView {
    RecordDecode(GdsRecordType, GdsDataType, u16),
    RecordLen(usize),
    InvalidDataType(u8),
    InvalidRecordType(u8),
    Unsupported(Option<RecordView>, Option<GdsContext>),
    Parse {
        msg: Seq<char>,
        record: RecordView,
        recordnum: usize,
        bytepos: u64,
        ctx: Seq<GdsContext>,
    },
    Boxed(GdsIoError),
    Str(Seq<char>),
    UninitializedField(Seq<char>),
}

impl View for GdsError {
    type V = ErrorView;

    open spec fn view(&self) -> ErrorView {
        match self {
            GdsError::RecordDecode(a, b, c) => ErrorView::RecordDecode(*a, *b, *c),
            GdsError::RecordLen(n) => ErrorView::RecordLen(*n),
            GdsError::InvalidDataType(b) => ErrorView::InvalidDataType(*b),
            GdsError::InvalidRecordType(b) => ErrorView::InvalidRecordType(*b),
            GdsError::Unsupported(r, c) => ErrorView::Unsupported(
                match r {
                    Some(r) => Some(r@),
                    None => None,
                },
                *c,
            ),
            GdsError::Parse { msg, record, recordnum, bytepos, ctx } => ErrorView::Parse {
                msg: msg@,
                record: record@,
                recordnum: *recordnum,
                bytepos: *bytepos,
                ctx: ctx@,
            },
            GdsError::Boxed(e) => ErrorView::Boxed(*e),
            GdsError::Str(s) => ErrorView::Str(s@),
            GdsError::UninitializedField(s) => ErrorView::UninitializedField(s@),
        }
    }
}

/// A point in GDS database units.
#[derive(Clone, Copy, Debug, PartialEq, Eq, Structural, Default)]
pub struct GdsPoint {
    pub x: i32,
    pub y: i32,
}

/// The text used when a coordinate vector has the wrong number of values.
pub open spec fn point_count_msg() -> Seq<char> {
    "GdsPoint coordinate vector: Invalid number of elements"@
}

/// Pairs up the coordinates `[x0, y0, x1, y1, ...]` as points.
pub open spec fn points_of(v: Seq<i32>) -> Seq<GdsPoint> {
    Seq::new((v.len() / 2) as nat, |i: int| GdsPoint { x: v[2 * i], y: v[2 * i + 1] })
}

impl GdsPoint {
    /// Creates a point.
    pub fn new(x: i32, y: i32) -> (r: GdsPoint)
        ensures
            r == (GdsPoint { x, y }),
    {
        GdsPoint { x, y }
    }

    /// Parses a single point from a vector of exactly two coordinates.
    pub fn parse(from: &Vec<i32>) -> (r: Result<GdsPoint, GdsError>)
        ensures
            from@.len() == 2 ==> r == Ok::<GdsPoint, GdsError>(GdsPoint { x: from@[0], y: from@[1] }),
            from@.len() != 2 ==> (r matches Err(e) && e@ == ErrorView::Str(point_count_msg())),
    {
        if from.len() != 2 {
            return Err(GdsError::Str(String::from_str("GdsPoint coordinate vector: Invalid number of elements")));
        }
        Ok(GdsPoint { x: from[0], y: from[1] })
    }

    /// Parses a vector of points from a vector with an even number of coordinates.
    pub fn parse_vec(from: &[i32]) -> (r: Result<Vec<GdsPoint>, GdsError>)
        ensures
            from@.len() % 2 == 0 ==> (r matches Ok(v) && v@ == points_of(from@)),
            from@.len() % 2 != 0 ==> (r matches Err(e) && e@ == ErrorView::Str(point_count_msg())),
    {
        if from.len() % 2 != 0 {
            return Err(GdsError::Str(String::from_str("GdsPoint coordinate vector: Invalid number of elements")));
        }
        let mut rv: Vec<GdsPoint> = Vec::new();
        let len = from.len();
        let n = len / 2;
        let mut i: usize = 0;
        while i < n
            invariant
                len == from@.len(),
                n == from@.len() / 2,
                i <= n,
                rv@ == points_of(from@).take(i as int),
            decreases n - i,
        {
            assert(i + i + 1 < from@.len()) by (nonlinear_arith)
                requires
                    i < n,
                    n == from@.len() / 2,
            ;
            let k = i + i;
            rv.push(GdsPoint { x: from[k], y: from[k + 1] });
            i = i + 1;
            assert(rv@ =~= points_of(from@).take(i as int));
        }
        assert(rv@ =~= points_of(from@));
        Ok(rv)
    }
}

/// The plex number of an element.
#[derive(Clone, Copy, Debug, PartialEq, Eq, Structural)]
pub struct GdsPlex(pub i32);

/// Element flags.
#[derive(Clone, Copy, Debug, PartialEq, Eq, Structural)]
pub struct GdsElemFlags(pub u8, pub u8);

/// Text presentation flags.
#[derive(Clone, Copy, Debug, PartialEq, Eq, Structural)]
pub struct GdsPresentation(pub u8, pub u8);

/// Library units, as two raw eight-byte reals (user units and database units).
#[derive(Clone, Copy, Debug, PartialEq, Eq, Structural)]
pub struct GdsUnits(pub u64, pub u64);

/// A transformation: reflection, magnification and angle.
///
/// Magnification and angle are raw eight-byte reals.
#[derive(Clone, Copy, Debug, PartialEq, Eq, Structural, Default)]
pub struct GdsStrans {
    pub reflected: bool,
    pub abs_mag: bool,
    pub abs_angle: bool,
    pub mag: Option<u64>,
    pub angle: Option<u64>,
}

impl View for GdsStrans {
    type V = GdsStrans;

    open spec fn view(&self) -> GdsStrans {
        *self
    }
}

/// A calendar date and time of day.
#[derive(Clone, Copy, Debug, PartialEq, Eq, Structural)]
pub struct GdsDateTime {
    pub year: i32,
    pub month: u32,
    pub day: u32,
    pub hour: u32,
    pub minute: u32,
    pub second: u32,
}

/// The modification and access times of a library or struct.
#[derive(Clone, Copy, Debug, PartialEq, Eq, Structural)]
pub struct GdsDateTimes {
    pub modified: GdsDateTime,
    pub accessed: GdsDateTime,
}

/// A property: a numeric attribute and a text value.
#[derive(Clone, Debug)]
pub struct GdsProperty {
    pub attr: i16,
    pub value: String,
}

/// The mathematical value of a [`GdsProperty`].
pub struct PropertyView {
    pub attr: i16,
    pub value: Seq<char>,
}

impl View for GdsProperty {
    type V = PropertyView;

    open spec fn view(&self) -> PropertyView {
        PropertyView { attr: self.attr, value: self.value@ }
    }
}

/// The views of a sequence of properties.
pub open spec fn props_view(p: Seq<GdsProperty>) -> Seq<PropertyView> {
    p.map_values(|x: GdsProperty| x@)
}

/// A polygon: a closed list of points on a layer.
#[derive(Clone, Debug)]
pub struct GdsBoundary {
    pub layer: i16,
    pub datatype: i16,
    pub xy: Vec<GdsPoint>,
    pub elflags: Option<GdsElemFlags>,
    pub plex: Option<GdsPlex>,
    pub properties: Vec<GdsProperty>,
}

/// A wire: a width swept along a list of points.
#[derive(Clone, Debug)]
pub struct GdsPath {
    pub layer: i16,
    pub datatype: i16,
    pub xy: Vec<GdsPoint>,
    pub width: Option<i32>,
    pub path_type: Option<i16>,
    pub begin_extn: Option<i32>,
    pub end_extn: Option<i32>,
    pub elflags: Option<GdsElemFlags>,
    pub plex: Option<GdsPlex>,
    pub properties: Vec<GdsProperty>,
}

/// A text label.
#[derive(Clone, Debug)]
pub struct GdsTextElem {
    pub string: String,
    pub layer: i16,
    pub texttype: i16,
    pub xy: GdsPoint,
    pub presentation: Option<GdsPresentation>,
    pub path_type: Option<i16>,
    pub width: Option<i32>,
    pub strans: Option<GdsStrans>,
    pub elflags: Option<GdsElemFlags>,
    pub plex: Option<GdsPlex>,
    pub properties: Vec<GdsProperty>,
}

/// An electrical node.
#[derive(Clone, Debug)]
pub struct GdsNode {
    pub layer: i16,
    pub nodetype: i16,
    pub xy: Vec<GdsPoint>,
    pub elflags: Option<GdsElemFlags>,
    pub plex: Option<GdsPlex>,
    pub properties: Vec<GdsProperty>,
}

/// A box: five points on a layer.
#[derive(Clone, Debug)]
pub struct GdsBox {
    pub layer: i16,
    pub boxtype: i16,
    pub xy: [GdsPoint; 5],
    pub elflags: Option<GdsElemFlags>,
    pub plex: Option<GdsPlex>,
    pub properties: Vec<GdsProperty>,
}

/// A reference to a struct, placed once.
#[derive(Clone, Debug)]
pub struct GdsStructRef {
    pub name: String,
    pub xy: GdsPoint,
    pub strans: Option<GdsStrans>,
    pub elflags: Option<GdsElemFlags>,
    pub plex: Option<GdsPlex>,
    pub properties: Vec<GdsProperty>,
}

/// A reference to a struct, placed as a grid.
#[derive(Clone, Debug)]
pub struct GdsArrayRef {
    pub name: String,
    pub xy: [GdsPoint; 3],
    pub cols: i16,
    pub rows: i16,
    pub strans: Option<GdsStrans>,
    pub elflags: Option<GdsElemFlags>,
    pub plex: Option<GdsPlex>,
    pub properties: Vec<GdsProperty>,
}

/// An element of a struct.
#[derive(Clone, Debug)]
pub enum GdsElement {
    GdsBoundary(GdsBoundary),
    GdsPath(GdsPath),
    GdsStructRef(GdsStructRef),
    GdsArrayRef(GdsArrayRef),
    GdsTextElem(GdsTextElem),
    GdsNode(GdsNode),
    GdsBox(GdsBox),
}

/// A struct (cell) definition.
#[derive(Clone, Debug)]
pub struct GdsStruct {
    pub name: String,
    pub dates: GdsDateTimes,
    pub elems: Vec<GdsElement>,
}

/// A library: the top-level content of a GDSII stream.
#[derive(Clone, Debug)]
pub struct GdsLibrary {
    pub name: String,
    pub version: i16,
    pub dates: GdsDateTimes,
    pub units: GdsUnits,
    pub structs: Vec<GdsStruct>,
}

/// The kinds of element.
#[derive(Clone, Copy, Debug, PartialEq, Eq, Structural)]
pub enum ElemKind {
    Boundary,
    Path,
    Text,
    Node,
    Box,
    StructRef,
    ArrayRef,
}

/// The mathematical value of an element: its kind and every field that any kind
/// has, with the fields a kind lacks left unset.
pub struct ElemView {
    pub kind: ElemKind,
    pub layer: Option<i16>,
    pub datatype: Option<i16>,
    pub xy: Seq<GdsPoint>,
    pub width: Option<i32>,
    pub path_type: Option<i16>,
    pub begin_extn: Option<i32>,
    pub end_extn: Option<i32>,
    pub plex: Option<GdsPlex>,
    pub elflags: Option<GdsElemFlags>,
    pub texttype: Option<i16>,
    pub string: Option<Seq<char>>,
    pub presentation: Option<GdsPresentation>,
    pub strans: Option<GdsStrans>,
    pub nodetype: Option<i16>,
    pub boxtype: Option<i16>,
    pub name: Option<Seq<char>>,
    pub cols: Option<i16>,
    pub rows: Option<i16>,
    pub properties: Seq<PropertyView>,
}

/// An element view with only its kind, points and properties set.
pub open spec fn elem_base(kind: ElemKind, xy: Seq<GdsPoint>, properties: Seq<PropertyView>) -> ElemView {
    ElemView {
        kind,
        layer: None,
        datatype: None,
        xy,
        width: None,
        path_type: None,
        begin_extn: None,
        end_extn: None,
        plex: None,
        elflags: None,
        texttype: None,
        string: None,
        presentation: None,
        strans: None,
        nodetype: None,
        boxtype: None,
        name: None,
        cols: None,
        rows: None,
        properties,
    }
}

impl View for GdsElement {
    type V = ElemView;

    open spec fn view(&self) -> ElemView {
        match self {
            GdsElement::GdsBoundary(b) => ElemView {
                layer: Some(b.layer),
                datatype: Some(b.datatype),
                plex: b.plex,
                elflags: b.elflags,
                ..elem_base(ElemKind::Boundary, b.xy@, props_view(b.properties@))
            },
            GdsElement::GdsPath(b) => ElemView {
                layer: Some(b.layer),
                datatype: Some(b.datatype),
                width: b.width,
                path_type: b.path_type,
                begin_extn: b.begin_extn,
                end_extn: b.end_extn,
                plex: b.plex,
                elflags: b.elflags,
                ..elem_base(ElemKind::Path, b.xy@, props_view(b.properties@))
            },
            GdsElement::GdsTextElem(b) => ElemView {
                string: Some(b.string@),
                layer: Some(b.layer),
                texttype: Some(b.texttype),
                presentation: b.presentation,
                path_type: b.path_type,
                width: b.width,
                strans: b.strans,
                plex: b.plex,
                elflags: b.elflags,
                ..elem_base(ElemKind::Text, seq![b.xy], props_view(b.properties@))
            },
            GdsElement::GdsNode(b) => ElemView {
                layer: Some(b.layer),
                nodetype: Some(b.nodetype),
                plex: b.plex,
                elflags: b.elflags,
                ..elem_base(ElemKind::Node, b.xy@, props_view(b.properties@))
            },
            GdsElement::GdsBox(b) => ElemView {
                layer: Some(b.layer),
                boxtype: Some(b.boxtype),
                plex: b.plex,
                elflags: b.elflags,
                ..elem_base(ElemKind::Box, b.xy@, props_view(b.properties@))
            },
            GdsElement::GdsStructRef(b) => ElemView {
                name: Some(b.name@),
                strans: b.strans,
                plex: b.plex,
                elflags: b.elflags,
                ..elem_base(ElemKind::StructRef, seq![b.xy], props_view(b.properties@))
            },
            GdsElement::GdsArrayRef(b) => ElemView {
                name: Some(b.name@),
                cols: Some(b.cols),
                rows: Some(b.rows),
                strans: b.strans,
                plex: b.plex,
                elflags: b.elflags,
                ..elem_base(ElemKind::ArrayRef, b.xy@, props_view(b.properties@))
            },
        }
    }
}

/// The mathematical value of a [`GdsStruct`].
pub struct StructView {
    pub name: Seq<char>,
    pub dates: GdsDateTimes,
    pub elems: Seq<ElemView>,
}

impl View for GdsStruct {
    type V = StructView;

    open spec fn view(&self) -> StructView {
        StructView {
            name: self.name@,
            dates: self.dates,
            elems: self.elems@.map_values(|e: GdsElement| e@),
        }
    }
}

/// The mathematical value of a [`GdsLibrary`].
pub struct LibraryView {
    pub name: Seq<char>,
    pub version: i16,
    pub dates: GdsDateTimes,
    pub units: GdsUnits,
    pub structs: Seq<StructView>,
}

impl View for GdsLibrary {
    type V = LibraryView;

    open spec fn view(&self) -> LibraryView {
        LibraryView {
            name: self.name@,
            version: self.version,
            dates: self.dates,
            units: self.units,
            structs: self.structs@.map_values(|s: GdsStruct| s@),
        }
    }
}

} // verus!
