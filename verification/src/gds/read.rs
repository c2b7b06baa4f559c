//! Reading and scanning GDSII streams.
use super::{
    data_type_of_code, record_type_of_code, record_type_valid, ErrorView, GdsDataType, GdsError,
    GdsIoError, GdsRecord, GdsRecordHeader, GdsRecordType, RecordView,
};
use vstd::prelude::*;
use vstd::utf8::{decode_utf8, valid_utf8};

verus! {

// ---------------------------------------------------------------------------
// Byte-level decoding
// ---------------------------------------------------------------------------

/// The unsigned value of two big-endian bytes.
pub open spec fn be_u16(b0: u8, b1: u8) -> int {
    b0 as int * 256 + b1 as int
}

/// The signed (two's complement) value of two big-endian bytes.
pub open spec fn be_i16(b0: u8, b1: u8) -> i16 {
    let u = be_u16(b0, b1);
    if u >= 0x8000 {
        (u - 0x1_0000) as i16
    } else {
        u as i16
    }
}

/// The unsigned value of four big-endian bytes.
pub open spec fn be_u32(b0: u8, b1: u8, b2: u8, b3: u8) -> int {
    ((b0 as int * 256 + b1 as int) * 256 + b2 as int) * 256 + b3 as int
}

/// The signed (two's complement) value of four big-endian bytes.
pub open spec fn be_i32(b0: u8, b1: u8, b2: u8, b3: u8) -> i32 {
    let u = be_u32(b0, b1, b2, b3);
    if u >= 0x8000_0000 {
        (u - 0x1_0000_0000) as i32
    } else {
        u as i32
    }
}

/// The unsigned value of eight big-endian bytes starting at `i`.
pub open spec fn be_u64_at(p: Seq<u8>, i: int) -> u64 {
    (be_u32(p[i], p[i + 1], p[i + 2], p[i + 3]) * 0x1_0000_0000 + be_u32(
        p[i + 4],
        p[i + 5],
        p[i + 6],
        p[i + 7],
    )) as u64
}

/// The big-endian 16-bit integers of a payload.
pub open spec fn i16s_of(p: Seq<u8>) -> Seq<i16> {
    Seq::new((p.len() / 2) as nat, |i: int| be_i16(p[2 * i], p[2 * i + 1]))
}

/// The big-endian 32-bit integers of a payload.
pub open spec fn i32s_of(p: Seq<u8>) -> Seq<i32> {
    Seq::new(
        (p.len() / 4) as nat,
        |i: int| be_i32(p[4 * i], p[4 * i + 1], p[4 * i + 2], p[4 * i + 3]),
    )
}

/// The big-endian 64-bit patterns of a payload.
pub open spec fn u64s_of(p: Seq<u8>) -> Seq<u64> {
    Seq::new((p.len() / 8) as nat, |i: int| be_u64_at(p, 8 * i))
}

/// The text bytes of a string payload: one trailing NUL byte, if present, is dropped.
pub open spec fn text_bytes(p: Seq<u8>) -> Seq<u8> {
    if p.len() > 0 && p.last() == 0 {
        p.drop_last()
    } else {
        p
    }
}

/// The text of a string payload, or the error for invalid UTF-8.
pub open spec fn payload_text(p: Seq<u8>) -> Result<Seq<char>, ErrorView> {
    if valid_utf8(text_bytes(p)) {
        Ok(decode_utf8(text_bytes(p)))
    } else {
        Err(ErrorView::Boxed(GdsIoError::InvalidUtf8))
    }
}

/// The data type and, where it is fixed, the content length that each record type
/// must have; `None` for record types that are never decoded.
pub open spec fn expected_shape(t: GdsRecordType) -> Option<(GdsDataType, Option<u16>)> {
    match t {
        GdsRecordType::Header => Some((GdsDataType::I16, Some(2u16))),
        GdsRecordType::BgnLib => Some((GdsDataType::I16, Some(24u16))),
        GdsRecordType::LibName => Some((GdsDataType::Str, None)),
        GdsRecordType::Units => Some((GdsDataType::F64, Some(16u16))),
        GdsRecordType::EndLib => Some((GdsDataType::NoData, Some(0u16))),
        GdsRecordType::BgnStruct => Some((GdsDataType::I16, Some(24u16))),
        GdsRecordType::StructName => Some((GdsDataType::Str, None)),
        GdsRecordType::StructRefName => Some((GdsDataType::Str, None)),
        GdsRecordType::EndStruct => Some((GdsDataType::NoData, Some(0u16))),
        GdsRecordType::Boundary => Some((GdsDataType::NoData, Some(0u16))),
        GdsRecordType::Path => Some((GdsDataType::NoData, Some(0u16))),
        GdsRecordType::StructRef => Some((GdsDataType::NoData, Some(0u16))),
        GdsRecordType::ArrayRef => Some((GdsDataType::NoData, Some(0u16))),
        GdsRecordType::Text => Some((GdsDataType::NoData, Some(0u16))),
        GdsRecordType::Layer => Some((GdsDataType::I16, Some(2u16))),
        GdsRecordType::DataType => Some((GdsDataType::I16, Some(2u16))),
        GdsRecordType::Width => Some((GdsDataType::I32, Some(4u16))),
        GdsRecordType::Xy => Some((GdsDataType::I32, None)),
        GdsRecordType::EndElement => Some((GdsDataType::NoData, Some(0u16))),
        GdsRecordType::ColRow => Some((GdsDataType::I16, Some(4u16))),
        GdsRecordType::Node => Some((GdsDataType::NoData, Some(0u16))),
        GdsRecordType::TextType => Some((GdsDataType::I16, Some(2u16))),
        GdsRecordType::Presentation => Some((GdsDataType::BitArray, Some(2u16))),
        GdsRecordType::String => Some((GdsDataType::Str, None)),
        GdsRecordType::Strans => Some((GdsDataType::BitArray, Some(2u16))),
        GdsRecordType::Mag => Some((GdsDataType::F64, Some(8u16))),
        GdsRecordType::Angle => Some((GdsDataType::F64, Some(8u16))),
        GdsRecordType::RefLibs => Some((GdsDataType::Str, None)),
        GdsRecordType::Fonts => Some((GdsDataType::Str, None)),
        GdsRecordType::PathType => Some((GdsDataType::I16, Some(2u16))),
        GdsRecordType::Generations => Some((GdsDataType::I16, Some(2u16))),
        GdsRecordType::AttrTable => Some((GdsDataType::Str, None)),
        GdsRecordType::ElemFlags => Some((GdsDataType::BitArray, Some(2u16))),
        GdsRecordType::Nodetype => Some((GdsDataType::I16, Some(2u16))),
        GdsRecordType::PropAttr => Some((GdsDataType::I16, Some(2u16))),
        GdsRecordType::PropValue => Some((GdsDataType::Str, None)),
        GdsRecordType::Box => Some((GdsDataType::NoData, Some(0u16))),
        GdsRecordType::BoxType => Some((GdsDataType::I16, Some(2u16))),
        GdsRecordType::Plex => Some((GdsDataType::I32, Some(4u16))),
        GdsRecordType::BeginExtn => Some((GdsDataType::I32, Some(4u16))),
        GdsRecordType::EndExtn => Some((GdsDataType::I32, Some(4u16))),
        GdsRecordType::TapeNum => Some((GdsDataType::I16, Some(2u16))),
        GdsRecordType::TapeCode => Some((GdsDataType::I16, Some(12u16))),
        GdsRecordType::Format => Some((GdsDataType::I16, Some(2u16))),
        GdsRecordType::Mask => Some((GdsDataType::Str, None)),
        GdsRecordType::EndMasks => Some((GdsDataType::NoData, Some(0u16))),
        GdsRecordType::LibDirSize => Some((GdsDataType::I16, Some(2u16))),
        GdsRecordType::SrfName => Some((GdsDataType::Str, None)),
        GdsRecordType::LibSecur => Some((GdsDataType::I16, Some(2u16))),
        _ => None,
    }
}

/// Whether a header's data type and length match its record type.
pub open spec fn shape_ok(h: GdsRecordHeader) -> bool {
    match expected_shape(h.rtype) {
        Some((dt, fixed)) => h.dtype == dt && match fixed {
            Some(l) => l == h.len,
            None => true,
        },
        None => false,
    }
}

/// The record decoded from the content `p` of a record of type `t` with a matching
/// shape, or the text-decoding error.
pub open spec fn decode_payload(t: GdsRecordType, p: Seq<u8>) -> Result<RecordView, ErrorView> {
    let w = i16s_of(p);
    let d = i32s_of(p);
    let f = u64s_of(p);
    let text = payload_text(p);
    match t {
        GdsRecordType::Header => Ok(RecordView::Header { version: w[0] }),
        GdsRecordType::BgnLib => Ok(RecordView::BgnLib { dates: w }),
        GdsRecordType::LibName => match text {
            Ok(s) => Ok(RecordView::LibName(s)),
            Err(e) => Err(e),
        },
        GdsRecordType::Units => Ok(RecordView::Units(f[0], f[1])),
        GdsRecordType::EndLib => Ok(RecordView::EndLib),
        GdsRecordType::BgnStruct => Ok(RecordView::BgnStruct { dates: w }),
        GdsRecordType::StructName => match text {
            Ok(s) => Ok(RecordView::StructName(s)),
            Err(e) => Err(e),
        },
        GdsRecordType::StructRefName => match text {
            Ok(s) => Ok(RecordView::StructRefName(s)),
            Err(e) => Err(e),
        },
        GdsRecordType::EndStruct => Ok(RecordView::EndStruct),
        GdsRecordType::Boundary => Ok(RecordView::Boundary),
        GdsRecordType::Path => Ok(RecordView::Path),
        GdsRecordType::StructRef => Ok(RecordView::StructRef),
        GdsRecordType::ArrayRef => Ok(RecordView::ArrayRef),
        GdsRecordType::Text => Ok(RecordView::Text),
        GdsRecordType::Layer => Ok(RecordView::Layer(w[0])),
        GdsRecordType::DataType => Ok(RecordView::DataType(w[0])),
        GdsRecordType::Width => Ok(RecordView::Width(d[0])),
        GdsRecordType::Xy => Ok(RecordView::Xy(d)),
        GdsRecordType::EndElement => Ok(RecordView::EndElement),
        GdsRecordType::ColRow => Ok(RecordView::ColRow { cols: w[0], rows: w[1] }),
        GdsRecordType::Node => Ok(RecordView::Node),
        GdsRecordType::TextType => Ok(RecordView::TextType(w[0])),
        GdsRecordType::Presentation => Ok(RecordView::Presentation(p[0], p[1])),
        GdsRecordType::String => match text {
            Ok(s) => Ok(RecordView::String(s)),
            Err(e) => Err(e),
        },
        GdsRecordType::Strans => Ok(RecordView::Strans(p[0], p[1])),
        GdsRecordType::Mag => Ok(RecordView::Mag(f[0])),
        GdsRecordType::Angle => Ok(RecordView::Angle(f[0])),
        GdsRecordType::RefLibs => match text {
            Ok(s) => Ok(RecordView::RefLibs(s)),
            Err(e) => Err(e),
        },
        GdsRecordType::Fonts => match text {
            Ok(s) => Ok(RecordView::Fonts(s)),
            Err(e) => Err(e),
        },
        GdsRecordType::PathType => Ok(RecordView::PathType(w[0])),
        GdsRecordType::Generations => Ok(RecordView::Generations(w[0])),
        GdsRecordType::AttrTable => match text {
            Ok(s) => Ok(RecordView::AttrTable(s)),
            Err(e) => Err(e),
        },
        GdsRecordType::ElemFlags => Ok(RecordView::ElemFlags(p[0], p[1])),
        GdsRecordType::Nodetype => Ok(RecordView::Nodetype(w[0])),
        GdsRecordType::PropAttr => Ok(RecordView::PropAttr(w[0])),
        GdsRecordType::PropValue => match text {
            Ok(s) => Ok(RecordView::PropValue(s)),
            Err(e) => Err(e),
        },
        GdsRecordType::Box => Ok(RecordView::Box),
        GdsRecordType::BoxType => Ok(RecordView::BoxType(w[0])),
        GdsRecordType::Plex => Ok(RecordView::Plex(d[0])),
        GdsRecordType::BeginExtn => Ok(RecordView::BeginExtn(d[0])),
        GdsRecordType::EndExtn => Ok(RecordView::EndExtn(d[0])),
        GdsRecordType::TapeNum => Ok(RecordView::TapeNum(w[0])),
        GdsRecordType::TapeCode => Ok(RecordView::TapeCode(w)),
        GdsRecordType::Format => Ok(RecordView::Format(w[0])),
        GdsRecordType::Mask => match text {
            Ok(s) => Ok(RecordView::Mask(s)),
            Err(e) => Err(e),
        },
        GdsRecordType::EndMasks => Ok(RecordView::EndMasks),
        GdsRecordType::LibDirSize => Ok(RecordView::LibDirSize(w[0])),
        GdsRecordType::SrfName => match text {
            Ok(s) => Ok(RecordView::SrfName(s)),
            Err(e) => Err(e),
        },
        GdsRecordType::LibSecur => Ok(RecordView::LibSecur(w[0])),
        _ => Ok(RecordView::EndLib),
    }
}

/// The outcome of reading a header at a position: the header or an error, with the
/// position afterwards.
pub enum HeaderRead {
    Got(GdsRecordHeader, u64),
    Failed(ErrorView, u64),
}

/// Reads the four-byte header at `pos`: a big-endian length that counts the header
/// itself and must be even and at least 4, a valid record-type byte and a data-type
/// byte. A read past the end fails and leaves the position at the end of the data.
pub open spec fn read_header(data: Seq<u8>, pos: u64) -> HeaderRead {
    let eof = ErrorView::Boxed(GdsIoError::UnexpectedEof);
    let end = data.len() as u64;
    if pos + 2 > data.len() {
        HeaderRead::Failed(eof, end)
    } else {
        let num = be_u16(data[pos as int], data[pos + 1]);
        if num < 4 || num % 2 != 0 {
            HeaderRead::Failed(ErrorView::RecordLen(num as usize), (pos + 2) as u64)
        } else if pos + 3 > data.len() {
            HeaderRead::Failed(eof, end)
        } else {
            let rb = data[pos + 2];
            match record_type_of_code(rb) {
                None => HeaderRead::Failed(ErrorView::InvalidRecordType(rb), (pos + 3) as u64),
                Some(rt) => if !record_type_valid(rt) {
                    HeaderRead::Failed(ErrorView::InvalidRecordType(rb), (pos + 3) as u64)
                } else if pos + 4 > data.len() {
                    HeaderRead::Failed(eof, end)
                } else {
                    let db = data[pos + 3];
                    match data_type_of_code(db) {
                        None => HeaderRead::Failed(ErrorView::InvalidDataType(db), (pos + 4) as u64),
                        Some(dt) => HeaderRead::Got(
                            GdsRecordHeader { rtype: rt, dtype: dt, len: (num - 4) as u16 },
                            (pos + 4) as u64,
                        ),
                    }
                },
            }
        }
    }
}

/// The outcome of reading a whole record: the record or an error, with the position
/// afterwards.
pub enum RecordRead {
    Got(RecordView, u64),
    Failed(ErrorView, u64),
}

/// Reads the content of a record whose header `h` has been read, ending at `pos`. A
/// string record with empty content holds empty text.
pub open spec fn read_content(data: Seq<u8>, h: GdsRecordHeader, pos: u64) -> RecordRead {
    if !shape_ok(h) {
        RecordRead::Failed(ErrorView::RecordDecode(h.rtype, h.dtype, h.len), pos)
    } else if pos + h.len > data.len() {
        RecordRead::Failed(ErrorView::Boxed(GdsIoError::UnexpectedEof), data.len() as u64)
    } else {
        let end = (pos + h.len) as u64;
        match decode_payload(h.rtype, data.subrange(pos as int, end as int)) {
            Ok(r) => RecordRead::Got(r, end),
            Err(e) => RecordRead::Failed(e, end),
        }
    }
}

/// The outcome of reading text.
pub enum TextRead {
    Got(Seq<char>, u64),
    Failed(ErrorView, u64),
}

/// Reads `len` bytes of text at `pos`; no bytes make empty text.
pub open spec fn read_text_at(data: Seq<u8>, pos: u64, len: u16) -> TextRead {
    if pos + len > data.len() {
        TextRead::Failed(ErrorView::Boxed(GdsIoError::UnexpectedEof), data.len() as u64)
    } else {
        let end = (pos + len) as u64;
        match payload_text(data.subrange(pos as int, end as int)) {
            Ok(s) => TextRead::Got(s, end),
            Err(e) => TextRead::Failed(e, end),
        }
    }
}

/// The outcome of a step of scanning or parsing from state `S`: a value and the state
/// afterwards, or an error and the state afterwards.
pub enum Step<T, S> {
    Done(T, S),
    Fail(ErrorView, S),
}

impl<T, S> Step<T, S> {
    /// Continues with `f` after a value; errors pass through unchanged.
    pub open spec fn and_then<U>(self, f: spec_fn(T, S) -> Step<U, S>) -> Step<U, S> {
        match self {
            Step::Done(v, s) => f(v, s),
            Step::Fail(e, s) => Step::Fail(e, s),
        }
    }
}

/// Whether an executable result `r`, ending in state `fin`, is the outcome `st`.
pub open spec fn step_is<T: View, S>(st: Step<T::V, S>, r: Result<T, GdsError>, fin: S) -> bool {
    match st {
        Step::Done(v, s) => r matches Ok(x) && x@ == v && fin == s,
        Step::Fail(e, s) => r matches Err(x) && x@ == e && fin == s,
    }
}

/// Reads the record at `pos`: its header, then its content.
pub open spec fn read_record_at(data: Seq<u8>, pos: u64) -> RecordRead {
    match read_header(data, pos) {
        HeaderRead::Failed(e, p) => RecordRead::Failed(e, p),
        HeaderRead::Got(h, p) => read_content(data, h, p),
    }
}

/// The two flag bytes of a `Presentation`, `Strans` or `ElemFlags` record are returned
/// in the order they stand in the stream: the six bytes `00 06 17 01 b0 b1` read as
/// `Presentation(b0, b1)`, `00 06 1A 01 b0 b1` as `Strans(b0, b1)` and `00 06 26 01 b0 b1`
/// as `ElemFlags(b0, b1)`, the record ending six bytes on.
pub proof fn law_flag_bytes_in_stream_order(data: Seq<u8>, pos: u64)
    requires
        data.len() <= u64::MAX,
        pos + 6 <= data.len(),
        data[pos as int] == 0,
        data[pos + 1] == 6,
        data[pos + 3] == 1,
    ensures
        data[pos + 2] == 0x17 ==> read_record_at(data, pos) == RecordRead::Got(
            RecordView::Presentation(data[pos + 4], data[pos + 5]),
            (pos + 6) as u64,
        ),
        data[pos + 2] == 0x1A ==> read_record_at(data, pos) == RecordRead::Got(
            RecordView::Strans(data[pos + 4], data[pos + 5]),
            (pos + 6) as u64,
        ),
        data[pos + 2] == 0x26 ==> read_record_at(data, pos) == RecordRead::Got(
            RecordView::ElemFlags(data[pos + 4], data[pos + 5]),
            (pos + 6) as u64,
        ),
{
    let p = data.subrange(pos + 4, pos + 6);
    assert(p[0] == data[pos + 4] && p[1] == data[pos + 5]);
    assert(be_u16(data[pos as int], data[pos + 1]) == 6);
    if data[pos + 2] == 0x17 {
        assert(record_type_of_code(0x17u8) == Some(GdsRecordType::Presentation));
    }
    if data[pos + 2] == 0x1A {
        assert(record_type_of_code(0x1Au8) == Some(GdsRecordType::Strans));
    }
    if data[pos + 2] == 0x26 {
        assert(record_type_of_code(0x26u8) == Some(GdsRecordType::ElemFlags));
    }
    assert(data_type_of_code(1u8) == Some(GdsDataType::BitArray));
}

/// A successful header read consumes four bytes that lie within the data.
pub proof fn lemma_read_header_progress(data: Seq<u8>, pos: u64)
    requires
        data.len() <= u64::MAX,
    ensures
        read_header(data, pos) matches HeaderRead::Got(h, p) ==> p == pos + 4 && p <= data.len(),
        pos <= data.len() ==> (read_header(data, pos) matches HeaderRead::Failed(e, p) ==> pos <= p
            <= data.len()),
{
}

/// A successful record read moves forward by at least four bytes and stays within
/// the data.
pub proof fn lemma_read_record_progress(data: Seq<u8>, pos: u64)
    requires
        data.len() <= u64::MAX,
    ensures
        read_record_at(data, pos) matches RecordRead::Got(r, p) ==> pos + 4 <= p <= data.len(),
        pos <= data.len() ==> (read_record_at(data, pos) matches RecordRead::Failed(e, p) ==> pos
            <= p <= data.len()),
{
}

// ---------------------------------------------------------------------------
// The reader
// ---------------------------------------------------------------------------

/// `std::str::from_utf8`: succeeds exactly on valid UTF-8, and then yields the
/// decoded text, which is copied into a new `String`.
#[verifier::external_body]
pub(crate) fn utf8_to_string(bytes: &[u8]) -> (r: Option<String>)
    ensures
        r is Some <==> valid_utf8(bytes@),
        r matches Some(s) ==> s@ == decode_utf8(bytes@),
{
    match std::str::from_utf8(bytes) {
        Ok(s) => Some(s.to_string()),
        Err(_) => None,
    }
}

/// The signed value of two big-endian bytes.
fn decode_i16(b0: u8, b1: u8) -> (r: i16)
    ensures
        r == be_i16(b0, b1),
{
    let u: i32 = b0 as i32 * 256 + b1 as i32;
    if u >= 0x8000 {
        (u - 0x1_0000) as i16
    } else {
        u as i16
    }
}

/// The signed value of four big-endian bytes.
fn decode_i32(b0: u8, b1: u8, b2: u8, b3: u8) -> (r: i32)
    ensures
        r == be_i32(b0, b1, b2, b3),
{
    let u: i64 = ((b0 as i64 * 256 + b1 as i64) * 256 + b2 as i64) * 256 + b3 as i64;
    if u >= 0x8000_0000 {
        (u - 0x1_0000_0000) as i32
    } else {
        u as i32
    }
}

/// The unsigned value of four big-endian bytes.
fn decode_u32(b0: u8, b1: u8, b2: u8, b3: u8) -> (r: u64)
    ensures
        r == be_u32(b0, b1, b2, b3),
        r < 0x1_0000_0000,
{
    ((b0 as u64 * 256 + b1 as u64) * 256 + b2 as u64) * 256 + b3 as u64
}

/// The big-endian 16-bit integers of `data[p..p + len]`.
fn decode_i16s(data: &Vec<u8>, p: usize, len: usize) -> (r: Vec<i16>)
    requires
        p + len <= data@.len(),
    ensures
        r@ == i16s_of(data@.subrange(p as int, p + len)),
{
    let ghost pay = data@.subrange(p as int, p + len);
    let n = len / 2;
    let dl = data.len();
    let mut rv: Vec<i16> = Vec::new();
    let mut i: usize = 0;
    while i < n
        invariant
            dl == data@.len(),
            p + len <= data@.len(),
            pay == data@.subrange(p as int, p + len),
            n == len / 2,
            i <= n,
            rv@ == i16s_of(pay).take(i as int),
        decreases n - i,
    {
        assert(i + i + 1 < len) by (nonlinear_arith)
            requires
                i < n,
                n == len / 2,
        ;
        let k = p + i + i;
        rv.push(decode_i16(data[k], data[k + 1]));
        i = i + 1;
        assert(rv@ =~= i16s_of(pay).take(i as int));
    }
    assert(rv@ =~= i16s_of(pay));
    rv
}

/// The big-endian 32-bit integers of `data[p..p + len]`.
fn decode_i32s(data: &Vec<u8>, p: usize, len: usize) -> (r: Vec<i32>)
    requires
        p + len <= data@.len(),
    ensures
        r@ == i32s_of(data@.subrange(p as int, p + len)),
{
    let ghost pay = data@.subrange(p as int, p + len);
    let n = len / 4;
    let dl = data.len();
    let mut rv: Vec<i32> = Vec::new();
    let mut i: usize = 0;
    while i < n
        invariant
            dl == data@.len(),
            p + len <= data@.len(),
            pay == data@.subrange(p as int, p + len),
            n == len / 4,
            i <= n,
            rv@ == i32s_of(pay).take(i as int),
        decreases n - i,
    {
        assert(4 * i + 3 < len) by (nonlinear_arith)
            requires
                i < n,
                n == len / 4,
        ;
        let k = p + 4 * i;
        rv.push(decode_i32(data[k], data[k + 1], data[k + 2], data[k + 3]));
        i = i + 1;
        assert(rv@ =~= i32s_of(pay).take(i as int));
    }
    assert(rv@ =~= i32s_of(pay));
    rv
}

/// The big-endian 64-bit patterns of `data[p..p + len]`.
fn decode_u64s(data: &Vec<u8>, p: usize, len: usize) -> (r: Vec<u64>)
    requires
        p + len <= data@.len(),
    ensures
        r@ == u64s_of(data@.subrange(p as int, p + len)),
{
    let ghost pay = data@.subrange(p as int, p + len);
    let n = len / 8;
    let dl = data.len();
    let mut rv: Vec<u64> = Vec::new();
    let mut i: usize = 0;
    while i < n
        invariant
            dl == data@.len(),
            p + len <= data@.len(),
            pay == data@.subrange(p as int, p + len),
            n == len / 8,
            i <= n,
            rv@ == u64s_of(pay).take(i as int),
        decreases n - i,
    {
        assert(8 * i + 7 < len) by (nonlinear_arith)
            requires
                i < n,
                n == len / 8,
        ;
        let k = p + 8 * i;
        let hi = decode_u32(data[k], data[k + 1], data[k + 2], data[k + 3]);
        let lo = decode_u32(data[k + 4], data[k + 5], data[k + 6], data[k + 7]);
        rv.push(hi * 0x1_0000_0000 + lo);
        i = i + 1;
        assert(rv@ =~= u64s_of(pay).take(i as int));
    }
    assert(rv@ =~= u64s_of(pay));
    rv
}

/// The text of the string content `data[p..p + len]`: one trailing NUL byte, if any, is
/// dropped, and the rest must be valid UTF-8.
fn decode_str(data: &Vec<u8>, p: usize, len: usize) -> (r: Result<String, GdsError>)
    requires
        p + len <= data@.len(),
    ensures
        match payload_text(data@.subrange(p as int, p + len)) {
            Ok(s) => r matches Ok(x) && x@ == s,
            Err(e) => r matches Err(x) && x@ == e,
        },
{
    let ghost pay = data@.subrange(p as int, p + len);
    let dl = data.len();
    let end = if len > 0 && data[p + len - 1] == 0 {
        p + len - 1
    } else {
        p + len
    };
    let bytes = &data.as_slice()[p..end];
    assert(bytes@ =~= text_bytes(pay));
    match utf8_to_string(bytes) {
        Some(s) => Ok(s),
        None => Err(GdsError::Boxed(GdsIoError::InvalidUtf8)),
    }
}

/// The data type and, where fixed, the content length of a record type.
fn shape_of(t: GdsRecordType) -> (r: Option<(GdsDataType, Option<u16>)>)
    ensures
        r == expected_shape(t),
{
    match t {
        GdsRecordType::Header => Some((GdsDataType::I16, Some(2u16))),
        GdsRecordType::BgnLib => Some((GdsDataType::I16, Some(24u16))),
        GdsRecordType::LibName => Some((GdsDataType::Str, None)),
        GdsRecordType::Units => Some((GdsDataType::F64, Some(16u16))),
        GdsRecordType::EndLib => Some((GdsDataType::NoData, Some(0u16))),
        GdsRecordType::BgnStruct => Some((GdsDataType::I16, Some(24u16))),
        GdsRecordType::StructName => Some((GdsDataType::Str, None)),
        GdsRecordType::StructRefName => Some((GdsDataType::Str, None)),
        GdsRecordType::EndStruct => Some((GdsDataType::NoData, Some(0u16))),
        GdsRecordType::Boundary => Some((GdsDataType::NoData, Some(0u16))),
        GdsRecordType::Path => Some((GdsDataType::NoData, Some(0u16))),
        GdsRecordType::StructRef => Some((GdsDataType::NoData, Some(0u16))),
        GdsRecordType::ArrayRef => Some((GdsDataType::NoData, Some(0u16))),
        GdsRecordType::Text => Some((GdsDataType::NoData, Some(0u16))),
        GdsRecordType::Layer => Some((GdsDataType::I16, Some(2u16))),
        GdsRecordType::DataType => Some((GdsDataType::I16, Some(2u16))),
        GdsRecordType::Width => Some((GdsDataType::I32, Some(4u16))),
        GdsRecordType::Xy => Some((GdsDataType::I32, None)),
        GdsRecordType::EndElement => Some((GdsDataType::NoData, Some(0u16))),
        GdsRecordType::ColRow => Some((GdsDataType::I16, Some(4u16))),
        GdsRecordType::Node => Some((GdsDataType::NoData, Some(0u16))),
        GdsRecordType::TextType => Some((GdsDataType::I16, Some(2u16))),
        GdsRecordType::Presentation => Some((GdsDataType::BitArray, Some(2u16))),
        GdsRecordType::String => Some((GdsDataType::Str, None)),
        GdsRecordType::Strans => Some((GdsDataType::BitArray, Some(2u16))),
        GdsRecordType::Mag => Some((GdsDataType::F64, Some(8u16))),
        GdsRecordType::Angle => Some((GdsDataType::F64, Some(8u16))),
        GdsRecordType::RefLibs => Some((GdsDataType::Str, None)),
        GdsRecordType::Fonts => Some((GdsDataType::Str, None)),
        GdsRecordType::PathType => Some((GdsDataType::I16, Some(2u16))),
        GdsRecordType::Generations => Some((GdsDataType::I16, Some(2u16))),
        GdsRecordType::AttrTable => Some((GdsDataType::Str, None)),
        GdsRecordType::ElemFlags => Some((GdsDataType::BitArray, Some(2u16))),
        GdsRecordType::Nodetype => Some((GdsDataType::I16, Some(2u16))),
        GdsRecordType::PropAttr => Some((GdsDataType::I16, Some(2u16))),
        GdsRecordType::PropValue => Some((GdsDataType::Str, None)),
        GdsRecordType::Box => Some((GdsDataType::NoData, Some(0u16))),
        GdsRecordType::BoxType => Some((GdsDataType::I16, Some(2u16))),
        GdsRecordType::Plex => Some((GdsDataType::I32, Some(4u16))),
        GdsRecordType::BeginExtn => Some((GdsDataType::I32, Some(4u16))),
        GdsRecordType::EndExtn => Some((GdsDataType::I32, Some(4u16))),
        GdsRecordType::TapeNum => Some((GdsDataType::I16, Some(2u16))),
        GdsRecordType::TapeCode => Some((GdsDataType::I16, Some(12u16))),
        GdsRecordType::Format => Some((GdsDataType::I16, Some(2u16))),
        GdsRecordType::Mask => Some((GdsDataType::Str, None)),
        GdsRecordType::EndMasks => Some((GdsDataType::NoData, Some(0u16))),
        GdsRecordType::LibDirSize => Some((GdsDataType::I16, Some(2u16))),
        GdsRecordType::SrfName => Some((GdsDataType::Str, None)),
        GdsRecordType::LibSecur => Some((GdsDataType::I16, Some(2u16))),
        _ => None,
    }
}

/// Builds the record of type `t` from its decoded I16 content.
fn build_i16(t: GdsRecordType, w: Vec<i16>, Ghost(p): Ghost<Seq<u8>>) -> (r: GdsRecord)
    requires
        expected_shape(t) matches Some((dt, fixed)) && dt == GdsDataType::I16
            && (fixed matches Some(l) ==> l == p.len()),
        w@ == i16s_of(p),
    ensures
        decode_payload(t, p) == Ok::<RecordView, ErrorView>(r@),
{
    match t {
        GdsRecordType::Header => GdsRecord::Header { version: w[0] },
        GdsRecordType::BgnLib => GdsRecord::BgnLib { dates: w },
        GdsRecordType::BgnStruct => GdsRecord::BgnStruct { dates: w },
        GdsRecordType::Layer => GdsRecord::Layer(w[0]),
        GdsRecordType::DataType => GdsRecord::DataType(w[0]),
        GdsRecordType::ColRow => GdsRecord::ColRow { cols: w[0], rows: w[1] },
        GdsRecordType::TextType => GdsRecord::TextType(w[0]),
        GdsRecordType::PathType => GdsRecord::PathType(w[0]),
        GdsRecordType::Generations => GdsRecord::Generations(w[0]),
        GdsRecordType::Nodetype => GdsRecord::Nodetype(w[0]),
        GdsRecordType::PropAttr => GdsRecord::PropAttr(w[0]),
        GdsRecordType::BoxType => GdsRecord::BoxType(w[0]),
        GdsRecordType::TapeNum => GdsRecord::TapeNum(w[0]),
        GdsRecordType::TapeCode => GdsRecord::TapeCode(w),
        GdsRecordType::Format => GdsRecord::Format(w[0]),
        GdsRecordType::LibDirSize => GdsRecord::LibDirSize(w[0]),
        GdsRecordType::LibSecur => GdsRecord::LibSecur(w[0]),
        _ => GdsRecord::EndLib,
    }
}

/// Builds the record of type `t` from its decoded I32 content.
fn build_i32(t: GdsRecordType, d: Vec<i32>, Ghost(p): Ghost<Seq<u8>>) -> (r: GdsRecord)
    requires
        expected_shape(t) matches Some((dt, fixed)) && dt == GdsDataType::I32
            && (fixed matches Some(l) ==> l == p.len()),
        d@ == i32s_of(p),
    ensures
        decode_payload(t, p) == Ok::<RecordView, ErrorView>(r@),
{
    match t {
        GdsRecordType::Width => GdsRecord::Width(d[0]),
        GdsRecordType::Xy => GdsRecord::Xy(d),
        GdsRecordType::Plex => GdsRecord::Plex(d[0]),
        GdsRecordType::BeginExtn => GdsRecord::BeginExtn(d[0]),
        GdsRecordType::EndExtn => GdsRecord::EndExtn(d[0]),
        _ => GdsRecord::EndLib,
    }
}

/// Builds the record of type `t` from its decoded F64 content.
fn build_f64(t: GdsRecordType, f: Vec<u64>, Ghost(p): Ghost<Seq<u8>>) -> (r: GdsRecord)
    requires
        expected_shape(t) matches Some((dt, fixed)) && dt == GdsDataType::F64
            && (fixed matches Some(l) ==> l == p.len()),
        f@ == u64s_of(p),
    ensures
        decode_payload(t, p) == Ok::<RecordView, ErrorView>(r@),
{
    match t {
        GdsRecordType::Units => GdsRecord::Units(f[0], f[1]),
        GdsRecordType::Mag => GdsRecord::Mag(f[0]),
        GdsRecordType::Angle => GdsRecord::Angle(f[0]),
        _ => GdsRecord::EndLib,
    }
}

/// Builds the record of type `t` from its decoded Str content.
fn build_str(t: GdsRecordType, s: String, Ghost(p): Ghost<Seq<u8>>) -> (r: GdsRecord)
    requires
        expected_shape(t) matches Some((dt, fixed)) && dt == GdsDataType::Str
            && (fixed matches Some(l) ==> l == p.len()),
        payload_text(p) == Ok::<Seq<char>, ErrorView>(s@),
    ensures
        decode_payload(t, p) == Ok::<RecordView, ErrorView>(r@),
{
    match t {
        GdsRecordType::LibName => GdsRecord::LibName(s),
        GdsRecordType::StructName => GdsRecord::StructName(s),
        GdsRecordType::StructRefName => GdsRecord::StructRefName(s),
        GdsRecordType::String => GdsRecord::String(s),
        GdsRecordType::RefLibs => GdsRecord::RefLibs(s),
        GdsRecordType::Fonts => GdsRecord::Fonts(s),
        GdsRecordType::AttrTable => GdsRecord::AttrTable(s),
        GdsRecordType::PropValue => GdsRecord::PropValue(s),
        GdsRecordType::Mask => GdsRecord::Mask(s),
        GdsRecordType::SrfName => GdsRecord::SrfName(s),
        _ => GdsRecord::EndLib,
    }
}

/// Builds the record of type `t` from two flag bytes, or with no content.
fn build_small(t: GdsRecordType, b0: u8, b1: u8, Ghost(p): Ghost<Seq<u8>>) -> (r: GdsRecord)
    requires
        expected_shape(t) matches Some((dt, fixed)) && (dt == GdsDataType::NoData || dt == GdsDataType::BitArray)
            && (fixed matches Some(l) ==> l == p.len()),
        p.len() == 2 ==> b0 == p[0] && b1 == p[1],
    ensures
        decode_payload(t, p) == Ok::<RecordView, ErrorView>(r@),
{
    match t {
        GdsRecordType::EndLib => GdsRecord::EndLib,
        GdsRecordType::EndStruct => GdsRecord::EndStruct,
        GdsRecordType::Boundary => GdsRecord::Boundary,
        GdsRecordType::Path => GdsRecord::Path,
        GdsRecordType::StructRef => GdsRecord::StructRef,
        GdsRecordType::ArrayRef => GdsRecord::ArrayRef,
        GdsRecordType::Text => GdsRecord::Text,
        GdsRecordType::EndElement => GdsRecord::EndElement,
        GdsRecordType::Node => GdsRecord::Node,
        GdsRecordType::Presentation => GdsRecord::Presentation(b0, b1),
        GdsRecordType::Strans => GdsRecord::Strans(b0, b1),
        GdsRecordType::ElemFlags => GdsRecord::ElemFlags(b0, b1),
        GdsRecordType::Box => GdsRecord::Box,
        GdsRecordType::EndMasks => GdsRecord::EndMasks,
        _ => GdsRecord::EndLib,
    }
}

/// A GDS reader.
///
/// Helper for parsing and scanning GDS held in memory.
pub struct GdsReader {
    /// The bytes being read.
    data: Vec<u8>,
    /// The current position.
    pos: u64,
}

impl GdsReader {
    /// The bytes being read.
    pub closed spec fn data(&self) -> Seq<u8> {
        self.data@
    }

    /// The current position.
    pub closed spec fn position(&self) -> u64 {
        self.pos
    }

    /// Creates a [GdsReader] of `bytes`.
    pub fn from_bytes(bytes: Vec<u8>) -> (r: GdsReader)
        ensures
            r.data() == bytes@,
            r.position() == 0,
    {
        Self::new(bytes)
    }

    /// Creates a [GdsReader] of `file`, positioned at its start.
    pub fn new(file: Vec<u8>) -> (r: GdsReader)
        ensures
            r.data() == file@,
            r.position() == 0,
    {
        GdsReader { data: file, pos: 0 }
    }

    /// Reads one byte.
    fn read_u8(&mut self) -> (r: Result<u8, GdsIoError>)
        ensures
            final(self).data() == old(self).data(),
            old(self).position() < old(self).data().len() ==> r == Ok::<u8, GdsIoError>(
                old(self).data()[old(self).position() as int],
            ) && final(self).position() == old(self).position() + 1,
            old(self).position() >= old(self).data().len() ==> r == Err::<u8, GdsIoError>(
                GdsIoError::UnexpectedEof,
            ) && final(self).position() == old(self).data().len(),
    {
        if self.pos < self.data.len() as u64 {
            let b = self.data[self.pos as usize];
            self.pos = self.pos + 1;
            Ok(b)
        } else {
            self.pos = self.data.len() as u64;
            Err(GdsIoError::UnexpectedEof)
        }
    }

    /// Whether `n` more bytes are available.
    fn has(&self, n: u64) -> (r: bool)
        ensures
            r == (self.position() + n <= self.data().len()),
            self.data().len() <= usize::MAX,
    {
        let len = self.data.len() as u64;
        self.pos <= len && n <= len - self.pos
    }

    /// Reads the next record-header from our file.
    ///
    /// Returns a [GdsRecordHeader] if successful.
    pub(crate) fn read_record_header(&mut self) -> (r: Result<GdsRecordHeader, GdsError>)
        ensures
            final(self).data().len() <= usize::MAX,
            final(self).data() == old(self).data(),
            match read_header(old(self).data(), old(self).position()) {
                HeaderRead::Got(h, p) => r == Ok::<GdsRecordHeader, GdsError>(h)
                    && final(self).position() == p,
                HeaderRead::Failed(e, p) => r matches Err(x) && x@ == e && final(self).position()
                    == p,
            },
    {
        if !self.has(2) {
            self.pos = self.data.len() as u64;
            return Err(GdsError::Boxed(GdsIoError::UnexpectedEof));
        }
        let hi = self.data[self.pos as usize];
        let lo = self.data[(self.pos + 1) as usize];
        self.pos = self.pos + 2;
        let num: u16 = (hi as u16) * 256 + lo as u16;
        if num < 4 || num % 2 != 0 {
            return Err(GdsError::RecordLen(num as usize));
        }
        let len = num - 4;
        let rb = match self.read_u8() {
            Ok(b) => b,
            Err(e) => {
                return Err(GdsError::Boxed(e));
            },
        };
        let record_type = match GdsRecordType::from_u8(rb) {
            Some(t) => t,
            None => {
                return Err(GdsError::InvalidRecordType(rb));
            },
        };
        if !record_type.valid() {
            return Err(GdsError::InvalidRecordType(record_type.to_u8()));
        }
        let db = match self.read_u8() {
            Ok(b) => b,
            Err(e) => {
                return Err(GdsError::Boxed(e));
            },
        };
        let data_type = match GdsDataType::from_u8(db) {
            Some(t) => t,
            None => {
                return Err(GdsError::InvalidDataType(db));
            },
        };
        Ok(GdsRecordHeader { rtype: record_type, dtype: data_type, len })
    }

    /// Reads the content of a record whose header `header` has just been read.
    fn read_record_content(&mut self, header: &GdsRecordHeader) -> (r: Result<GdsRecord, GdsError>)
        ensures
            final(self).data() == old(self).data(),
            match read_content(old(self).data(), *header, old(self).position()) {
                RecordRead::Got(rec, p) => r matches Ok(x) && x@ == rec && final(self).position() == p,
                RecordRead::Failed(e, p) => r matches Err(x) && x@ == e && final(self).position() == p,
            },
    {
        let len = header.len;
        let ok = match shape_of(header.rtype) {
            Some((dt, fixed)) => dt == header.dtype && match fixed {
                Some(l) => l == len,
                None => true,
            },
            None => false,
        };
        if !ok {
            return Err(GdsError::RecordDecode(header.rtype, header.dtype, len));
        }
        if !self.has(len as u64) {
            self.pos = self.data.len() as u64;
            return Err(GdsError::Boxed(GdsIoError::UnexpectedEof));
        }
        let p = self.pos as usize;
        let n = len as usize;
        let ghost pay = self.data@.subrange(p as int, p + n);
        let rec = match header.dtype {
            GdsDataType::I16 => build_i16(header.rtype, decode_i16s(&self.data, p, n), Ghost(pay)),
            GdsDataType::I32 => build_i32(header.rtype, decode_i32s(&self.data, p, n), Ghost(pay)),
            GdsDataType::F64 => build_f64(header.rtype, decode_u64s(&self.data, p, n), Ghost(pay)),
            GdsDataType::Str => match decode_str(&self.data, p, n) {
                Ok(s) => build_str(header.rtype, s, Ghost(pay)),
                Err(e) => {
                    self.pos = self.pos + len as u64;
                    return Err(e);
                },
            },
            _ => {
                if n == 2 {
                    build_small(header.rtype, self.data[p], self.data[p + 1], Ghost(pay))
                } else {
                    build_small(header.rtype, 0, 0, Ghost(pay))
                }
            },
        };
        self.pos = self.pos + len as u64;
        Ok(rec)
    }

    /// Reads the next record: its header, then its content.
    pub(crate) fn read_record(&mut self) -> (r: Result<GdsRecord, GdsError>)
        ensures
            final(self).data() == old(self).data(),
            match read_record_at(old(self).data(), old(self).position()) {
                RecordRead::Got(rec, p) => r matches Ok(x) && x@ == rec && final(self).position() == p,
                RecordRead::Failed(e, p) => r matches Err(x) && x@ == e && final(self).position() == p,
            },
    {
        match self.read_record_header() {
            Ok(header) => self.read_record_content(&header),
            Err(e) => Err(e),
        }
    }

    /// Reads `len` bytes of text: one trailing NUL byte is dropped and the rest must be
    /// valid UTF-8.
    pub(crate) fn read_str(&mut self, len: u16) -> (r: Result<String, GdsError>)
        ensures
            final(self).data() == old(self).data(),
            match read_text_at(old(self).data(), old(self).position(), len) {
                TextRead::Got(s, p) => r matches Ok(x) && x@ == s && final(self).position() == p,
                TextRead::Failed(e, p) => r matches Err(x) && x@ == e && final(self).position() == p,
            },
    {
        if !self.has(len as u64) {
            self.pos = self.data.len() as u64;
            return Err(GdsError::Boxed(GdsIoError::UnexpectedEof));
        }
        let p = self.pos as usize;
        let r = decode_str(&self.data, p, len as usize);
        self.pos = self.pos + len as u64;
        r
    }

    /// Moves the position `n` bytes forward; a position past the end is allowed, one
    /// past the largest `u64` is not.
    pub(crate) fn seek_forward(&mut self, n: u64) -> (r: Result<(), GdsError>)
        ensures
            final(self).data() == old(self).data(),
            old(self).position() + n <= u64::MAX ==> r is Ok && final(self).position()
                == old(self).position() + n,
            old(self).position() + n > u64::MAX ==> (r matches Err(e) && e@ == ErrorView::Boxed(
                GdsIoError::InvalidSeek,
            )) && final(self).position() == old(self).position(),
    {
        match self.pos.checked_add(n) {
            Some(p) => {
                self.pos = p;
                Ok(())
            },
            None => Err(GdsError::Boxed(GdsIoError::InvalidSeek)),
        }
    }

    /// The number of bytes being read.
    pub(crate) fn len(&self) -> (r: usize)
        ensures
            r == self.data().len(),
    {
        self.data.len()
    }

    /// The current file position.
    pub(crate) fn pos(&self) -> (r: u64)
        ensures
            r == self.position(),
    {
        self.pos
    }
}

} // verus!
