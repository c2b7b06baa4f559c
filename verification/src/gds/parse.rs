//! Parsing a GDSII stream into a library tree.
use super::read::{
    lemma_read_record_progress, read_record_at, step_is, GdsReader, RecordRead, Step,
};
use super::{
    elem_base, points_of, point_count_msg, props_view, ElemKind, ElemView, ErrorView, GdsArrayRef,
    GdsBoundary, GdsBox, GdsContext, GdsDateTime, GdsDateTimes, GdsElemFlags, GdsElement, GdsError,
    GdsLibrary, GdsNode, GdsPath, GdsPlex, GdsPoint, GdsPresentation, GdsProperty, GdsRecord,
    GdsStrans, GdsStruct, GdsStructRef, GdsTextElem, GdsUnits, LibraryView, PropertyView,
    RecordView, StructView,
};
use chrono::{NaiveDate, NaiveTime};
use vstd::prelude::*;

verus! {

// ---------------------------------------------------------------------------
// Dates
// ---------------------------------------------------------------------------

/// The earliest year a calendar date may have.
pub open spec fn min_year() -> int {
    -262143
}

/// The latest year a calendar date may have.
pub open spec fn max_year() -> int {
    262142
}

/// Whether `y` is a leap year of the proleptic Gregorian calendar.
pub open spec fn is_leap_year(y: int) -> bool {
    (y % 4 == 0 && y % 100 != 0) || y % 400 == 0
}

/// The number of days in month `m` (1 to 12) of year `y`.
pub open spec fn days_in_month(y: int, m: int) -> int {
    if m == 2 {
        if is_leap_year(y) {
            29
        } else {
            28
        }
    } else if m == 4 || m == 6 || m == 9 || m == 11 {
        30
    } else {
        31
    }
}

/// Whether year `y`, month `m` and day `d` name a day of the proleptic Gregorian
/// calendar within the supported range of years.
pub open spec fn valid_date(y: i32, m: u32, d: u32) -> bool {
    &&& min_year() <= y <= max_year()
    &&& 1 <= m <= 12
    &&& 1 <= d <= days_in_month(y as int, m as int)
}

/// Whether `h`, `m` and `s` name a time of day (without leap seconds).
pub open spec fn valid_time(h: u32, m: u32, s: u32) -> bool {
    h < 24 && m < 60 && s < 60
}

/// `chrono::NaiveDate::from_ymd_opt`: whether it makes a date, which it does exactly
/// for a day of the proleptic Gregorian calendar in years -262143 to 262142.
#[verifier::external_body]
fn ymd_is_date(y: i32, m: u32, d: u32) -> (r: bool)
    ensures
        r == valid_date(y, m, d),
{
    NaiveDate::from_ymd_opt(y, m, d).is_some()
}

/// `chrono::NaiveTime::from_hms_opt`: whether it makes a time, which it does exactly
/// for hours below 24 and minutes and seconds below 60.
#[verifier::external_body]
fn hms_is_time(h: u32, m: u32, s: u32) -> (r: bool)
    ensures
        r == valid_time(h, m, s),
{
    NaiveTime::from_hms_opt(h, m, s).is_some()
}

/// The date and time of six GDSII 16-bit fields (year, month, day, hour, minute,
/// second), each widened as a 32-bit value, if they name one.
pub open spec fn datetime_of(y: i16, mo: i16, d: i16, h: i16, mi: i16, s: i16) -> Option<
    GdsDateTime,
> {
    if valid_date(y as i32, mo as u32, d as u32) && valid_time(h as u32, mi as u32, s as u32) {
        Some(
            GdsDateTime {
                year: y as i32,
                month: mo as u32,
                day: d as u32,
                hour: h as u32,
                minute: mi as u32,
                second: s as u32,
            },
        )
    } else {
        None
    }
}

/// Computes [`datetime_of`].
fn date_time(y: i16, mo: i16, d: i16, h: i16, mi: i16, s: i16) -> (r: Option<GdsDateTime>)
    ensures
        r == datetime_of(y, mo, d, h, mi, s),
{
    if ymd_is_date(y as i32, mo as u32, d as u32) && hms_is_time(h as u32, mi as u32, s as u32) {
        Some(
            GdsDateTime {
                year: y as i32,
                month: mo as u32,
                day: d as u32,
                hour: h as u32,
                minute: mi as u32,
                second: s as u32,
            },
        )
    } else {
        None
    }
}

// ---------------------------------------------------------------------------
// Parser state and single steps
// ---------------------------------------------------------------------------

/// Where a parser stands: its byte position, the record it has read ahead, the number
/// of records read and its stack of contexts.
pub struct ParseState {
    pub pos: u64,
    pub nxt: RecordView,
    pub numread: usize,
    pub ctx: Seq<GdsContext>,
}

/// The parser's bookkeeping is consistent: each record read took at least four bytes,
/// and the position lies within the data.
pub open spec fn parse_wf(data: Seq<u8>, s: ParseState) -> bool {
    4 * s.numread <= s.pos <= data.len()
}

/// Advances by one record: the record read ahead is returned and the following one is
/// read. Once the read-ahead record is `EndLib`, it is returned forever.
pub open spec fn parse_next(data: Seq<u8>, s: ParseState) -> Step<RecordView, ParseState> {
    if s.nxt is EndLib {
        Step::Done(RecordView::EndLib, s)
    } else {
        match read_record_at(data, s.pos) {
            RecordRead::Got(r, p) => Step::Done(
                s.nxt,
                ParseState { pos: p, nxt: r, numread: (s.numread + 1) as usize, ctx: s.ctx },
            ),
            RecordRead::Failed(e, p) => Step::Fail(e, ParseState { pos: p, ..s }),
        }
    }
}

/// Once the read-ahead record is `EndLib`, advancing returns it again without reading;
/// otherwise a successful advance returns the read-ahead record, reads the next one at
/// the position and counts it.
pub proof fn law_parse_next(data: Seq<u8>, s: ParseState)
    requires
        data.len() <= usize::MAX,
        parse_wf(data, s),
    ensures
        s.nxt is EndLib ==> parse_next(data, s) == Step::<RecordView, ParseState>::Done(
            RecordView::EndLib,
            s,
        ),
        !(s.nxt is EndLib) ==> (parse_next(data, s) matches Step::Done(r, s1) ==> r == s.nxt
            && read_record_at(data, s.pos) == RecordRead::Got(s1.nxt, s1.pos) && s1.numread
            == s.numread + 1 && s1.ctx == s.ctx),
{
}

/// The state with context `c` pushed.
pub open spec fn push_ctx(s: ParseState, c: GdsContext) -> ParseState {
    ParseState { ctx: s.ctx.push(c), ..s }
}

/// The state with its innermost context, if any, popped.
pub open spec fn pop_ctx(s: ParseState) -> ParseState {
    ParseState { ctx: if s.ctx.len() > 0 { s.ctx.drop_last() } else { s.ctx }, ..s }
}

/// The parse error with message `msg` at state `s`: it names the read-ahead record.
pub open spec fn parse_err(s: ParseState, msg: Seq<char>) -> ErrorView {
    ErrorView::Parse { msg, record: s.nxt, recordnum: s.numread, bytepos: s.pos, ctx: s.ctx }
}

/// The parse error for record `r`, which does not fit where it appears.
pub open spec fn parse_invalid(s: ParseState, r: RecordView) -> ErrorView {
    ErrorView::Parse {
        msg: "Invalid GDS Record"@,
        record: r,
        recordnum: s.numread,
        bytepos: s.pos,
        ctx: s.ctx,
    }
}

/// A step of reading moves forward, by at least a header unless it returns `EndLib`,
/// and keeps the bookkeeping consistent, also when it fails.
pub proof fn lemma_parse_next(data: Seq<u8>, s: ParseState)
    requires
        data.len() <= u64::MAX,
        parse_wf(data, s),
    ensures
        parse_next(data, s) matches Step::Done(r, s1) ==> parse_wf(data, s1) && s.pos <= s1.pos
            && (!(r is EndLib) ==> s.pos + 4 <= s1.pos) && s1.ctx == s.ctx,
        parse_next(data, s) matches Step::Fail(e, s1) ==> parse_wf(data, s1) && s1.ctx == s.ctx,
{
    lemma_read_record_progress(data, s.pos);
}

/// The dates of a library or struct, from its twelve 16-bit fields.
pub open spec fn parse_datetimes(s: ParseState, d: Seq<i16>) -> Result<GdsDateTimes, ErrorView> {
    if d.len() != 12 {
        Err(parse_err(s, "Invalid length GdsDateTimes"@))
    } else {
        match datetime_of(d[0], d[1], d[2], d[3], d[4], d[5]) {
            None => Err(parse_err(s, "Invalid modified time"@)),
            Some(m) => match datetime_of(d[6], d[7], d[8], d[9], d[10], d[11]) {
                None => Err(parse_err(s, "Invalid accessed time"@)),
                Some(a) => Ok(GdsDateTimes { modified: m, accessed: a }),
            },
        }
    }
}

/// Parses a property whose `PropAttr` record, with attribute `attr`, has been read: the
/// next record must be its `PropValue`.
pub open spec fn parse_property(data: Seq<u8>, s: ParseState, attr: i16) -> Step<
    PropertyView,
    ParseState,
> {
    parse_next(data, push_ctx(s, GdsContext::Property)).and_then(
        |r: RecordView, s1: ParseState|
            match r {
                RecordView::PropValue(v) => Step::Done(PropertyView { attr, value: v }, pop_ctx(s1)),
                _ => Step::Fail(parse_err(s1, "Gds Property without PropValue"@), s1),
            },
    )
}

/// Parsing a property moves forward and keeps the bookkeeping consistent.
pub proof fn lemma_parse_property(data: Seq<u8>, s: ParseState, attr: i16)
    requires
        data.len() <= u64::MAX,
        parse_wf(data, s),
    ensures
        parse_property(data, s, attr) matches Step::Done(p, s1) ==> parse_wf(data, s1) && s.pos
            <= s1.pos && s1.ctx == s.ctx,
        parse_property(data, s, attr) matches Step::Fail(e, s1) ==> parse_wf(data, s1),
{
    lemma_parse_next(data, push_ctx(s, GdsContext::Property));
}

/// The flags of a transformation, from its two flag bytes.
pub open spec fn strans_flags(d0: u8, d1: u8) -> GdsStrans {
    GdsStrans {
        reflected: d0 & 0x80u8 != 0u8,
        abs_mag: d1 & 0x04u8 != 0u8,
        abs_angle: d1 & 0x02u8 != 0u8,
        mag: None,
        angle: None,
    }
}

/// The flags of a transformation stand at their GDSII bit positions: reflection is the
/// top bit of the first byte, absolute magnification the bit of value 4 and absolute
/// angle the bit of value 2 of the second byte; no magnification or angle is set yet.
pub proof fn law_strans_flag_bits(d0: u8, d1: u8)
    ensures
        strans_flags(d0, d1).reflected == (d0 >= 128),
        strans_flags(d0, d1).abs_mag == ((d1 / 4) % 2 == 1),
        strans_flags(d0, d1).abs_angle == ((d1 / 2) % 2 == 1),
        strans_flags(d0, d1).mag is None,
        strans_flags(d0, d1).angle is None,
{
    assert((d0 & 0x80u8 != 0u8) == (d0 >= 128)) by (bit_vector);
    assert((d1 & 0x04u8 != 0u8) == ((d1 / 4) % 2 == 1)) by (bit_vector);
    assert((d1 & 0x02u8 != 0u8) == ((d1 / 2) % 2 == 1)) by (bit_vector);
}

/// Reads the optional `Mag` and `Angle` records that follow a `Strans` record; a later
/// one of either overrides an earlier one.
pub open spec fn parse_strans(data: Seq<u8>, s: ParseState, t: GdsStrans) -> Step<
    GdsStrans,
    ParseState,
>
    decreases data.len() - s.pos,
    when data.len() <= u64::MAX && s.pos <= data.len()
{
    match s.nxt {
        RecordView::Mag(d) => match parse_next(data, s) {
            Step::Done(r, s1) => {
                proof {
                    lemma_read_record_progress(data, s.pos);
                }
                parse_strans(data, s1, GdsStrans { mag: Some(d), ..t })
            },
            Step::Fail(e, s1) => Step::Fail(e, s1),
        },
        RecordView::Angle(d) => match parse_next(data, s) {
            Step::Done(r, s1) => {
                proof {
                    lemma_read_record_progress(data, s.pos);
                }
                parse_strans(data, s1, GdsStrans { angle: Some(d), ..t })
            },
            Step::Fail(e, s1) => Step::Fail(e, s1),
        },
        _ => Step::Done(t, s),
    }
}

/// Reading the `Mag` and `Angle` records that follow a `Strans` record keeps the three
/// flags of the transformation.
pub proof fn law_parse_strans_keeps_flags(data: Seq<u8>, s: ParseState, t: GdsStrans)
    requires
        data.len() <= u64::MAX,
        parse_wf(data, s),
    ensures
        parse_strans(data, s, t) matches Step::Done(v, s1) ==> v.reflected == t.reflected
            && v.abs_mag == t.abs_mag && v.abs_angle == t.abs_angle,
    decreases data.len() - s.pos,
{
    lemma_parse_next(data, s);
    match s.nxt {
        RecordView::Mag(d) => {
            if let Step::Done(r, s1) = parse_next(data, s) {
                law_parse_strans_keeps_flags(data, s1, GdsStrans { mag: Some(d), ..t });
            }
        },
        RecordView::Angle(d) => {
            if let Step::Done(r, s1) = parse_next(data, s) {
                law_parse_strans_keeps_flags(data, s1, GdsStrans { angle: Some(d), ..t });
            }
        },
        _ => {},
    }
}

/// Reading a transformation never moves backwards and keeps the bookkeeping consistent.
pub proof fn lemma_parse_strans(data: Seq<u8>, s: ParseState, t: GdsStrans)
    requires
        data.len() <= u64::MAX,
        parse_wf(data, s),
    ensures
        parse_strans(data, s, t) matches Step::Done(v, s1) ==> parse_wf(data, s1) && s.pos
            <= s1.pos && s1.ctx == s.ctx,
        parse_strans(data, s, t) matches Step::Fail(e, s1) ==> parse_wf(data, s1),
    decreases data.len() - s.pos,
{
    lemma_parse_next(data, s);
    match s.nxt {
        RecordView::Mag(d) => {
            if let Step::Done(r, s1) = parse_next(data, s) {
                lemma_parse_strans(data, s1, GdsStrans { mag: Some(d), ..t });
            }
        },
        RecordView::Angle(d) => {
            if let Step::Done(r, s1) = parse_next(data, s) {
                lemma_parse_strans(data, s1, GdsStrans { angle: Some(d), ..t });
            }
        },
        _ => {},
    }
}

// ---------------------------------------------------------------------------
// Elements
// ---------------------------------------------------------------------------

/// The context pushed while an element of kind `k` is parsed.
pub open spec fn elem_ctx(k: ElemKind) -> GdsContext {
    match k {
        ElemKind::Boundary => GdsContext::Boundary,
        ElemKind::Path => GdsContext::Path,
        ElemKind::Text => GdsContext::Text,
        ElemKind::Node => GdsContext::Node,
        ElemKind::Box => GdsContext::Box,
        ElemKind::StructRef => GdsContext::StructRef,
        ElemKind::ArrayRef => GdsContext::ArrayRef,
    }
}

/// The state in which the records of an element of kind `k` are parsed: every kind
/// but a boundary pushes its context.
pub open spec fn elem_start(k: ElemKind, s: ParseState) -> ParseState {
    if k == ElemKind::Boundary {
        s
    } else {
        push_ctx(s, elem_ctx(k))
    }
}

/// Whether record `r` may appear inside an element of kind `k`.
pub open spec fn elem_accepts(k: ElemKind, r: RecordView) -> bool {
    match r {
        RecordView::Xy(_) | RecordView::Plex(_) | RecordView::ElemFlags(_, _)
        | RecordView::PropAttr(_) => true,
        RecordView::Layer(_) => k != ElemKind::StructRef && k != ElemKind::ArrayRef,
        RecordView::DataType(_) => k == ElemKind::Boundary || k == ElemKind::Path,
        RecordView::Width(_) | RecordView::PathType(_) => k == ElemKind::Path || k == ElemKind::Text,
        RecordView::BeginExtn(_) | RecordView::EndExtn(_) => k == ElemKind::Path,
        RecordView::TextType(_) | RecordView::String(_) | RecordView::Presentation(_, _) => k
            == ElemKind::Text,
        RecordView::Strans(_, _) => k == ElemKind::Text || k == ElemKind::StructRef || k
            == ElemKind::ArrayRef,
        RecordView::Nodetype(_) => k == ElemKind::Node,
        RecordView::BoxType(_) => k == ElemKind::Box,
        RecordView::StructRefName(_) => k == ElemKind::StructRef || k == ElemKind::ArrayRef,
        RecordView::ColRow { .. } => k == ElemKind::ArrayRef,
        _ => false,
    }
}

/// Whether element fields `v` hold only fields that an element of kind `k` has.
pub open spec fn fields_of_kind(k: ElemKind, v: ElemView) -> bool {
    &&& v.layer is Some ==> k != ElemKind::StructRef && k != ElemKind::ArrayRef
    &&& v.datatype is Some ==> k == ElemKind::Boundary || k == ElemKind::Path
    &&& (v.width is Some || v.path_type is Some) ==> k == ElemKind::Path || k == ElemKind::Text
    &&& (v.begin_extn is Some || v.end_extn is Some) ==> k == ElemKind::Path
    &&& (v.texttype is Some || v.string is Some || v.presentation is Some) ==> k == ElemKind::Text
    &&& v.strans is Some ==> k == ElemKind::Text || k == ElemKind::StructRef || k
        == ElemKind::ArrayRef
    &&& v.nodetype is Some ==> k == ElemKind::Node
    &&& v.boxtype is Some ==> k == ElemKind::Box
    &&& v.name is Some ==> k == ElemKind::StructRef || k == ElemKind::ArrayRef
    &&& (v.cols is Some || v.rows is Some) ==> k == ElemKind::ArrayRef
}

/// The element fields after a record that sets one of them.
pub open spec fn elem_set(b: ElemView, r: RecordView) -> ElemView {
    match r {
        RecordView::Layer(d) => ElemView { layer: Some(d), ..b },
        RecordView::DataType(d) => ElemView { datatype: Some(d), ..b },
        RecordView::Width(d) => ElemView { width: Some(d), ..b },
        RecordView::PathType(d) => ElemView { path_type: Some(d), ..b },
        RecordView::BeginExtn(d) => ElemView { begin_extn: Some(d), ..b },
        RecordView::EndExtn(d) => ElemView { end_extn: Some(d), ..b },
        RecordView::Plex(d) => ElemView { plex: Some(GdsPlex(d)), ..b },
        RecordView::ElemFlags(a, c) => ElemView { elflags: Some(GdsElemFlags(a, c)), ..b },
        RecordView::TextType(d) => ElemView { texttype: Some(d), ..b },
        RecordView::String(t) => ElemView { string: Some(t), ..b },
        RecordView::Presentation(a, c) => ElemView {
            presentation: Some(GdsPresentation(a, c)),
            ..b
        },
        RecordView::Nodetype(d) => ElemView { nodetype: Some(d), ..b },
        RecordView::BoxType(d) => ElemView { boxtype: Some(d), ..b },
        RecordView::StructRefName(t) => ElemView { name: Some(t), ..b },
        RecordView::ColRow { cols, rows } => ElemView { cols: Some(cols), rows: Some(rows), ..b },
        _ => b,
    }
}

/// The points of an `Xy` record with coordinates `v` inside an element of kind `k`:
/// texts and struct references take exactly one point, boxes five and array
/// references three.
pub open spec fn elem_xy(k: ElemKind, v: Seq<i32>, s: ParseState) -> Result<
    Seq<GdsPoint>,
    ErrorView,
> {
    if k == ElemKind::Text || k == ElemKind::StructRef {
        if v.len() == 2 {
            Ok(seq![GdsPoint { x: v[0], y: v[1] }])
        } else {
            Err(ErrorView::Str(point_count_msg()))
        }
    } else if v.len() % 2 != 0 {
        Err(ErrorView::Str(point_count_msg()))
    } else if k == ElemKind::Box && points_of(v).len() != 5 {
        Err(parse_err(s, "Invalid XY for GdsBox"@))
    } else if k == ElemKind::ArrayRef && points_of(v).len() != 3 {
        Err(parse_err(s, "Invalid XY for GdsArrayRef"@))
    } else {
        Ok(points_of(v))
    }
}

/// The first required field of an element of kind `k` that was never set, in the
/// order the fields are declared.
pub open spec fn elem_missing(k: ElemKind, b: ElemView, xy: Option<Seq<GdsPoint>>) -> Option<
    Seq<char>,
> {
    match k {
        ElemKind::Boundary | ElemKind::Path => if b.layer is None {
            Some("layer"@)
        } else if b.datatype is None {
            Some("datatype"@)
        } else if xy is None {
            Some("xy"@)
        } else {
            None
        },
        ElemKind::Text => if b.string is None {
            Some("string"@)
        } else if b.layer is None {
            Some("layer"@)
        } else if b.texttype is None {
            Some("texttype"@)
        } else if xy is None {
            Some("xy"@)
        } else {
            None
        },
        ElemKind::Node => if b.layer is None {
            Some("layer"@)
        } else if b.nodetype is None {
            Some("nodetype"@)
        } else if xy is None {
            Some("xy"@)
        } else {
            None
        },
        ElemKind::Box => if b.layer is None {
            Some("layer"@)
        } else if b.boxtype is None {
            Some("boxtype"@)
        } else if xy is None {
            Some("xy"@)
        } else {
            None
        },
        ElemKind::StructRef => if b.name is None {
            Some("name"@)
        } else if xy is None {
            Some("xy"@)
        } else {
            None
        },
        ElemKind::ArrayRef => if b.name is None {
            Some("name"@)
        } else if xy is None {
            Some("xy"@)
        } else if b.cols is None {
            Some("cols"@)
        } else if b.rows is None {
            Some("rows"@)
        } else {
            None
        },
    }
}

/// Parses the records of an element of kind `k` up to its `EndElement`, with fields
/// `b` and points `xy` collected so far.
pub open spec fn elem_loop(
    data: Seq<u8>,
    k: ElemKind,
    s: ParseState,
    b: ElemView,
    xy: Option<Seq<GdsPoint>>,
) -> Step<ElemView, ParseState>
    decreases data.len() - s.pos,
    when data.len() <= u64::MAX && parse_wf(data, s)
{
    match parse_next(data, s) {
        Step::Done(r, s1) => {
            if r is EndElement {
                match elem_missing(k, b, xy) {
                    Some(f) => Step::Fail(ErrorView::UninitializedField(f), s1),
                    None => Step::Done(ElemView { xy: xy->0, ..b }, pop_ctx(s1)),
                }
            } else if !elem_accepts(k, r) {
                Step::Fail(parse_invalid(s1, r), s1)
            } else {
                proof {
                    lemma_parse_next(data, s);
                }
                match r {
                    RecordView::PropAttr(a) => match parse_property(data, s1, a) {
                        Step::Done(p, s2) => {
                            proof {
                                lemma_parse_property(data, s1, a);
                            }
                            elem_loop(
                                data,
                                k,
                                s2,
                                ElemView { properties: b.properties.push(p), ..b },
                                xy,
                            )
                        },
                        Step::Fail(e, s2) => Step::Fail(e, s2),
                    },
                    RecordView::Strans(d0, d1) => match parse_strans(
                        data,
                        s1,
                        strans_flags(d0, d1),
                    ) {
                        Step::Done(t, s2) => {
                            proof {
                                lemma_parse_strans(data, s1, strans_flags(d0, d1));
                            }
                            elem_loop(data, k, s2, ElemView { strans: Some(t), ..b }, xy)
                        },
                        Step::Fail(e, s2) => Step::Fail(e, s2),
                    },
                    RecordView::Xy(v) => match elem_xy(k, v, s1) {
                        Ok(pts) => elem_loop(data, k, s1, b, Some(pts)),
                        Err(e) => Step::Fail(e, s1),
                    },
                    _ => elem_loop(data, k, s1, elem_set(b, r), xy),
                }
            }
        },
        Step::Fail(e, s1) => Step::Fail(e, s1),
    }
}

/// Parsing the records of an element never moves backwards, keeps the bookkeeping
/// consistent and, on success, pops one context.
pub proof fn lemma_elem_loop(
    data: Seq<u8>,
    k: ElemKind,
    s: ParseState,
    b: ElemView,
    xy: Option<Seq<GdsPoint>>,
)
    requires
        data.len() <= u64::MAX,
        parse_wf(data, s),
    ensures
        elem_loop(data, k, s, b, xy) matches Step::Done(v, s1) ==> parse_wf(data, s1) && s.pos
            <= s1.pos && s1.ctx == pop_ctx(s).ctx,
        elem_loop(data, k, s, b, xy) matches Step::Fail(e, s1) ==> parse_wf(data, s1),
    decreases data.len() - s.pos,
{
    lemma_parse_next(data, s);
    if let Step::Done(r, s1) = parse_next(data, s) {
        if !(r is EndElement) && elem_accepts(k, r) {
            match r {
                RecordView::PropAttr(a) => {
                    lemma_parse_property(data, s1, a);
                    if let Step::Done(p, s2) = parse_property(data, s1, a) {
                        lemma_elem_loop(
                            data,
                            k,
                            s2,
                            ElemView { properties: b.properties.push(p), ..b },
                            xy,
                        );
                    }
                },
                RecordView::Strans(d0, d1) => {
                    lemma_parse_strans(data, s1, strans_flags(d0, d1));
                    if let Step::Done(t, s2) = parse_strans(data, s1, strans_flags(d0, d1)) {
                        lemma_elem_loop(data, k, s2, ElemView { strans: Some(t), ..b }, xy);
                    }
                },
                RecordView::Xy(v) => {
                    if let Ok(pts) = elem_xy(k, v, s1) {
                        lemma_elem_loop(data, k, s1, b, Some(pts));
                    }
                },
                _ => {
                    lemma_elem_loop(data, k, s1, elem_set(b, r), xy);
                },
            }
        }
    }
}

/// Parses an element of kind `k` whose opening record has been read.
pub open spec fn parse_elem(data: Seq<u8>, k: ElemKind, s: ParseState) -> Step<
    ElemView,
    ParseState,
> {
    elem_loop(data, k, elem_start(k, s), elem_base(k, seq![], seq![]), None)
}

/// The kind of element that record `r` opens, if any.
pub open spec fn elem_kind_of(r: RecordView) -> Option<ElemKind> {
    match r {
        RecordView::Boundary => Some(ElemKind::Boundary),
        RecordView::Text => Some(ElemKind::Text),
        RecordView::Path => Some(ElemKind::Path),
        RecordView::Box => Some(ElemKind::Box),
        RecordView::StructRef => Some(ElemKind::StructRef),
        RecordView::ArrayRef => Some(ElemKind::ArrayRef),
        RecordView::Node => Some(ElemKind::Node),
        _ => None,
    }
}

// ---------------------------------------------------------------------------
// Structs and libraries
// ---------------------------------------------------------------------------

/// Parses the elements of a struct named `name` up to its `EndStruct`.
pub open spec fn struct_loop(
    data: Seq<u8>,
    s: ParseState,
    name: Seq<char>,
    dates: GdsDateTimes,
    elems: Seq<ElemView>,
) -> Step<StructView, ParseState>
    decreases data.len() - s.pos,
    when data.len() <= u64::MAX && parse_wf(data, s)
{
    match parse_next(data, s) {
        Step::Done(r, s1) => {
            if r is EndStruct {
                Step::Done(StructView { name, dates, elems }, pop_ctx(s1))
            } else {
                match elem_kind_of(r) {
                    Some(k) => {
                        proof {
                            lemma_parse_next(data, s);
                            lemma_elem_loop(
                                data,
                                k,
                                elem_start(k, s1),
                                elem_base(k, seq![], seq![]),
                                None,
                            );
                        }
                        match parse_elem(data, k, s1) {
                            Step::Done(e, s2) => struct_loop(data, s2, name, dates, elems.push(e)),
                            Step::Fail(e, s2) => Step::Fail(e, s2),
                        }
                    },
                    None => Step::Fail(parse_invalid(s1, r), s1),
                }
            }
        },
        Step::Fail(e, s1) => Step::Fail(e, s1),
    }
}

/// Parsing the elements of a struct never moves backwards and keeps the bookkeeping
/// consistent.
pub proof fn lemma_struct_loop(
    data: Seq<u8>,
    s: ParseState,
    name: Seq<char>,
    dates: GdsDateTimes,
    elems: Seq<ElemView>,
)
    requires
        data.len() <= u64::MAX,
        parse_wf(data, s),
    ensures
        struct_loop(data, s, name, dates, elems) matches Step::Done(v, s1) ==> parse_wf(data, s1)
            && s.pos <= s1.pos,
        struct_loop(data, s, name, dates, elems) matches Step::Fail(e, s1) ==> parse_wf(data, s1),
    decreases data.len() - s.pos,
{
    lemma_parse_next(data, s);
    if let Step::Done(r, s1) = parse_next(data, s) {
        if !(r is EndStruct) {
            if let Some(k) = elem_kind_of(r) {
                lemma_elem_loop(data, k, elem_start(k, s1), elem_base(k, seq![], seq![]), None);
                if let Step::Done(e, s2) = parse_elem(data, k, s1) {
                    lemma_struct_loop(data, s2, name, dates, elems.push(e));
                }
            }
        }
    }
}

/// Parses a struct whose `BgnStruct` record, with dates `dates`, has been read.
pub open spec fn parse_struct(data: Seq<u8>, s: ParseState, dates: Seq<i16>) -> Step<
    StructView,
    ParseState,
> {
    let s0 = push_ctx(s, GdsContext::Struct);
    match parse_datetimes(s0, dates) {
        Err(e) => Step::Fail(e, s0),
        Ok(dt) => parse_next(data, s0).and_then(
            |r: RecordView, s1: ParseState|
                match r {
                    RecordView::StructName(n) => struct_loop(data, s1, n, dt, seq![]),
                    _ => Step::Fail(parse_err(s1, "Missing Gds StructName"@), s1),
                },
        ),
    }
}

/// Parsing a struct never moves backwards and keeps the bookkeeping consistent.
pub proof fn lemma_parse_struct(data: Seq<u8>, s: ParseState, dates: Seq<i16>)
    requires
        data.len() <= u64::MAX,
        parse_wf(data, s),
    ensures
        parse_struct(data, s, dates) matches Step::Done(v, s1) ==> parse_wf(data, s1) && s.pos
            <= s1.pos,
        parse_struct(data, s, dates) matches Step::Fail(e, s1) ==> parse_wf(data, s1),
{
    let s0 = push_ctx(s, GdsContext::Struct);
    lemma_parse_next(data, s0);
    if let Step::Done(r, s1) = parse_next(data, s0) {
        if let RecordView::StructName(n) = r {
            if let Ok(dt) = parse_datetimes(s0, dates) {
                lemma_struct_loop(data, s1, n, dt, seq![]);
            }
        }
    }
}

/// What a library has collected before its `EndLib`: the name and units, where seen.
pub struct LibFields {
    pub version: i16,
    pub dates: GdsDateTimes,
    pub name: Option<Seq<char>>,
    pub units: Option<GdsUnits>,
}

/// Whether `r` is a record that is valid in a library but not supported.
pub open spec fn lib_unsupported(r: RecordView) -> bool {
    match r {
        RecordView::LibDirSize(_) | RecordView::SrfName(_) | RecordView::LibSecur(_)
        | RecordView::RefLibs(_) | RecordView::Fonts(_) | RecordView::AttrTable(_)
        | RecordView::Generations(_) | RecordView::Format(_) => true,
        _ => false,
    }
}

/// Parses the records of a library after its `BgnLib`, up to `EndLib`.
pub open spec fn lib_loop(data: Seq<u8>, s: ParseState, f: LibFields, structs: Seq<StructView>) -> Step<
    LibraryView,
    ParseState,
>
    decreases data.len() - s.pos,
    when data.len() <= u64::MAX && parse_wf(data, s)
{
    match parse_next(data, s) {
        Step::Done(r, s1) => match r {
            RecordView::EndLib => match f.name {
                None => Step::Fail(ErrorView::UninitializedField("name"@), s1),
                Some(n) => match f.units {
                    None => Step::Fail(ErrorView::UninitializedField("units"@), s1),
                    Some(u) => Step::Done(
                        LibraryView { name: n, version: f.version, dates: f.dates, units: u, structs },
                        s1,
                    ),
                },
            },
            RecordView::LibName(n) => {
                proof {
                    lemma_parse_next(data, s);
                }
                lib_loop(data, s1, LibFields { name: Some(n), ..f }, structs)
            },
            RecordView::Units(a, c) => {
                proof {
                    lemma_parse_next(data, s);
                }
                lib_loop(data, s1, LibFields { units: Some(GdsUnits(a, c)), ..f }, structs)
            },
            RecordView::BgnStruct { dates } => {
                proof {
                    lemma_parse_next(data, s);
                    lemma_parse_struct(data, s1, dates);
                }
                match parse_struct(data, s1, dates) {
                    Step::Done(st, s2) => lib_loop(data, s2, f, structs.push(st)),
                    Step::Fail(e, s2) => Step::Fail(e, s2),
                }
            },
            _ => if lib_unsupported(r) {
                Step::Fail(ErrorView::Unsupported(Some(r), Some(GdsContext::Library)), s1)
            } else {
                Step::Fail(parse_invalid(s1, r), s1)
            },
        },
        Step::Fail(e, s1) => Step::Fail(e, s1),
    }
}

/// Parses a library: its `Header` and `BgnLib` records, then the rest up to `EndLib`.
pub open spec fn parse_lib(data: Seq<u8>, s: ParseState) -> Step<LibraryView, ParseState> {
    parse_next(data, push_ctx(s, GdsContext::Library)).and_then(
        |r: RecordView, s1: ParseState|
            match r {
                RecordView::Header { version } => parse_next(data, s1).and_then(
                    |r2: RecordView, s2: ParseState|
                        match r2 {
                            RecordView::BgnLib { dates } => match parse_datetimes(s2, dates) {
                                Err(e) => Step::Fail(e, s2),
                                Ok(dt) => lib_loop(
                                    data,
                                    s2,
                                    LibFields { version, dates: dt, name: None, units: None },
                                    seq![],
                                ),
                            },
                            _ => Step::Fail(
                                parse_err(s2, "Invalid library: missing GDS BGNLIB record"@),
                                s2,
                            ),
                        },
                ),
                _ => Step::Fail(parse_err(s1, "Invalid library: missing GDS HEADER record"@), s1),
            },
    )
}

/// The state of a parser that has read its first record from `data` at position `pos`,
/// or the error of that read.
pub open spec fn parse_start(data: Seq<u8>, pos: u64) -> Step<(), ParseState> {
    match read_record_at(data, pos) {
        RecordRead::Got(r, p) => Step::Done(
            (),
            ParseState { pos: p, nxt: r, numread: 1, ctx: seq![] },
        ),
        RecordRead::Failed(e, p) => Step::Fail(
            e,
            ParseState { pos: p, nxt: RecordView::EndLib, numread: 0, ctx: seq![] },
        ),
    }
}


/// A parser made by [`GdsParser::from_bytes`] starts as one made by [`GdsParser::new`]
/// from a reader of the same bytes at their start: the two follow the same first read, so
/// both fail with the same error or both hold the same record, with one record read and
/// no context.
pub proof fn law_from_bytes_agrees_with_new(bytes: Seq<u8>, rdr: GdsReader)
    requires
        rdr.data() == bytes,
        rdr.position() == 0,
    ensures
        parse_start(rdr.data(), rdr.position()) == parse_start(bytes, 0),
        parse_start(bytes, 0) matches Step::Done(u, s) ==> s.numread == 1 && s.ctx == Seq::<
            GdsContext,
        >::empty(),
{
}

/// The records of the stream from state `s` up to `EndLib`, each with the number of
/// records read once it was returned.
pub open spec fn records_from(data: Seq<u8>, s: ParseState) -> Step<Seq<(usize, RecordView)>, ParseState>
    decreases data.len() - s.pos,
    when data.len() <= u64::MAX && parse_wf(data, s)
{
    match parse_next(data, s) {
        Step::Done(r, s1) => if r is EndLib {
            Step::Done(seq![], s1)
        } else {
            proof {
                lemma_parse_next(data, s);
            }
            match records_from(data, s1) {
                Step::Done(rest, s2) => Step::Done(seq![(s1.numread, r)] + rest, s2),
                Step::Fail(e, s2) => Step::Fail(e, s2),
            }
        },
        Step::Fail(e, s1) => Step::Fail(e, s1),
    }
}

/// The records of a whole stream, up to `EndLib`, each with its number.
pub open spec fn stream_records(data: Seq<u8>) -> Step<Seq<(usize, RecordView)>, ParseState> {
    parse_start(data, 0).and_then(|u: (), s: ParseState| records_from(data, s))
}

// ---------------------------------------------------------------------------
// The parser
// ---------------------------------------------------------------------------

/// Copies a context stack.
fn copy_ctx(v: &Vec<GdsContext>) -> (r: Vec<GdsContext>)
    ensures
        r@ == v@,
{
    let mut r: Vec<GdsContext> = Vec::new();
    let mut i: usize = 0;
    while i < v.len()
        invariant
            i <= v@.len(),
            r@ == v@.take(i as int),
        decreases v@.len() - i,
    {
        r.push(v[i]);
        i = i + 1;
        assert(r@ =~= v@.take(i as int));
    }
    assert(r@ =~= v@);
    r
}

/// The fields of an element being parsed.
struct ElemBuilder {
    layer: Option<i16>,
    datatype: Option<i16>,
    width: Option<i32>,
    path_type: Option<i16>,
    begin_extn: Option<i32>,
    end_extn: Option<i32>,
    plex: Option<GdsPlex>,
    elflags: Option<GdsElemFlags>,
    texttype: Option<i16>,
    string: Option<String>,
    presentation: Option<GdsPresentation>,
    strans: Option<GdsStrans>,
    nodetype: Option<i16>,
    boxtype: Option<i16>,
    name: Option<String>,
    cols: Option<i16>,
    rows: Option<i16>,
    xy: Option<Vec<GdsPoint>>,
    properties: Vec<GdsProperty>,
}

/// The text of an optional string.
pub open spec fn opt_text(o: Option<String>) -> Option<Seq<char>> {
    match o {
        Some(s) => Some(s@),
        None => None,
    }
}

impl ElemBuilder {
    /// The fields collected so far, as an element of kind `k` with no points.
    spec fn fields(&self, k: ElemKind) -> ElemView {
        ElemView {
            kind: k,
            layer: self.layer,
            datatype: self.datatype,
            xy: seq![],
            width: self.width,
            path_type: self.path_type,
            begin_extn: self.begin_extn,
            end_extn: self.end_extn,
            plex: self.plex,
            elflags: self.elflags,
            texttype: self.texttype,
            string: opt_text(self.string),
            presentation: self.presentation,
            strans: self.strans,
            nodetype: self.nodetype,
            boxtype: self.boxtype,
            name: opt_text(self.name),
            cols: self.cols,
            rows: self.rows,
            properties: props_view(self.properties@),
        }
    }

    /// The points collected so far.
    spec fn points(&self) -> Option<Seq<GdsPoint>> {
        match self.xy {
            Some(v) => Some(v@),
            None => None,
        }
    }

    /// The points, where set, have the number that kind `k` takes.
    spec fn points_fit(&self, k: ElemKind) -> bool {
        self.xy matches Some(v) ==> ((k == ElemKind::Text || k == ElemKind::StructRef) ==> v@.len()
            == 1) && (k == ElemKind::Box ==> v@.len() == 5) && (k == ElemKind::ArrayRef
            ==> v@.len() == 3)
    }

    fn new() -> (r: ElemBuilder)
        ensures
            forall|k: ElemKind| #[trigger] r.fields(k) == elem_base(k, seq![], seq![]),
            r.points() is None,
    {
        let r = ElemBuilder {
            layer: None,
            datatype: None,
            width: None,
            path_type: None,
            begin_extn: None,
            end_extn: None,
            plex: None,
            elflags: None,
            texttype: None,
            string: None,
            presentation: None,
            strans: None,
            nodetype: None,
            boxtype: None,
            name: None,
            cols: None,
            rows: None,
            xy: None,
            properties: Vec::new(),
        };
        assert forall|k: ElemKind| #[trigger] r.fields(k) == elem_base(k, seq![], seq![]) by {
            assert(props_view(r.properties@) =~= Seq::<PropertyView>::empty());
        }
        r
    }

    /// Sets the field that record `r` carries.
    fn set(&mut self, r: GdsRecord, Ghost(k): Ghost<ElemKind>)
        ensures
            final(self).fields(k) == elem_set(old(self).fields(k), r@),
            final(self).xy == old(self).xy,
    {
        match r {
            GdsRecord::Layer(d) => self.layer = Some(d),
            GdsRecord::DataType(d) => self.datatype = Some(d),
            GdsRecord::Width(d) => self.width = Some(d),
            GdsRecord::PathType(d) => self.path_type = Some(d),
            GdsRecord::BeginExtn(d) => self.begin_extn = Some(d),
            GdsRecord::EndExtn(d) => self.end_extn = Some(d),
            GdsRecord::Plex(d) => self.plex = Some(GdsPlex(d)),
            GdsRecord::ElemFlags(a, c) => self.elflags = Some(GdsElemFlags(a, c)),
            GdsRecord::TextType(d) => self.texttype = Some(d),
            GdsRecord::String(t) => self.string = Some(t),
            GdsRecord::Presentation(a, c) => self.presentation = Some(GdsPresentation(a, c)),
            GdsRecord::Nodetype(d) => self.nodetype = Some(d),
            GdsRecord::BoxType(d) => self.boxtype = Some(d),
            GdsRecord::StructRefName(t) => self.name = Some(t),
            GdsRecord::ColRow { cols, rows } => {
                self.cols = Some(cols);
                self.rows = Some(rows);
            },
            _ => {},
        }
    }

    /// Builds the element of kind `k`, or names the first required field never set.
    fn build(self, k: ElemKind) -> (r: Result<GdsElement, GdsError>)
        requires
            self.points_fit(k),
            fields_of_kind(k, self.fields(k)),
        ensures
            match elem_missing(k, self.fields(k), self.points()) {
                Some(f) => r matches Err(e) && e@ == ErrorView::UninitializedField(f),
                None => r matches Ok(e) && e@ == (ElemView {
                    xy: self.points()->0,
                    ..self.fields(k)
                }),
            },
    {
        proof {
            reveal_strlit("layer");
            reveal_strlit("datatype");
            reveal_strlit("xy");
            reveal_strlit("string");
            reveal_strlit("texttype");
            reveal_strlit("nodetype");
            reveal_strlit("boxtype");
            reveal_strlit("name");
            reveal_strlit("cols");
            reveal_strlit("rows");
        }
        let missing = |f: &str| -> (e: GdsError)
            ensures
                e@ == ErrorView::UninitializedField(f@),
            { GdsError::UninitializedField(String::from_str(f)) };
        match k {
            ElemKind::Boundary | ElemKind::Path | ElemKind::Node | ElemKind::Box => {
                let layer = match self.layer {
                    Some(v) => v,
                    None => {
                        return Err(missing("layer"));
                    },
                };
                let second = match k {
                    ElemKind::Node => self.nodetype,
                    ElemKind::Box => self.boxtype,
                    _ => self.datatype,
                };
                let second = match second {
                    Some(v) => v,
                    None => {
                        return Err(
                            missing(
                                match k {
                                    ElemKind::Node => "nodetype",
                                    ElemKind::Box => "boxtype",
                                    _ => "datatype",
                                },
                            ),
                        );
                    },
                };
                let xy = match self.xy {
                    Some(v) => v,
                    None => {
                        return Err(missing("xy"));
                    },
                };
                let properties = self.properties;
                match k {
                    ElemKind::Boundary => Ok(
                        GdsElement::GdsBoundary(
                            GdsBoundary {
                                layer,
                                datatype: second,
                                xy,
                                elflags: self.elflags,
                                plex: self.plex,
                                properties,
                            },
                        ),
                    ),
                    ElemKind::Path => Ok(
                        GdsElement::GdsPath(
                            GdsPath {
                                layer,
                                datatype: second,
                                xy,
                                width: self.width,
                                path_type: self.path_type,
                                begin_extn: self.begin_extn,
                                end_extn: self.end_extn,
                                elflags: self.elflags,
                                plex: self.plex,
                                properties,
                            },
                        ),
                    ),
                    ElemKind::Node => Ok(
                        GdsElement::GdsNode(
                            GdsNode {
                                layer,
                                nodetype: second,
                                xy,
                                elflags: self.elflags,
                                plex: self.plex,
                                properties,
                            },
                        ),
                    ),
                    _ => {
                        let pts = [xy[0], xy[1], xy[2], xy[3], xy[4]];
                        assert(pts@ =~= xy@);
                        Ok(
                            GdsElement::GdsBox(
                                GdsBox {
                                    layer,
                                    boxtype: second,
                                    xy: pts,
                                    elflags: self.elflags,
                                    plex: self.plex,
                                    properties,
                                },
                            ),
                        )
                    },
                }
            },
            ElemKind::Text => {
                let string = match self.string {
                    Some(v) => v,
                    None => {
                        return Err(missing("string"));
                    },
                };
                let layer = match self.layer {
                    Some(v) => v,
                    None => {
                        return Err(missing("layer"));
                    },
                };
                let texttype = match self.texttype {
                    Some(v) => v,
                    None => {
                        return Err(missing("texttype"));
                    },
                };
                let xy = match self.xy {
                    Some(v) => v,
                    None => {
                        return Err(missing("xy"));
                    },
                };
                assert(seq![xy@[0]] =~= xy@);
                Ok(
                    GdsElement::GdsTextElem(
                        GdsTextElem {
                            string,
                            layer,
                            texttype,
                            xy: xy[0],
                            presentation: self.presentation,
                            path_type: self.path_type,
                            width: self.width,
                            strans: self.strans,
                            elflags: self.elflags,
                            plex: self.plex,
                            properties: self.properties,
                        },
                    ),
                )
            },
            ElemKind::StructRef => {
                let name = match self.name {
                    Some(v) => v,
                    None => {
                        return Err(missing("name"));
                    },
                };
                let xy = match self.xy {
                    Some(v) => v,
                    None => {
                        return Err(missing("xy"));
                    },
                };
                assert(seq![xy@[0]] =~= xy@);
                Ok(
                    GdsElement::GdsStructRef(
                        GdsStructRef {
                            name,
                            xy: xy[0],
                            strans: self.strans,
                            elflags: self.elflags,
                            plex: self.plex,
                            properties: self.properties,
                        },
                    ),
                )
            },
            ElemKind::ArrayRef => {
                let name = match self.name {
                    Some(v) => v,
                    None => {
                        return Err(missing("name"));
                    },
                };
                let xy = match self.xy {
                    Some(v) => v,
                    None => {
                        return Err(missing("xy"));
                    },
                };
                let cols = match self.cols {
                    Some(v) => v,
                    None => {
                        return Err(missing("cols"));
                    },
                };
                let rows = match self.rows {
                    Some(v) => v,
                    None => {
                        return Err(missing("rows"));
                    },
                };
                let pts = [xy[0], xy[1], xy[2]];
                assert(pts@ =~= xy@);
                Ok(
                    GdsElement::GdsArrayRef(
                        GdsArrayRef {
                            name,
                            xy: pts,
                            cols,
                            rows,
                            strans: self.strans,
                            elflags: self.elflags,
                            plex: self.plex,
                            properties: self.properties,
                        },
                    ),
                )
            },
        }
    }
}

/// Whether record `r` may appear inside an element of kind `k`.
fn accepts(k: ElemKind, r: &GdsRecord) -> (b: bool)
    ensures
        b == elem_accepts(k, r@),
{
    match r {
        GdsRecord::Xy(_) | GdsRecord::Plex(_) | GdsRecord::ElemFlags(_, _)
        | GdsRecord::PropAttr(_) => true,
        GdsRecord::Layer(_) => k != ElemKind::StructRef && k != ElemKind::ArrayRef,
        GdsRecord::DataType(_) => k == ElemKind::Boundary || k == ElemKind::Path,
        GdsRecord::Width(_) | GdsRecord::PathType(_) => k == ElemKind::Path || k == ElemKind::Text,
        GdsRecord::BeginExtn(_) | GdsRecord::EndExtn(_) => k == ElemKind::Path,
        GdsRecord::TextType(_) | GdsRecord::String(_) | GdsRecord::Presentation(_, _) => k
            == ElemKind::Text,
        GdsRecord::Strans(_, _) => k == ElemKind::Text || k == ElemKind::StructRef || k
            == ElemKind::ArrayRef,
        GdsRecord::Nodetype(_) => k == ElemKind::Node,
        GdsRecord::BoxType(_) => k == ElemKind::Box,
        GdsRecord::StructRefName(_) => k == ElemKind::StructRef || k == ElemKind::ArrayRef,
        GdsRecord::ColRow { .. } => k == ElemKind::ArrayRef,
        _ => false,
    }
}

/// A GDS parser.
///
/// A peekable iterator which loads records one at a time and converts them into a
/// tree of GDS data structures.
pub struct GdsParser {
    /// Reader of the stream.
    rdr: GdsReader,
    /// Next record, stored for peeking.
    nxt: GdsRecord,
    /// Number of records read.
    numread: usize,
    /// Context stack.
    ctx: Vec<GdsContext>,
}

impl GdsParser {
    /// The bytes being parsed.
    pub closed spec fn data(&self) -> Seq<u8> {
        self.rdr.data()
    }

    /// The parser's position, read-ahead record, record count and contexts.
    pub closed spec fn state(&self) -> ParseState {
        ParseState {
            pos: self.rdr.position(),
            nxt: self.nxt@,
            numread: self.numread,
            ctx: self.ctx@,
        }
    }

    /// The parser's bookkeeping is consistent.
    pub closed spec fn wf(&self) -> bool {
        &&& parse_wf(self.data(), self.state())
        &&& self.data().len() <= usize::MAX
    }

    /// Creates a new parser, reading the first record to initialize its look-ahead.
    pub fn new(rdr: GdsReader) -> (r: Result<GdsParser, GdsError>)
        ensures
            match parse_start(rdr.data(), rdr.position()) {
                Step::Done(u, s) => r matches Ok(p) && p.wf() && p.data() == rdr.data()
                    && p.state() == s,
                Step::Fail(e, s) => r matches Err(x) && x@ == e,
            },
    {
        let mut rdr = rdr;
        let ghost d = rdr.data();
        let len = rdr.len();
        proof {
            lemma_read_record_progress(d, rdr.position());
        }
        let nxt = rdr.read_record()?;
        let me = GdsParser { rdr, nxt, numread: 1, ctx: Vec::new() };
        assert(me.state().ctx =~= Seq::<GdsContext>::empty());
        Ok(me)
    }

    /// Creates a new parser for the byte-vector `bytes`.
    pub fn from_bytes(bytes: Vec<u8>) -> (r: Result<GdsParser, GdsError>)
        ensures
            match parse_start(bytes@, 0) {
                Step::Done(u, s) => r matches Ok(p) && p.wf() && p.data() == bytes@ && p.state()
                    == s,
                Step::Fail(e, s) => r matches Err(x) && x@ == e,
            },
    {
        let rdr = GdsReader::from_bytes(bytes);
        Self::new(rdr)
    }

    /// The records of the stream `bytes` up to `EndLib`, each with its number.
    pub fn stream_records(bytes: Vec<u8>) -> (r: Result<Vec<(usize, GdsRecord)>, GdsError>)
        ensures
            match stream_records(bytes@) {
                Step::Done(v, s) => r matches Ok(x) && x@.len() == v.len() && forall|i: int|
                    0 <= i < v.len() ==> (#[trigger] x@[i]).0 == v[i].0 && x@[i].1@ == v[i].1,
                Step::Fail(e, s) => r matches Err(x) && x@ == e,
            },
    {
        let ghost b = bytes@;
        let mut me = match Self::new(GdsReader::from_bytes(bytes)) {
            Ok(p) => p,
            Err(e) => {
                return Err(e);
            },
        };
        let ghost d = me.data();
        let ghost target = records_from(d, me.state());
        assert(stream_records(b) == target);
        let mut out: Vec<(usize, GdsRecord)> = Vec::new();
        loop
            invariant
                me.wf(),
                me.data() == d,
                b == bytes@,
                stream_records(b) == target,
                d.len() <= u64::MAX,
                ({
                    match records_from(d, me.state()) {
                        Step::Done(rest, s) => target matches Step::Done(all, t) && all.len()
                            == out@.len() + rest.len() && t == s && (forall|i: int|
                            0 <= i < out@.len() ==> (#[trigger] out@[i]).0 == all[i].0 && out@[i].1@
                                == all[i].1) && all.skip(out@.len() as int) == rest,
                        Step::Fail(e, s) => target == Step::<Seq<(usize, RecordView)>, ParseState>::Fail(e, s),
                    }
                }),
            decreases d.len() - me.state().pos,
        {
            let ghost s_old = me.state();
            proof {
                lemma_parse_next(d, me.state());
            }
            let r = match me.next() {
                Ok(r) => r,
                Err(e) => {
                    assert(records_from(d, s_old) == Step::<Seq<(usize, RecordView)>, ParseState>::Fail(e@, me.state()));
                    return Err(e);
                },
            };
            if r.is_end_lib() {
                return Ok(out);
            }
            let ghost s_new = me.state();
            let ghost before = out@;
            let n = me.numread;
            proof {
                assert(parse_next(d, s_old) == Step::<RecordView, ParseState>::Done(r@, s_new));
            }
            out.push((n, r));
            proof {
                match records_from(d, s_new) {
                    Step::Done(rest2, s2) => {
                        let rest = seq![(n, r@)] + rest2;
                        assert(records_from(d, s_old) == Step::<Seq<(usize, RecordView)>, ParseState>::Done(rest, s2));
                        let (all, t) = match target {
                            Step::Done(all, t) => (all, t),
                            _ => (seq![], s2),
                        };
                        assert(target matches Step::Done(a, tt));
                        assert(all.skip(before.len() as int) == rest);
                        assert(all[before.len() as int] == all.skip(before.len() as int)[0]);
                        assert forall|i: int| 0 <= i < out@.len() implies (#[trigger] out@[i]).0 == all[i].0
                            && out@[i].1@ == all[i].1 by {
                            if i < before.len() {
                                assert(out@[i] == before[i]);
                            }
                        }
                        assert(all.len() == before.len() + rest.len());
                        assert forall|i: int| 0 <= i < rest2.len() implies #[trigger] all.skip(out@.len() as int)[i]
                            == rest2[i] by {
                            assert(all.skip(before.len() as int)[i + 1] == rest[i + 1]);
                        }
                        assert(all.skip(out@.len() as int) =~= rest2);
                    },
                    Step::Fail(e, s2) => {
                        assert(records_from(d, s_old) == Step::<Seq<(usize, RecordView)>, ParseState>::Fail(e, s2));
                    },
                }
            }
        }
    }

    /// Advances and returns the read-ahead record.
    fn next(&mut self) -> (r: Result<GdsRecord, GdsError>)
        requires
            old(self).wf(),
        ensures
            final(self).wf(),
            final(self).data() == old(self).data(),
            step_is(parse_next(old(self).data(), old(self).state()), r, final(self).state()),
    {
        proof {
            lemma_parse_next(self.data(), self.state());
        }
        if self.nxt.is_end_lib() {
            return Ok(GdsRecord::EndLib);
        }
        let mut rv = self.rdr.read_record()?;
        std::mem::swap(&mut rv, &mut self.nxt);
        self.numread = self.numread + 1;
        Ok(rv)
    }

    /// Peeks at the next record, without advancing.
    fn peek(&self) -> (r: &GdsRecord)
        ensures
            r@ == self.state().nxt,
    {
        &self.nxt
    }

    /// Parses a library. Generally the start-state when reading a GDS stream.
    pub fn parse_lib(&mut self) -> (r: Result<GdsLibrary, GdsError>)
        requires
            old(self).wf(),
        ensures
            final(self).wf(),
            final(self).data() == old(self).data(),
            match parse_lib(old(self).data(), old(self).state()) {
                Step::Done(v, s) => r matches Ok(x) && x@ == v && final(self).state() == s,
                Step::Fail(e, s) => r matches Err(x) && x@ == e && final(self).state() == s,
            },
    {
        self.parse_lib_inner()
    }

    /// Parses a library, following [`parse_lib`].
    #[verifier::rlimit(100)]
    #[verifier::spinoff_prover]
    fn parse_lib_inner(&mut self) -> (r: Result<GdsLibrary, GdsError>)
        requires
            old(self).wf(),
        ensures
            final(self).wf(),
            final(self).data() == old(self).data(),
            step_is(parse_lib(old(self).data(), old(self).state()), r, final(self).state()),
    {
        let ghost d = self.data();
        let ghost target = parse_lib(d, self.state());
        self.ctx.push(GdsContext::Library);
        let version = match self.next()? {
            GdsRecord::Header { version } => version,
            _ => {
                return self.fail("Invalid library: missing GDS HEADER record");
            },
        };
        let dates = match self.next()? {
            GdsRecord::BgnLib { dates } => match self.parse_datetimes(&dates) {
                Ok(dt) => dt,
                Err(e) => {
                    return Err(e);
                },
            },
            _ => {
                return self.fail("Invalid library: missing GDS BGNLIB record");
            },
        };
        let mut name: Option<String> = None;
        let mut units: Option<GdsUnits> = None;
        let mut structs: Vec<GdsStruct> = Vec::new();
        assert(structs@.map_values(|x: GdsStruct| x@) =~= Seq::<StructView>::empty());
        loop
            invariant
                self.wf(),
                self.data() == d,
                d == old(self).data(),
                target == parse_lib(old(self).data(), old(self).state()),
                d.len() <= u64::MAX,
                target == lib_loop(
                    d,
                    self.state(),
                    LibFields { version, dates, name: opt_text(name), units },
                    structs@.map_values(|x: GdsStruct| x@),
                ),
            decreases d.len() - self.state().pos,
        {
            let ghost s = self.state();
            proof {
                lemma_parse_next(d, s);
            }
            let r = match self.next() {
                Ok(r) => r,
                Err(e) => {
                    return Err(e);
                },
            };
            match r {
                GdsRecord::EndLib => {
                    let name = match name {
                        Some(n) => n,
                        None => {
                            proof {
                                reveal_strlit("name");
                            }
                            return Err(GdsError::UninitializedField(String::from_str("name")));
                        },
                    };
                    let units = match units {
                        Some(u) => u,
                        None => {
                            proof {
                                reveal_strlit("units");
                            }
                            return Err(GdsError::UninitializedField(String::from_str("units")));
                        },
                    };
                    return Ok(GdsLibrary { name, version, dates, units, structs });
                },
                GdsRecord::LibName(n) => {
                    name = Some(n);
                },
                GdsRecord::Units(a, c) => {
                    units = Some(GdsUnits(a, c));
                },
                GdsRecord::BgnStruct { dates: sd } => {
                    proof {
                        lemma_parse_struct(d, self.state(), sd@);
                    }
                    let strukt = match self.parse_struct(&sd) {
                        Ok(x) => x,
                        Err(e) => {
                            return Err(e);
                        },
                    };
                    let ghost before = structs@;
                    structs.push(strukt);
                    assert(structs@.map_values(|x: GdsStruct| x@) =~= before.map_values(
                        |x: GdsStruct| x@,
                    ).push(strukt@));
                },
                GdsRecord::LibDirSize(_) | GdsRecord::SrfName(_) | GdsRecord::LibSecur(_)
                | GdsRecord::RefLibs(_) | GdsRecord::Fonts(_) | GdsRecord::AttrTable(_)
                | GdsRecord::Generations(_) | GdsRecord::Format(_) => {
                    return Err(GdsError::Unsupported(Some(r), Some(GdsContext::Library)));
                },
                _ => {
                    return Err(self.invalid(r));
                },
            }
        }
    }

    /// Parses a struct whose `BgnStruct` record, with dates `dates`, has been read.
    #[verifier::rlimit(100)]
    #[verifier::spinoff_prover]
    fn parse_struct(&mut self, dates: &Vec<i16>) -> (r: Result<GdsStruct, GdsError>)
        requires
            old(self).wf(),
        ensures
            final(self).wf(),
            final(self).data() == old(self).data(),
            step_is(parse_struct(old(self).data(), old(self).state(), dates@), r, final(self).state()),
    {
        let ghost d = self.data();
        let ghost target = parse_struct(d, self.state(), dates@);
        self.ctx.push(GdsContext::Struct);
        let dt = match self.parse_datetimes(dates) {
            Ok(dt) => dt,
            Err(e) => {
                return Err(e);
            },
        };
        let name = match self.next()? {
            GdsRecord::StructName(n) => n,
            _ => {
                return self.fail("Missing Gds StructName");
            },
        };
        let mut elems: Vec<GdsElement> = Vec::new();
        assert(elems@.map_values(|x: GdsElement| x@) =~= Seq::<ElemView>::empty());
        loop
            invariant
                self.wf(),
                self.data() == d,
                d == old(self).data(),
                target == parse_struct(old(self).data(), old(self).state(), dates@),
                d.len() <= u64::MAX,
                target == struct_loop(
                    d,
                    self.state(),
                    name@,
                    dt,
                    elems@.map_values(|x: GdsElement| x@),
                ),
            decreases d.len() - self.state().pos,
        {
            let ghost s = self.state();
            proof {
                lemma_parse_next(d, s);
            }
            let r = self.next()?;
            let kind = match r {
                GdsRecord::EndStruct => {
                    self.ctx.pop();
                    return Ok(GdsStruct { name, dates: dt, elems });
                },
                GdsRecord::Boundary => ElemKind::Boundary,
                GdsRecord::Text => ElemKind::Text,
                GdsRecord::Path => ElemKind::Path,
                GdsRecord::Box => ElemKind::Box,
                GdsRecord::StructRef => ElemKind::StructRef,
                GdsRecord::ArrayRef => ElemKind::ArrayRef,
                GdsRecord::Node => ElemKind::Node,
                _ => {
                    return Err(self.invalid(r));
                },
            };
            proof {
                let s1 = self.state();
                lemma_elem_loop(d, kind, elem_start(kind, s1), elem_base(kind, seq![], seq![]), None);
            }
            let e = self.parse_element(kind)?;
            let ghost before = elems@;
            elems.push(e);
            assert(elems@.map_values(|x: GdsElement| x@) =~= before.map_values(|x: GdsElement| x@).push(
                e@,
            ));
        }
    }

    /// Parses an element of kind `kind` whose opening record has been read.
    #[verifier::rlimit(100)]
    #[verifier::spinoff_prover]
    fn parse_element(&mut self, kind: ElemKind) -> (r: Result<GdsElement, GdsError>)
        requires
            old(self).wf(),
        ensures
            final(self).wf(),
            final(self).data() == old(self).data(),
            step_is(parse_elem(old(self).data(), kind, old(self).state()), r, final(self).state()),
    {
        let ghost d = self.data();
        let ghost target = parse_elem(d, kind, self.state());
        if kind != ElemKind::Boundary {
            let c = match kind {
                ElemKind::Path => GdsContext::Path,
                ElemKind::Text => GdsContext::Text,
                ElemKind::Node => GdsContext::Node,
                ElemKind::Box => GdsContext::Box,
                ElemKind::StructRef => GdsContext::StructRef,
                _ => GdsContext::ArrayRef,
            };
            self.ctx.push(c);
        }
        let mut b = ElemBuilder::new();
        loop
            invariant
                self.wf(),
                self.data() == d,
                d == old(self).data(),
                target == parse_elem(old(self).data(), kind, old(self).state()),
                d.len() <= u64::MAX,
                b.points_fit(kind),
                fields_of_kind(kind, b.fields(kind)),
                target == elem_loop(d, kind, self.state(), b.fields(kind), b.points()),
            decreases d.len() - self.state().pos,
        {
            let ghost s = self.state();
            proof {
                lemma_parse_next(d, s);
            }
            let r = self.next()?;
            if let GdsRecord::EndElement = r {
                let e = match b.build(kind) {
                    Ok(e) => e,
                    Err(e) => {
                        return Err(e);
                    },
                };
                self.ctx.pop();
                return Ok(e);
            }
            if !accepts(kind, &r) {
                return Err(self.invalid(r));
            }
            match r {
                GdsRecord::PropAttr(a) => {
                    proof {
                        lemma_parse_property(d, self.state(), a);
                    }
                    let p = self.parse_property(a)?;
                    let ghost before = b.properties@;
                    b.properties.push(p);
                    assert(props_view(b.properties@) =~= props_view(before).push(p@));
                },
                GdsRecord::Strans(d0, d1) => {
                    proof {
                        lemma_parse_strans(d, self.state(), strans_flags(d0, d1));
                    }
                    let t = self.parse_strans(d0, d1)?;
                    b.strans = Some(t);
                },
                GdsRecord::Xy(v) => {
                    let pts = match self.element_xy(kind, &v) {
                        Ok(p) => p,
                        Err(e) => {
                            return Err(e);
                        },
                    };
                    b.xy = Some(pts);
                },
                _ => {
                    b.set(r, Ghost(kind));
                },
            }
        }
    }

    /// The points of an `Xy` record with coordinates `v` in an element of kind `kind`.
    fn element_xy(&self, kind: ElemKind, v: &Vec<i32>) -> (r: Result<Vec<GdsPoint>, GdsError>)
        ensures
            match elem_xy(kind, v@, self.state()) {
                Ok(p) => r matches Ok(x) && x@ == p,
                Err(e) => r matches Err(x) && x@ == e,
            },
    {
        if kind == ElemKind::Text || kind == ElemKind::StructRef {
            let pt = GdsPoint::parse(v)?;
            let mut pts: Vec<GdsPoint> = Vec::new();
            pts.push(pt);
            assert(pts@ =~= seq![GdsPoint { x: v@[0], y: v@[1] }]);
            return Ok(pts);
        }
        let pts = GdsPoint::parse_vec(v.as_slice())?;
        if kind == ElemKind::Box && pts.len() != 5 {
            return Err(self.err("Invalid XY for GdsBox"));
        }
        if kind == ElemKind::ArrayRef && pts.len() != 3 {
            return Err(self.err("Invalid XY for GdsArrayRef"));
        }
        Ok(pts)
    }

    /// Parses a transformation whose flag bytes `d0` and `d1` have been read, and the
    /// `Mag` and `Angle` records that follow it.
    fn parse_strans(&mut self, d0: u8, d1: u8) -> (r: Result<GdsStrans, GdsError>)
        requires
            old(self).wf(),
        ensures
            final(self).wf(),
            final(self).data() == old(self).data(),
            step_is(
                parse_strans(old(self).data(), old(self).state(), strans_flags(d0, d1)),
                r,
                final(self).state(),
            ),
    {
        let ghost d = self.data();
        let ghost target = parse_strans(d, self.state(), strans_flags(d0, d1));
        let mut s = GdsStrans {
            reflected: d0 & 0x80u8 != 0u8,
            abs_mag: d1 & 0x04u8 != 0u8,
            abs_angle: d1 & 0x02u8 != 0u8,
            mag: None,
            angle: None,
        };
        loop
            invariant
                self.wf(),
                self.data() == d,
                d == old(self).data(),
                target == parse_strans(old(self).data(), old(self).state(), strans_flags(d0, d1)),
                d.len() <= u64::MAX,
                target == parse_strans(d, self.state(), s),
            decreases d.len() - self.state().pos,
        {
            proof {
                lemma_read_record_progress(d, self.state().pos);
            }
            match self.peek() {
                GdsRecord::Mag(v) => {
                    s.mag = Some(*v);
                },
                GdsRecord::Angle(v) => {
                    s.angle = Some(*v);
                },
                _ => {
                    return Ok(s);
                },
            }
            self.next()?;
        }
    }

    /// Parses a property whose `PropAttr` record, with attribute `attr`, has been read.
    fn parse_property(&mut self, attr: i16) -> (r: Result<GdsProperty, GdsError>)
        requires
            old(self).wf(),
        ensures
            final(self).wf(),
            final(self).data() == old(self).data(),
            step_is(parse_property(old(self).data(), old(self).state(), attr), r, final(self).state()),
    {
        self.ctx.push(GdsContext::Property);
        match self.next()? {
            GdsRecord::PropValue(value) => {
                self.ctx.pop();
                Ok(GdsProperty { attr, value })
            },
            _ => self.fail("Gds Property without PropValue"),
        }
    }

    /// The dates of a library or struct, from its twelve 16-bit fields.
    fn parse_datetimes(&self, d: &Vec<i16>) -> (r: Result<GdsDateTimes, GdsError>)
        ensures
            match parse_datetimes(self.state(), d@) {
                Ok(v) => r == Ok::<GdsDateTimes, GdsError>(v),
                Err(e) => r matches Err(x) && x@ == e,
            },
    {
        if d.len() != 12 {
            return Err(self.err("Invalid length GdsDateTimes"));
        }
        let modified = match date_time(d[0], d[1], d[2], d[3], d[4], d[5]) {
            Some(t) => t,
            None => {
                return Err(self.err("Invalid modified time"));
            },
        };
        let accessed = match date_time(d[6], d[7], d[8], d[9], d[10], d[11]) {
            Some(t) => t,
            None => {
                return Err(self.err("Invalid accessed time"));
            },
        };
        Ok(GdsDateTimes { modified, accessed })
    }

    /// The error for record `record`, which does not fit where it appears.
    fn invalid(&self, record: GdsRecord) -> (r: GdsError)
        ensures
            r@ == parse_invalid(self.state(), record@),
    {
        GdsError::Parse {
            msg: String::from_str("Invalid GDS Record"),
            record,
            recordnum: self.numread,
            bytepos: self.rdr.pos(),
            ctx: copy_ctx(&self.ctx),
        }
    }

    /// The parse error with message `msg`, naming the read-ahead record.
    fn err(&self, msg: &str) -> (r: GdsError)
        ensures
            r@ == parse_err(self.state(), msg@),
    {
        GdsError::Parse {
            msg: String::from_str(msg),
            record: self.nxt.duplicate(),
            recordnum: self.numread,
            bytepos: self.rdr.pos(),
            ctx: copy_ctx(&self.ctx),
        }
    }

    /// Fails with the parse error with message `msg`.
    fn fail<T>(&self, msg: &str) -> (r: Result<T, GdsError>)
        ensures
            r matches Err(e) && e@ == parse_err(self.state(), msg@),
    {
        Err(self.err(msg))
    }
}

} // verus!
