use substrate::gds::parse::GdsParser;
use substrate::gds::read::GdsReader;
use substrate::gds::scan::GdsScanner;
use substrate::gds::{
    GdsContext, GdsDataType, GdsDateTime, GdsElement, GdsError, GdsIoError, GdsLibrary, GdsRecord,
    GdsRecordType,
};

fn parse(bytes: Vec<u8>) -> Result<GdsLibrary, GdsError> {
    GdsParser::from_bytes(bytes)?.parse_lib()
}

fn rec(rtype: u8, dtype: u8, payload: &[u8]) -> Vec<u8> {
    let len = (payload.len() + 4) as u16;
    let mut v = vec![(len >> 8) as u8, (len & 0xff) as u8, rtype, dtype];
    v.extend_from_slice(payload);
    v
}

fn i16s(vals: &[i16]) -> Vec<u8> {
    vals.iter().flat_map(|v| v.to_be_bytes()).collect()
}

fn i32s(vals: &[i32]) -> Vec<u8> {
    vals.iter().flat_map(|v| v.to_be_bytes()).collect()
}

const DATES: [i16; 12] = [2023, 5, 17, 13, 45, 30, 2024, 2, 29, 0, 0, 59];

fn header() -> Vec<u8> {
    let mut v = rec(0, 2, &i16s(&[600]));
    v.extend(rec(1, 2, &i16s(&DATES)));
    v.extend(rec(2, 6, b"mylib\0"));
    let mut units = 0x3e41_8937_4bc6_a7f0u64.to_be_bytes().to_vec();
    units.extend(0x3944_b82f_a09b_5a54u64.to_be_bytes());
    v.extend(rec(3, 5, &units));
    v
}

fn boundary_struct(name: &[u8]) -> Vec<u8> {
    let mut v = rec(5, 2, &i16s(&DATES));
    v.extend(rec(6, 6, name));
    v.extend(rec(8, 0, &[]));
    v.extend(rec(13, 2, &i16s(&[66])));
    v.extend(rec(14, 2, &i16s(&[20])));
    v.extend(rec(16, 3, &i32s(&[0, 0, 10, 0, 10, 10, 0, 10, 0, 0])));
    v.extend(rec(17, 0, &[]));
    v.extend(rec(7, 0, &[]));
    v
}

fn library() -> Vec<u8> {
    let mut v = header();
    v.extend(boundary_struct(b"top\0"));
    v.extend(rec(4, 0, &[]));
    v
}

#[test]
fn parses_a_library_with_one_boundary() {
    let mut p = GdsParser::from_bytes(library()).unwrap();
    let lib = p.parse_lib().unwrap();
    assert_eq!(lib.name, "mylib");
    assert_eq!(lib.version, 600);
    assert_eq!(
        lib.dates.modified,
        GdsDateTime { year: 2023, month: 5, day: 17, hour: 13, minute: 45, second: 30 }
    );
    assert_eq!(lib.dates.accessed.day, 29);
    assert_eq!(lib.units.0, 0x3e41_8937_4bc6_a7f0);
    assert_eq!(lib.structs.len(), 1);
    let s = &lib.structs[0];
    assert_eq!(s.name, "top");
    assert_eq!(s.elems.len(), 1);
    match &s.elems[0] {
        GdsElement::GdsBoundary(b) => {
            assert_eq!(b.layer, 66);
            assert_eq!(b.datatype, 20);
            assert_eq!(b.xy.len(), 5);
            assert_eq!((b.xy[2].x, b.xy[2].y), (10, 10));
            assert!(b.properties.is_empty());
        }
        _ => panic!("expected a boundary"),
    }
}

#[test]
fn from_bytes_agrees_with_new() {
    let a = GdsParser::from_bytes(library()).unwrap().parse_lib().unwrap();
    let b = GdsParser::new(GdsReader::from_bytes(library())).unwrap().parse_lib().unwrap();
    assert_eq!(a.structs[0].name, "top");
    assert_eq!(b.structs[0].name, "top");
    assert_eq!(a.name, b.name);
    match (GdsParser::from_bytes(vec![0, 2, 0, 2]), GdsParser::new(GdsReader::from_bytes(vec![0, 2, 0, 2]))) {
        (Err(GdsError::RecordLen(2)), Err(GdsError::RecordLen(2))) => {}
        (x, y) => panic!("unexpected {:?} {:?}", x.err(), y.err()),
    }
}

#[test]
fn text_box_path_and_references() {
    let mut v = header();
    v.extend(rec(5, 2, &i16s(&DATES)));
    v.extend(rec(6, 6, b"cell"));
    // Text with a transformation and a property.
    v.extend(rec(12, 0, &[]));
    v.extend(rec(13, 2, &i16s(&[67])));
    v.extend(rec(22, 2, &i16s(&[5])));
    v.extend(rec(26, 1, &[0x80, 0x06]));
    v.extend(rec(27, 5, &2u64.to_be_bytes()));
    v.extend(rec(28, 5, &3u64.to_be_bytes()));
    v.extend(rec(16, 3, &i32s(&[7, -8])));
    v.extend(rec(25, 6, b"vdd\0"));
    v.extend(rec(43, 2, &i16s(&[1])));
    v.extend(rec(44, 6, b"notes\0"));
    v.extend(rec(17, 0, &[]));
    // Box.
    v.extend(rec(45, 0, &[]));
    v.extend(rec(13, 2, &i16s(&[1])));
    v.extend(rec(46, 2, &i16s(&[0])));
    v.extend(rec(16, 3, &i32s(&[0, 0, 1, 0, 1, 1, 0, 1, 0, 0])));
    v.extend(rec(17, 0, &[]));
    // Path.
    v.extend(rec(9, 0, &[]));
    v.extend(rec(13, 2, &i16s(&[2])));
    v.extend(rec(14, 2, &i16s(&[0])));
    v.extend(rec(15, 3, &i32s(&[40])));
    v.extend(rec(16, 3, &i32s(&[0, 0, 100, 0])));
    v.extend(rec(17, 0, &[]));
    // Struct reference.
    v.extend(rec(10, 0, &[]));
    v.extend(rec(18, 6, b"sub\0"));
    v.extend(rec(16, 3, &i32s(&[5, 5])));
    v.extend(rec(17, 0, &[]));
    // Array reference.
    v.extend(rec(11, 0, &[]));
    v.extend(rec(18, 6, b"sub\0"));
    v.extend(rec(19, 2, &i16s(&[2, 3])));
    v.extend(rec(16, 3, &i32s(&[0, 0, 20, 0, 0, 30])));
    v.extend(rec(17, 0, &[]));
    v.extend(rec(7, 0, &[]));
    v.extend(rec(4, 0, &[]));
    let lib = parse(v).unwrap();
    let elems = &lib.structs[0].elems;
    assert_eq!(elems.len(), 5);
    match &elems[0] {
        GdsElement::GdsTextElem(t) => {
            assert_eq!(t.string, "vdd");
            assert_eq!((t.xy.x, t.xy.y), (7, -8));
            let s = t.strans.unwrap();
            assert!(s.reflected && s.abs_mag && s.abs_angle);
            assert_eq!((s.mag, s.angle), (Some(2), Some(3)));
            assert_eq!(t.properties.len(), 1);
            assert_eq!(t.properties[0].attr, 1);
            assert_eq!(t.properties[0].value, "notes");
        }
        _ => panic!("expected a text"),
    }
    match &elems[1] {
        GdsElement::GdsBox(b) => assert_eq!((b.xy[1].x, b.xy[1].y), (1, 0)),
        _ => panic!("expected a box"),
    }
    match &elems[2] {
        GdsElement::GdsPath(p) => {
            assert_eq!(p.width, Some(40));
            assert_eq!(p.xy.len(), 2);
        }
        _ => panic!("expected a path"),
    }
    match &elems[3] {
        GdsElement::GdsStructRef(r) => assert_eq!(r.name, "sub"),
        _ => panic!("expected a struct reference"),
    }
    match &elems[4] {
        GdsElement::GdsArrayRef(a) => {
            assert_eq!((a.cols, a.rows), (2, 3));
            assert_eq!(a.xy[2].y, 30);
        }
        _ => panic!("expected an array reference"),
    }
}

#[test]
fn missing_header_is_a_parse_error() {
    let mut v = rec(1, 2, &i16s(&DATES));
    v.extend(rec(4, 0, &[]));
    let err = parse(v).unwrap_err();
    match err {
        GdsError::Parse { msg, recordnum, ctx, .. } => {
            assert_eq!(msg, "Invalid library: missing GDS HEADER record");
            assert_eq!(recordnum, 2);
            assert_eq!(ctx, vec![GdsContext::Library]);
        }
        e => panic!("unexpected {e:?}"),
    }
}

#[test]
fn invalid_dates_are_reported() {
    let mut v = rec(0, 2, &i16s(&[600]));
    let mut bad = DATES;
    bad[1] = 13;
    v.extend(rec(1, 2, &i16s(&bad)));
    v.extend(rec(4, 0, &[]));
    match parse(v).unwrap_err() {
        GdsError::Parse { msg, .. } => assert_eq!(msg, "Invalid modified time"),
        e => panic!("unexpected {e:?}"),
    }
    let mut v = rec(0, 2, &i16s(&[600]));
    let mut bad = DATES;
    bad[8] = 30; // 30 February
    v.extend(rec(1, 2, &i16s(&bad)));
    v.extend(rec(4, 0, &[]));
    match parse(v).unwrap_err() {
        GdsError::Parse { msg, .. } => assert_eq!(msg, "Invalid accessed time"),
        e => panic!("unexpected {e:?}"),
    }
    // Hour 24 is no time of day.
    let mut v = rec(0, 2, &i16s(&[600]));
    let mut bad = DATES;
    bad[3] = 24;
    v.extend(rec(1, 2, &i16s(&bad)));
    v.extend(rec(4, 0, &[]));
    match parse(v).unwrap_err() {
        GdsError::Parse { msg, .. } => assert_eq!(msg, "Invalid modified time"),
        e => panic!("unexpected {e:?}"),
    }
    // 1900 is no leap year, so 29 February 1900 is no date.
    let mut v = rec(0, 2, &i16s(&[600]));
    let mut bad = DATES;
    bad[6] = 1900;
    v.extend(rec(1, 2, &i16s(&bad)));
    v.extend(rec(4, 0, &[]));
    match parse(v).unwrap_err() {
        GdsError::Parse { msg, .. } => assert_eq!(msg, "Invalid accessed time"),
        e => panic!("unexpected {e:?}"),
    }
}

#[test]
fn missing_units_is_an_uninitialized_field() {
    let mut v = rec(0, 2, &i16s(&[600]));
    v.extend(rec(1, 2, &i16s(&DATES)));
    v.extend(rec(2, 6, b"lib\0"));
    v.extend(rec(4, 0, &[]));
    match parse(v).unwrap_err() {
        GdsError::UninitializedField(f) => assert_eq!(f, "units"),
        e => panic!("unexpected {e:?}"),
    }
}

#[test]
fn unsupported_and_invalid_records() {
    let mut v = header();
    v.extend(rec(54, 2, &i16s(&[1])));
    v.extend(rec(4, 0, &[]));
    match parse(v).unwrap_err() {
        GdsError::Unsupported(Some(GdsRecord::Format(1)), Some(GdsContext::Library)) => {}
        e => panic!("unexpected {e:?}"),
    }
    let mut v = header();
    v.extend(rec(13, 2, &i16s(&[1])));
    v.extend(rec(4, 0, &[]));
    match parse(v).unwrap_err() {
        GdsError::Parse { msg, record, .. } => {
            assert_eq!(msg, "Invalid GDS Record");
            assert!(matches!(record, GdsRecord::Layer(1)));
        }
        e => panic!("unexpected {e:?}"),
    }
}

#[test]
fn box_needs_five_points() {
    let mut v = header();
    v.extend(rec(5, 2, &i16s(&DATES)));
    v.extend(rec(6, 6, b"c\0"));
    v.extend(rec(45, 0, &[]));
    v.extend(rec(16, 3, &i32s(&[0, 0, 1, 1])));
    v.extend(rec(17, 0, &[]));
    match parse(v).unwrap_err() {
        GdsError::Parse { msg, ctx, .. } => {
            assert_eq!(msg, "Invalid XY for GdsBox");
            assert_eq!(ctx, vec![GdsContext::Library, GdsContext::Struct, GdsContext::Box]);
        }
        e => panic!("unexpected {e:?}"),
    }
}

#[test]
fn odd_coordinates_and_missing_fields() {
    let mut v = header();
    v.extend(rec(5, 2, &i16s(&DATES)));
    v.extend(rec(6, 6, b"c\0"));
    v.extend(rec(8, 0, &[]));
    v.extend(rec(16, 3, &i32s(&[0, 0, 1])));
    v.extend(rec(17, 0, &[]));
    match parse(v).unwrap_err() {
        GdsError::Str(m) => assert_eq!(m, "GdsPoint coordinate vector: Invalid number of elements"),
        e => panic!("unexpected {e:?}"),
    }
    let mut v = header();
    v.extend(rec(5, 2, &i16s(&DATES)));
    v.extend(rec(6, 6, b"c\0"));
    v.extend(rec(8, 0, &[]));
    v.extend(rec(13, 2, &i16s(&[1])));
    v.extend(rec(17, 0, &[]));
    v.extend(rec(7, 0, &[]));
    match parse(v).unwrap_err() {
        GdsError::UninitializedField(f) => assert_eq!(f, "datatype"),
        e => panic!("unexpected {e:?}"),
    }
}

#[test]
fn record_level_errors() {
    // A length below four.
    match GdsParser::from_bytes(vec![0, 2, 0, 2]) {
        Err(GdsError::RecordLen(2)) => {}
        r => panic!("unexpected {:?}", r.err()),
    }
    // An odd length.
    match GdsParser::from_bytes(vec![0, 5, 0, 2, 0]) {
        Err(GdsError::RecordLen(5)) => {}
        r => panic!("unexpected {:?}", r.err()),
    }
    // An invalid record type.
    match GdsParser::from_bytes(rec(20, 0, &[])) {
        Err(GdsError::InvalidRecordType(20)) => {}
        r => panic!("unexpected {:?}", r.err()),
    }
    // An unknown data type.
    match GdsParser::from_bytes(rec(0, 9, &[])) {
        Err(GdsError::InvalidDataType(9)) => {}
        r => panic!("unexpected {:?}", r.err()),
    }
    // A header whose content has the wrong length.
    match GdsParser::from_bytes(rec(0, 2, &i16s(&[1, 2]))) {
        Err(GdsError::RecordDecode(GdsRecordType::Header, _, 4)) => {}
        r => panic!("unexpected {:?}", r.err()),
    }
    // Truncated input.
    match GdsParser::from_bytes(vec![0, 6, 0, 2, 1]) {
        Err(GdsError::Boxed(GdsIoError::UnexpectedEof)) => {}
        r => panic!("unexpected {:?}", r.err()),
    }
    // Invalid UTF-8 text.
    match GdsParser::from_bytes(rec(2, 6, &[0xff, 0xfe])) {
        Err(GdsError::Boxed(GdsIoError::InvalidUtf8)) => {}
        r => panic!("unexpected {:?}", r.err()),
    }
}

#[test]
fn empty_string_records_hold_empty_text() {
    // A LibName record with no content, the bytes 00 04 02 06, then EndLib.
    let recs = GdsParser::stream_records(vec![0, 4, 2, 6, 0, 4, 4, 0]).unwrap();
    assert_eq!(recs.len(), 1);
    match &recs[0] {
        (2, GdsRecord::LibName(n)) => assert!(n.is_empty()),
        _ => panic!("expected an empty library name"),
    }
    let mut v = header();
    v.extend(rec(5, 2, &i16s(&DATES)));
    v.extend(rec(6, 6, &[]));
    v.extend(rec(7, 0, &[]));
    v.extend(rec(4, 0, &[]));
    let lib = parse(v.clone()).unwrap();
    assert_eq!(lib.structs.len(), 1);
    assert_eq!(lib.structs[0].name, "");
    let scans = GdsScanner::scan(v).unwrap();
    assert_eq!(scans.len(), 1);
    assert_eq!(scans[0].name, "");
    let mut v = rec(0, 2, &i16s(&[600]));
    v.extend(rec(1, 2, &i16s(&DATES)));
    v.extend(rec(2, 6, &[]));
    v.extend(rec(3, 5, &[0; 16]));
    v.extend(rec(4, 0, &[]));
    assert_eq!(parse(v).unwrap().name, "");
}

#[test]
fn end_lib_repeats_forever() {
    let mut v = rec(4, 0, &[]);
    v.extend(rec(0, 2, &i16s(&[3])));
    match parse(v).unwrap_err() {
        GdsError::Parse { msg, recordnum, .. } => {
            assert_eq!(msg, "Invalid library: missing GDS HEADER record");
            assert_eq!(recordnum, 1);
        }
        e => panic!("unexpected {e:?}"),
    }
}

#[test]
fn scanner_finds_structs_and_their_ranges() {
    let mut v = header();
    let first = v.len() as u64;
    let s1 = boundary_struct(b"a\0");
    v.extend(s1.clone());
    let second = v.len() as u64;
    v.extend(boundary_struct(b"bb"));
    v.extend(rec(4, 0, &[]));
    let scans = GdsScanner::scan(v).unwrap();
    assert_eq!(scans.len(), 2);
    assert_eq!(scans[0].name, "a");
    assert_eq!(scans[0].start, first);
    // The end is the position just after the EndStruct record.
    assert_eq!(scans[0].end, first + s1.len() as u64);
    assert_eq!(scans[1].name, "bb");
    assert_eq!(scans[1].start, second);
}

#[test]
fn scanner_reports_stray_records() {
    let mut v = header();
    let stray = v.len() + 4;
    v.extend(rec(13, 2, &i16s(&[1])));
    v.extend(rec(4, 0, &[]));
    match GdsScanner::scan(v.clone()) {
        Err(GdsError::Str(m)) => {
            assert_eq!(m, format!("Scanned Invalid Record Layer at Byte Position {}", stray));
        }
        r => panic!("unexpected {:?}", r.err()),
    }
}

#[test]
fn scanner_instance_methods() {
    let rdr = GdsReader::from_bytes(library());
    let mut sc = GdsScanner::new(rdr).unwrap();
    let found = sc.scan_lib().unwrap();
    assert_eq!(found.len(), 1);
    assert_eq!(found[0].name, "top");
}

#[test]
fn record_type_codes_roundtrip() {
    let mut known = 0;
    for b in 0..=255u8 {
        if let Some(t) = GdsRecordType::from_u8(b) {
            assert_eq!(t.to_u8(), b);
            known += 1;
        }
    }
    assert_eq!(known, 60);
    assert_eq!(GdsRecordType::from_u8(0x00).map(|t| t.to_u8()), Some(0x00));
    assert_eq!(GdsDataType::from_u8(0x06), Some(GdsDataType::Str));
    assert_eq!(GdsDataType::from_u8(0x07), None);
}

#[test]
fn scanner_next_steps_and_then_holds_at_end() {
    // A header record with no content, then EndLib, then bytes that are never read.
    let mut v = rec(0, 0, &[]);
    v.extend(rec(4, 0, &[]));
    v.extend(rec(1, 2, &i16s(&DATES)));
    let rdr = GdsReader::from_bytes(v);
    let mut sc = GdsScanner::new(rdr).unwrap();
    assert_eq!(sc.peek().rtype, GdsRecordType::Header);
    let h = sc.next().unwrap();
    assert_eq!(h.rtype, GdsRecordType::Header);
    assert_eq!(sc.peek().rtype, GdsRecordType::EndLib);
    for _ in 0..3 {
        let h = sc.next().unwrap();
        assert_eq!(h.rtype, GdsRecordType::EndLib);
        assert_eq!(sc.peek().rtype, GdsRecordType::EndLib);
    }
}
