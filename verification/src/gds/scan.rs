//! First-pass scanning of a GDSII stream for struct names and byte ranges.
use super::read::{
    lemma_read_header_progress, read_header, read_text_at, step_is, GdsReader, HeaderRead,
    Step, TextRead,
};
use super::{record_type_name, ErrorView, GdsError, GdsIoError, GdsRecordHeader, GdsRecordType};
use crate::text::{decimal, push_decimal};
use vstd::prelude::*;

verus! {

/// Where a scanner stands: its byte position and the header it has read ahead.
pub struct ScanState {
    pub pos: u64,
    pub nxt: GdsRecordHeader,
}

/// The error raised for a record that does not fit where the scanner stands.
pub open spec fn scan_err(s: ScanState) -> ErrorView {
    ErrorView::Str(
        "Scanned Invalid Record "@ + record_type_name(s.nxt.rtype) + " at Byte Position "@
            + decimal(s.pos as nat),
    )
}

/// Advances by one header: the header read ahead is returned and the following one is
/// read. Once the read-ahead header is `EndLib`, it is returned forever.
pub open spec fn scan_next(data: Seq<u8>, s: ScanState) -> Step<GdsRecordHeader, ScanState> {
    if s.nxt.rtype == GdsRecordType::EndLib {
        Step::Done(s.nxt, s)
    } else {
        match read_header(data, s.pos) {
            HeaderRead::Got(h, p) => Step::Done(s.nxt, ScanState { pos: p, nxt: h }),
            HeaderRead::Failed(e, p) => Step::Fail(e, ScanState { pos: p, nxt: s.nxt }),
        }
    }
}

/// Once the read-ahead header is `EndLib`, advancing returns it again without reading;
/// otherwise a successful advance returns the read-ahead header and reads the next one
/// from the four bytes at the position.
pub proof fn law_scan_next(data: Seq<u8>, s: ScanState)
    requires
        data.len() <= u64::MAX,
    ensures
        s.nxt.rtype == GdsRecordType::EndLib ==> scan_next(data, s) == Step::<
            GdsRecordHeader,
            ScanState,
        >::Done(s.nxt, s),
        s.nxt.rtype != GdsRecordType::EndLib ==> (scan_next(data, s) matches Step::Done(h, s1)
            ==> h == s.nxt && s1.pos == s.pos + 4 && read_header(data, s.pos) == HeaderRead::Got(
            s1.nxt,
            s1.pos,
        )),
{
    lemma_read_header_progress(data, s.pos);
}

/// Skips the content of the read-ahead record and reads the next header.
pub open spec fn scan_skip(data: Seq<u8>, s: ScanState) -> Step<(), ScanState> {
    if s.pos + s.nxt.len > u64::MAX {
        Step::Fail(ErrorView::Boxed(GdsIoError::InvalidSeek), s)
    } else {
        scan_next(data, ScanState { pos: (s.pos + s.nxt.len) as u64, nxt: s.nxt }).and_then(
            |h: GdsRecordHeader, s1: ScanState| Step::Done((), s1),
        )
    }
}

/// Requires the read-ahead record to be of type `t`, and skips it.
pub open spec fn scan_expect(data: Seq<u8>, s: ScanState, t: GdsRecordType) -> Step<
    (),
    ScanState,
> {
    if s.nxt.rtype == t {
        scan_skip(data, s)
    } else {
        Step::Fail(scan_err(s), s)
    }
}

/// The read-ahead header, which must be of type `t`; its content is left unread.
pub open spec fn scan_get(s: ScanState, t: GdsRecordType) -> Step<GdsRecordHeader, ScanState> {
    if s.nxt.rtype == t {
        Step::Done(s.nxt, s)
    } else {
        Step::Fail(scan_err(s), s)
    }
}

/// Reads the content of the read-ahead record as text.
pub open spec fn scan_text(data: Seq<u8>, s: ScanState) -> Step<Seq<char>, ScanState> {
    match read_text_at(data, s.pos, s.nxt.len) {
        TextRead::Got(t, p) => Step::Done(t, ScanState { pos: p, nxt: s.nxt }),
        TextRead::Failed(e, p) => Step::Fail(e, ScanState { pos: p, nxt: s.nxt }),
    }
}

/// A struct found by a scan: its name and the byte range from the start of its
/// `BgnStruct` record to the end of its `EndStruct` record.
pub struct StructScanView {
    pub name: Seq<char>,
    pub start: u64,
    pub end: u64,
}

/// Scans the records of a struct after its name, up to and including `EndStruct`.
pub open spec fn scan_struct_body(data: Seq<u8>, s: ScanState, name: Seq<char>, start: u64) -> Step<
    StructScanView,
    ScanState,
>
    decreases data.len() - s.pos,
    when data.len() <= u64::MAX
{
    if s.nxt.rtype == GdsRecordType::EndStruct {
        scan_skip(data, s).and_then(
            |u: (), s1: ScanState| Step::Done(StructScanView { name, start, end: s.pos }, s1),
        )
    } else if s.nxt.rtype == GdsRecordType::EndLib {
        Step::Fail(scan_err(s), s)
    } else {
        match scan_skip(data, s) {
            Step::Done(u, s1) => {
                proof {
                    lemma_read_header_progress(data, (s.pos + s.nxt.len) as u64);
                }
                scan_struct_body(data, s1, name, start)
            },
            Step::Fail(e, s1) => Step::Fail(e, s1),
        }
    }
}

/// Scans a struct whose `BgnStruct` header has been read ahead.
pub open spec fn scan_struct(data: Seq<u8>, s: ScanState) -> Step<StructScanView, ScanState> {
    let start = (s.pos - 4) as u64;
    scan_skip(data, s).and_then(
        |u: (), s1: ScanState|
            scan_get(s1, GdsRecordType::StructName).and_then(
                |h: GdsRecordHeader, s2: ScanState|
                    scan_text(data, s2).and_then(
                        |name: Seq<char>, s3: ScanState|
                            scan_next(data, s3).and_then(
                                |h2: GdsRecordHeader, s4: ScanState|
                                    scan_struct_body(data, s4, name, start),
                            ),
                    ),
            ),
    )
}

/// A successful struct scan moves forward and stays within the data.
pub proof fn lemma_scan_struct_body_progress(
    data: Seq<u8>,
    s: ScanState,
    name: Seq<char>,
    start: u64,
)
    requires
        data.len() <= u64::MAX,
    ensures
        scan_struct_body(data, s, name, start) matches Step::Done(v, s1) ==> s.pos < s1.pos
            <= data.len(),
    decreases data.len() - s.pos,
{
    if s.nxt.rtype != GdsRecordType::EndLib && s.pos + s.nxt.len <= u64::MAX {
        lemma_read_header_progress(data, (s.pos + s.nxt.len) as u64);
        if s.nxt.rtype != GdsRecordType::EndStruct {
            if let Step::Done(u, s1) = scan_skip(data, s) {
                lemma_scan_struct_body_progress(data, s1, name, start);
            }
        }
    }
}

/// A successful struct scan moves forward and stays within the data.
pub proof fn lemma_scan_struct_progress(data: Seq<u8>, s: ScanState)
    requires
        data.len() <= u64::MAX,
    ensures
        scan_struct(data, s) matches Step::Done(v, s1) ==> s.pos < s1.pos <= data.len(),
{
    if s.nxt.rtype != GdsRecordType::EndLib && s.pos + s.nxt.len <= u64::MAX {
        lemma_read_header_progress(data, (s.pos + s.nxt.len) as u64);
    }
    if let Step::Done(u, s1) = scan_skip(data, s) {
        if let Step::Done(h, s2) = scan_get(s1, GdsRecordType::StructName) {
            if let Step::Done(name, s3) = scan_text(data, s2) {
                if s3.nxt.rtype != GdsRecordType::EndLib {
                    lemma_read_header_progress(data, s3.pos);
                }
                if let Step::Done(h2, s4) = scan_next(data, s3) {
                    lemma_scan_struct_body_progress(data, s4, name, (s.pos - 4) as u64);
                }
            }
        }
    }
}

/// Scans the structs of a library after its header records, up to `EndLib`.
pub open spec fn scan_lib_body(data: Seq<u8>, s: ScanState, found: Seq<StructScanView>) -> Step<
    Seq<StructScanView>,
    ScanState,
>
    decreases data.len() - s.pos,
    when data.len() <= u64::MAX
{
    if s.nxt.rtype == GdsRecordType::EndLib {
        Step::Done(found, s)
    } else if s.nxt.rtype == GdsRecordType::BgnStruct {
        match scan_struct(data, s) {
            Step::Done(v, s1) => {
                proof {
                    lemma_scan_struct_progress(data, s);
                }
                scan_lib_body(data, s1, found.push(v))
            },
            Step::Fail(e, s1) => Step::Fail(e, s1),
        }
    } else {
        Step::Fail(scan_err(s), s)
    }
}

/// Scans a library: its header records, then every struct up to `EndLib`.
pub open spec fn scan_lib(data: Seq<u8>, s: ScanState) -> Step<Seq<StructScanView>, ScanState> {
    scan_expect(data, s, GdsRecordType::Header).and_then(
        |u: (), s1: ScanState|
            scan_expect(data, s1, GdsRecordType::BgnLib).and_then(
                |u2: (), s2: ScanState|
                    scan_get(s2, GdsRecordType::LibName).and_then(
                        |h: GdsRecordHeader, s3: ScanState|
                            scan_text(data, s3).and_then(
                                |name: Seq<char>, s4: ScanState|
                                    scan_next(data, s4).and_then(
                                        |h2: GdsRecordHeader, s5: ScanState|
                                            scan_expect(data, s5, GdsRecordType::Units).and_then(
                                                |u3: (), s6: ScanState|
                                                    scan_lib_body(data, s6, Seq::empty()),
                                            ),
                                    ),
                            ),
                    ),
            ),
    )
}

/// Scans a whole stream: reads the first header, then scans the library.
pub open spec fn scan_stream(data: Seq<u8>) -> Step<Seq<StructScanView>, ScanState> {
    match read_header(data, 0) {
        HeaderRead::Got(h, p) => scan_lib(data, ScanState { pos: p, nxt: h }),
        HeaderRead::Failed(e, p) => Step::Fail(
            e,
            ScanState {
                pos: p,
                nxt: GdsRecordHeader { rtype: GdsRecordType::Header, dtype: super::GdsDataType::NoData, len: 0 },
            },
        ),
    }
}

/// A struct name and location detected during a scan.
///
/// Typically generated by first-pass file scanning.
/// Stores a struct name and byte-offsets in its source.
#[derive(Debug, Default)]
pub struct GdsStructScan {
    /// Struct name.
    pub name: String,
    /// Starting byte offset, at the beginning of its `BgnStruct` record.
    pub start: u64,
    /// Ending byte offset, at the end of its `EndStruct` record.
    pub end: u64,
}

impl View for GdsStructScan {
    type V = StructScanView;

    open spec fn view(&self) -> StructScanView {
        StructScanView { name: self.name@, start: self.start, end: self.end }
    }
}

/// The views of a vector of scan results.
pub open spec fn scans_view(v: Seq<GdsStructScan>) -> Seq<StructScanView> {
    v.map_values(|x: GdsStructScan| x@)
}

/// Whether a vector result `r`, ending in state `fin`, is the scan outcome `st`.
pub open spec fn scans_are(
    st: Step<Seq<StructScanView>, ScanState>,
    r: Result<Vec<GdsStructScan>, GdsError>,
    fin: ScanState,
) -> bool {
    match st {
        Step::Done(v, s) => r matches Ok(x) && scans_view(x@) == v && fin == s,
        Step::Fail(e, s) => r matches Err(x) && x@ == e && fin == s,
    }
}

/// A GDS scanner for finding struct definitions in a stream.
///
/// Creates a first-pass list of detected cell names and byte-locations.
pub struct GdsScanner {
    /// Reader-helper.
    rdr: GdsReader,
    /// Next record-header, stored for peeking.
    nxt: GdsRecordHeader,
}

impl GdsScanner {
    /// The bytes being scanned.
    pub closed spec fn data(&self) -> Seq<u8> {
        self.rdr.data()
    }

    /// The position and read-ahead header.
    pub closed spec fn state(&self) -> ScanState {
        ScanState { pos: self.rdr.position(), nxt: self.nxt }
    }

    /// A scanner has read at least one header, so it stands at byte four or later.
    pub closed spec fn wf(&self) -> bool {
        &&& self.rdr.position() >= 4
        &&& self.rdr.data().len() >= 4
        &&& self.rdr.data().len() <= usize::MAX
    }

    /// Creates a new scanner, reading the first header to initialize its look-ahead.
    pub fn new(rdr: GdsReader) -> (r: Result<Self, GdsError>)
        ensures
            match read_header(rdr.data(), rdr.position()) {
                HeaderRead::Got(h, p) => r matches Ok(s) && s.wf() && s.data() == rdr.data()
                    && s.state() == (ScanState { pos: p, nxt: h }),
                HeaderRead::Failed(e, p) => r matches Err(x) && x@ == e,
            },
    {
        let mut rdr = rdr;
        let nxt = rdr.read_record_header()?;
        proof {
            lemma_read_header_progress(rdr.data(), rdr.position());
        }
        Ok(Self { rdr, nxt })
    }

    /// Scans the structs of the stream `bytes`.
    pub fn scan(bytes: Vec<u8>) -> (r: Result<Vec<GdsStructScan>, GdsError>)
        ensures
            match scan_stream(bytes@) {
                Step::Done(v, s) => r matches Ok(x) && scans_view(x@) == v,
                Step::Fail(e, s) => r matches Err(x) && x@ == e,
            },
    {
        let rdr = GdsReader::from_bytes(bytes);
        let mut me = match Self::new(rdr) {
            Ok(me) => me,
            Err(e) => {
                return Err(e);
            },
        };
        me.scan_lib()
    }

    /// Requires the next record to be of type `rtype`, and skips over it.
    fn expect(&mut self, rtype: GdsRecordType) -> (r: Result<(), GdsError>)
        requires
            old(self).wf(),
        ensures
            final(self).wf(),
            final(self).data() == old(self).data(),
            step_is(scan_expect(old(self).data(), old(self).state(), rtype), r, final(self).state()),
    {
        if self.peek().rtype == rtype {
            self.skip()
        } else {
            self.fail()
        }
    }

    /// Gets the next record's header, which must be of type `rtype`.
    ///
    /// Consuming the remainder of the record is left to the caller.
    fn get(&self, rtype: GdsRecordType) -> (r: Result<GdsRecordHeader, GdsError>)
        ensures
            step_is(scan_get(self.state(), rtype), r, self.state()),
    {
        if self.peek().rtype == rtype {
            Ok(*self.peek())
        } else {
            self.fail()
        }
    }

    /// Advances and returns the read-ahead header; once the library's end is read ahead,
    /// it is returned again on every call without reading further.
    pub fn next(&mut self) -> (r: Result<GdsRecordHeader, GdsError>)
        requires
            old(self).wf(),
        ensures
            final(self).wf(),
            final(self).data() == old(self).data(),
            step_is(scan_next(old(self).data(), old(self).state()), r, final(self).state()),
    {
        if self.peek().rtype == GdsRecordType::EndLib {
            return Ok(*self.peek());
        }
        match self.rdr.read_record_header() {
            Ok(h) => {
                let rv = self.nxt;
                self.nxt = h;
                Ok(rv)
            },
            Err(e) => Err(e),
        }
    }

    /// Skips over the current record's content, if any, and loads the next header.
    fn skip(&mut self) -> (r: Result<(), GdsError>)
        requires
            old(self).wf(),
        ensures
            final(self).wf(),
            final(self).data() == old(self).data(),
            step_is(scan_skip(old(self).data(), old(self).state()), r, final(self).state()),
    {
        let len = self.nxt.len as u64;
        match self.rdr.seek_forward(len) {
            Ok(()) => {},
            Err(e) => {
                return Err(e);
            },
        }
        self.next()?;
        Ok(())
    }

    /// Peeks at the next record header, without advancing.
    pub fn peek(&self) -> (r: &GdsRecordHeader)
        ensures
            *r == self.state().nxt,
    {
        &self.nxt
    }

    /// Reads the current record's content as text.
    fn read_text(&mut self) -> (r: Result<String, GdsError>)
        requires
            old(self).wf(),
        ensures
            final(self).wf(),
            final(self).data() == old(self).data(),
            step_is(scan_text(old(self).data(), old(self).state()), r, final(self).state()),
    {
        let len = self.nxt.len;
        self.rdr.read_str(len)
    }

    /// Scans the stream for struct definitions.
    pub fn scan_lib(&mut self) -> (r: Result<Vec<GdsStructScan>, GdsError>)
        requires
            old(self).wf(),
        ensures
            final(self).wf(),
            final(self).data() == old(self).data(),
            scans_are(scan_lib(old(self).data(), old(self).state()), r, final(self).state()),
    {
        let ghost d = self.data();
        let ghost target = scan_lib(d, self.state());
        self.expect(GdsRecordType::Header)?;
        self.expect(GdsRecordType::BgnLib)?;
        self.get(GdsRecordType::LibName)?;
        let _lib_name = self.read_text()?;
        self.next()?;
        self.expect(GdsRecordType::Units)?;
        let mut strukts: Vec<GdsStructScan> = Vec::new();
        assert(scans_view(strukts@) =~= Seq::<StructScanView>::empty());
        loop
            invariant
                self.wf(),
                self.data() == d,
                d == old(self).data(),
                target == scan_lib(old(self).data(), old(self).state()),
                d.len() <= u64::MAX,
                target == scan_lib_body(d, self.state(), scans_view(strukts@)),
            decreases d.len() - self.state().pos,
        {
            let rtype = self.peek().rtype;
            if rtype == GdsRecordType::EndLib {
                return Ok(strukts);
            } else if rtype == GdsRecordType::BgnStruct {
                let ghost s1 = self.state();
                proof {
                    lemma_scan_struct_progress(d, s1);
                }
                let s = self.scan_struct()?;
                let ghost before = strukts@;
                strukts.push(s);
                assert(scans_view(strukts@) =~= scans_view(before).push(s@));
            } else {
                return self.fail();
            }
        }
    }

    /// Scans a single struct definition, whose `BgnStruct` header has been read ahead.
    fn scan_struct(&mut self) -> (r: Result<GdsStructScan, GdsError>)
        requires
            old(self).wf(),
        ensures
            final(self).wf(),
            final(self).data() == old(self).data(),
            step_is(scan_struct(old(self).data(), old(self).state()), r, final(self).state()),
    {
        let ghost d = self.data();
        let ghost target = scan_struct(d, self.state());
        let start = self.pos() - 4;
        self.skip()?;
        self.get(GdsRecordType::StructName)?;
        let name = self.read_text()?;
        self.next()?;
        loop
            invariant
                self.wf(),
                self.data() == d,
                d == old(self).data(),
                target == scan_struct(old(self).data(), old(self).state()),
                d.len() <= u64::MAX,
                target == scan_struct_body(
                    d,
                    self.state(),
                    name@,
                    start,
                ),
            decreases d.len() - self.state().pos,
        {
            let rtype = self.peek().rtype;
            if rtype == GdsRecordType::EndStruct {
                let end = self.pos();
                self.skip()?;
                return Ok(GdsStructScan { name, start, end });
            } else if rtype == GdsRecordType::EndLib {
                return self.fail();
            } else {
                proof {
                    let s = self.state();
                    if s.pos + s.nxt.len <= u64::MAX {
                        lemma_read_header_progress(d, (s.pos + s.nxt.len) as u64);
                    }
                }
                self.skip()?;
            }
        }
    }

    /// The current byte position.
    fn pos(&self) -> (r: u64)
        ensures
            r == self.state().pos,
    {
        self.rdr.pos()
    }

    /// The error for the record read ahead, at the current position.
    fn err(&self) -> (r: GdsError)
        ensures
            r@ == scan_err(self.state()),
    {
        let mut msg = String::from_str("Scanned Invalid Record ");
        msg.append(self.nxt.rtype.name());
        msg.append(" at Byte Position ");
        push_decimal(&mut msg, self.pos());
        proof {
            reveal_strlit("Scanned Invalid Record ");
            reveal_strlit(" at Byte Position ");
        }
        GdsError::Str(msg)
    }

    /// Fails with the error for the record read ahead.
    fn fail<T>(&self) -> (r: Result<T, GdsError>)
        ensures
            r matches Err(e) && e@ == scan_err(self.state()),
    {
        Err(self.err())
    }
}

} // verus!
