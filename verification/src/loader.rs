//! CMBP-1 / CBBO record loading for OPRA options data.
//!
//! Yields [`Cmbp1Record`] — a decoder-independent record type — from what a
//! decoder of `.dbn.zst` files hands over, and accounts for every record that
//! it does not yield.
//!
//! # Record types
//!
//! | rtype | layout |
//! |---|---|
//! | 0xB1 CMBP-1, 0xC2 TCBBO | [`Cmbp1Fields`] |
//! | 0xC0 CBBO-1s, 0xC1 CBBO-1m | [`CbboFields`] |
//!
//! The CBBO layout has neither an `action` nor a `ts_in_delta`: for such records
//! `action` is [`ACTION_UNAVAILABLE`] and `ts_in_delta` is 0, every one of them
//! is counted in
//! [`cbbo_action_unavailable`](Cmbp1RecordIterator::cbbo_action_unavailable),
//! and the first of a file is warned about. Nothing is dropped silently.

use vstd::prelude::*;

verus! {

/// Sentinel written to [`Cmbp1Record::action`] when the source schema has no
/// `action` field at all (CBBO-1s/1m).
///
/// `0` is deliberately not a valid DBN action code (`A`/`C`/`F`/`M`/`R`/`T`),
/// so it falls through every action `match` to `Action::Other` rather than
/// impersonating a quote or a trade.
pub const ACTION_UNAVAILABLE: u8 = 0;

/// How many per-record `unsupported_rtype` warnings to emit before suppressing
/// the rest for the remainder of the file. A wrong-schema file is wrong on
/// EVERY record; this bounds log VOLUME, never information.
pub const MAX_UNSUPPORTED_RTYPE_WARNINGS: u64 = 10;

/// rtype of CMBP-1 records.
pub const RTYPE_CMBP_1: u8 = 0xB1;

/// rtype of CBBO-1s records.
pub const RTYPE_CBBO_1S: u8 = 0xC0;

/// rtype of CBBO-1m records.
pub const RTYPE_CBBO_1M: u8 = 0xC1;

/// rtype of TCBBO records.
pub const RTYPE_TCBBO: u8 = 0xC2;

/// Which DBN record type a [`Cmbp1Record`] was decoded from.
#[derive(Debug, Clone, Copy, PartialEq, Eq, Structural)]
pub enum RecordSource {
    /// rtype 0xB1 (CMBP-1) or 0xC2 (TCBBO). Every field of [`Cmbp1Record`] is
    /// a real field of the source schema.
    Cmbp1,
    /// rtype 0xC0/0xC1 (CBBO-1s/1m). `action` is [`ACTION_UNAVAILABLE`] and
    /// `ts_in_delta` is 0 — neither exists in that schema.
    Cbbo,
}

/// The fields of a CMBP-1 or TCBBO message.
#[derive(Debug, Clone, Copy, PartialEq, Eq, Structural)]
pub struct Cmbp1Fields {
    pub instrument_id: u32,
    pub ts_event: u64,
    pub publisher_id: u16,
    pub price: i64,
    pub size: u32,
    pub action: u8,
    pub side: u8,
    pub flags: u8,
    pub ts_in_delta: i32,
    pub ts_recv: u64,
    pub bid_px: i64,
    pub ask_px: i64,
    pub bid_sz: u32,
    pub ask_sz: u32,
    pub bid_pb: u16,
    pub ask_pb: u16,
}

/// The fields of a CBBO-1s or CBBO-1m message.
#[derive(Debug, Clone, Copy, PartialEq, Eq, Structural)]
pub struct CbboFields {
    pub instrument_id: u32,
    pub ts_event: u64,
    pub publisher_id: u16,
    pub price: i64,
    pub size: u32,
    pub side: u8,
    pub flags: u8,
    pub ts_recv: u64,
    pub bid_px: i64,
    pub ask_px: i64,
    pub bid_sz: u32,
    pub ask_sz: u32,
    pub bid_pb: u16,
    pub ask_pb: u16,
}

/// Internal representation of a consolidated top-of-book record.
///
/// Decoder-independent by design. Prices stay as i64 nanodollars.
#[derive(Debug, Clone, Copy, PartialEq, Eq, Structural)]
pub struct Cmbp1Record {
    /// Which schema this came from — see [`RecordSource`].
    pub source: RecordSource,
    pub instrument_id: u32,
    /// Exchange timestamp, UTC nanoseconds.
    pub ts_event: u64,
    pub publisher_id: u16,
    /// Trade price in nanodollars. On CBBO this is the interval's last trade
    /// price.
    pub price: i64,
    /// Trade size in contracts. On CBBO this is the interval's last trade size.
    pub size: u32,
    /// Event action byte, or [`ACTION_UNAVAILABLE`] when the source schema has
    /// no `action` field.
    pub action: u8,
    /// Event side byte. Real in both schemas.
    pub side: u8,
    /// Raw flags byte.
    pub flags: u8,
    /// Matching-engine-sending delta in ns. `0` for CBBO (no such field).
    pub ts_in_delta: i32,
    /// Capture-server-received timestamp, UTC nanoseconds.
    pub ts_recv: u64,
    /// Best bid, nanodollars.
    pub bid_px: i64,
    /// Best ask, nanodollars.
    pub ask_px: i64,
    pub bid_sz: u32,
    pub ask_sz: u32,
    /// Venue holding the best bid.
    pub bid_pb: u16,
    /// Venue holding the best ask.
    pub ask_pb: u16,
}

impl Cmbp1Record {
    /// The record of a CMBP-1 or TCBBO message.
    pub open spec fn of_cmbp1(msg: Cmbp1Fields) -> Self {
        Cmbp1Record {
            source: RecordSource::Cmbp1,
            instrument_id: msg.instrument_id,
            ts_event: msg.ts_event,
            publisher_id: msg.publisher_id,
            price: msg.price,
            size: msg.size,
            action: msg.action,
            side: msg.side,
            flags: msg.flags,
            ts_in_delta: msg.ts_in_delta,
            ts_recv: msg.ts_recv,
            bid_px: msg.bid_px,
            ask_px: msg.ask_px,
            bid_sz: msg.bid_sz,
            ask_sz: msg.ask_sz,
            bid_pb: msg.bid_pb,
            ask_pb: msg.ask_pb,
        }
    }

    /// The record of a CBBO message, which has no action and no delta.
    pub open spec fn of_cbbo(msg: CbboFields) -> Self {
        Cmbp1Record {
            source: RecordSource::Cbbo,
            instrument_id: msg.instrument_id,
            ts_event: msg.ts_event,
            publisher_id: msg.publisher_id,
            price: msg.price,
            size: msg.size,
            action: ACTION_UNAVAILABLE,
            side: msg.side,
            flags: msg.flags,
            ts_in_delta: 0,
            ts_recv: msg.ts_recv,
            bid_px: msg.bid_px,
            ask_px: msg.ask_px,
            bid_sz: msg.bid_sz,
            ask_sz: msg.ask_sz,
            bid_pb: msg.bid_pb,
            ask_pb: msg.ask_pb,
        }
    }

    /// Convert from a CMBP-1 / TCBBO message.
    pub fn from_cmbp1(msg: &Cmbp1Fields) -> (r: Self)
        ensures
            r == Self::of_cmbp1(*msg),
    {
        Cmbp1Record {
            source: RecordSource::Cmbp1,
            instrument_id: msg.instrument_id,
            ts_event: msg.ts_event,
            publisher_id: msg.publisher_id,
            price: msg.price,
            size: msg.size,
            action: msg.action,
            side: msg.side,
            flags: msg.flags,
            ts_in_delta: msg.ts_in_delta,
            ts_recv: msg.ts_recv,
            bid_px: msg.bid_px,
            ask_px: msg.ask_px,
            bid_sz: msg.bid_sz,
            ask_sz: msg.ask_sz,
            bid_pb: msg.bid_pb,
            ask_pb: msg.ask_pb,
        }
    }

    /// Convert from a CBBO-1s / CBBO-1m message: `action` and `ts_in_delta` are
    /// absent from this schema, so they are filled with
    /// [`ACTION_UNAVAILABLE`] and `0`.
    pub fn from_cbbo(msg: &CbboFields) -> (r: Self)
        ensures
            r == Self::of_cbbo(*msg),
    {
        Cmbp1Record {
            source: RecordSource::Cbbo,
            instrument_id: msg.instrument_id,
            ts_event: msg.ts_event,
            publisher_id: msg.publisher_id,
            price: msg.price,
            size: msg.size,
            action: ACTION_UNAVAILABLE,
            side: msg.side,
            flags: msg.flags,
            ts_in_delta: 0,
            ts_recv: msg.ts_recv,
            bid_px: msg.bid_px,
            ask_px: msg.ask_px,
            bid_sz: msg.bid_sz,
            ask_sz: msg.ask_sz,
            bid_pb: msg.bid_pb,
            ask_pb: msg.ask_pb,
        }
    }
}

/// A file that cannot be loaded.
#[derive(Debug)]
pub enum LoadError {
    /// There is no file at the path.
    FileNotFound(String),
}

impl LoadError {
    /// The path at which there is no file.
    pub open spec fn missing_path(self) -> Seq<char> {
        match self {
            LoadError::FileNotFound(path) => path@,
        }
    }

    /// What is wrong, in words.
    pub fn message(&self) -> (r: String)
        ensures
            r@ == "File not found: "@ + self.missing_path(),
    {
        match self {
            LoadError::FileNotFound(path) => {
                let mut text: String = "File not found: ".to_owned();
                text.append(path.as_str());
                text
            },
        }
    }
}

/// Loader for OPRA CMBP-1 / CBBO `.dbn.zst` files.
#[derive(Debug)]
pub struct Cmbp1Loader {
    path: String,
}

impl View for Cmbp1Loader {
    type V = Seq<char>;

    closed spec fn view(&self) -> Seq<char> {
        self.path@
    }
}

impl Cmbp1Loader {
    /// A loader of the file at a path, where there is one.
    pub fn new(path: &str, exists: bool) -> (r: Result<Self, LoadError>)
        ensures
            r is Ok <==> exists,
            r matches Ok(loader) ==> loader@ == path@,
            r matches Err(e) ==> e.missing_path() == path@,
    {
        if exists {
            Ok(Cmbp1Loader { path: path.to_owned() })
        } else {
            Err(LoadError::FileNotFound(path.to_owned()))
        }
    }

    /// The path of the file.
    pub fn path(&self) -> (r: &str)
        ensures
            r@ == self@,
    {
        self.path.as_str()
    }
}

/// The layout that records of an rtype have, if it is one that is decoded.
pub open spec fn layout_of(rtype: u8) -> Option<RecordSource> {
    if rtype == RTYPE_CMBP_1 || rtype == RTYPE_TCBBO {
        Some(RecordSource::Cmbp1)
    } else if rtype == RTYPE_CBBO_1S || rtype == RTYPE_CBBO_1M {
        Some(RecordSource::Cbbo)
    } else {
        None
    }
}

/// Decode outcome for one record.
#[derive(Debug, Clone, Copy, PartialEq, Eq, Structural)]
pub enum Decoded {
    Record(Cmbp1Record),
    Eof,
    /// The decoder failed on the record.
    DecodeError,
    /// rtype is a known CMBP-1/CBBO type but the encoded record is shorter than
    /// the layout (truncated, or an older record revision).
    ShortRecord(u8),
    /// rtype belongs to no schema this profiler decodes.
    UnsupportedRtype(u8),
}

/// The outcome for a record of an rtype, given its fields in each layout where
/// the record can be read in it.
pub open spec fn outcome_of(
    rtype: u8,
    cmbp1: Option<Cmbp1Fields>,
    cbbo: Option<CbboFields>,
) -> Decoded {
    match layout_of(rtype) {
        Some(RecordSource::Cmbp1) => match cmbp1 {
            Some(msg) => Decoded::Record(Cmbp1Record::of_cmbp1(msg)),
            None => Decoded::ShortRecord(rtype),
        },
        Some(RecordSource::Cbbo) => match cbbo {
            Some(msg) => Decoded::Record(Cmbp1Record::of_cbbo(msg)),
            None => Decoded::ShortRecord(rtype),
        },
        None => Decoded::UnsupportedRtype(rtype),
    }
}

/// Reads a record by its rtype.
pub fn read_record(rtype: u8, cmbp1: Option<Cmbp1Fields>, cbbo: Option<CbboFields>) -> (r: Decoded)
    ensures
        r == outcome_of(rtype, cmbp1, cbbo),
{
    match rtype {
        // CMBP-1 and TCBBO share a layout.
        0xB1 | 0xC2 => match cmbp1 {
            Some(msg) => Decoded::Record(Cmbp1Record::from_cmbp1(&msg)),
            None => Decoded::ShortRecord(rtype),
        },
        0xC0 | 0xC1 => match cbbo {
            Some(msg) => Decoded::Record(Cmbp1Record::from_cbbo(&msg)),
            None => Decoded::ShortRecord(rtype),
        },
        // Every record that reaches this arm is counted and warned about.
        other => Decoded::UnsupportedRtype(other),
    }
}

/// What is to be logged after a record.
#[derive(Debug, Clone, Copy, PartialEq, Eq, Structural)]
pub enum Notice {
    /// Nothing.
    Silent,
    /// The file's schema has no `action` field; said once per file.
    CbboWithoutAction,
    /// The decoder failed after `record` records; this is failure number
    /// `decode_errors`.
    DecodeFailed { record: u64, decode_errors: u64 },
    /// A record was shorter than its layout.
    RecordTooShort { record: u64, rtype: u8, decode_errors: u64 },
    /// A record had an rtype that is not decoded; where `last`, no more of
    /// these notices follow for the file.
    RtypeNotDecoded { rtype: u8, unsupported_rtype: u64, last: bool },
}

/// What follows from one decode outcome.
#[derive(Debug, Clone, Copy, PartialEq, Eq, Structural)]
pub enum Step {
    /// The record is yielded.
    Yield(Cmbp1Record, Notice),
    /// The record is skipped.
    Skip(Notice),
    /// There is no record left.
    End,
}

/// Accounting of a stream of consolidated top-of-book records.
///
/// Exposes four cumulative counters:
/// - [`count`](Self::count): records successfully decoded and yielded.
/// - [`decode_errors`](Self::decode_errors): records whose decoding failed
///   mid-stream.
/// - [`unsupported_rtype`](Self::unsupported_rtype): records whose rtype is
///   neither CMBP-1/TCBBO nor CBBO-1s/1m.
/// - [`cbbo_action_unavailable`](Self::cbbo_action_unavailable): records that
///   came from CBBO-1s/1m and therefore carry no `action`.
#[derive(Debug)]
pub struct Cmbp1RecordIterator {
    count: u64,
    decode_errors: u64,
    unsupported_rtype: u64,
    cbbo_action_unavailable: u64,
    cbbo_warned: bool,
}

/// The counters of a stream.
pub struct Tally {
    pub count: nat,
    pub decode_errors: nat,
    pub unsupported_rtype: nat,
    pub cbbo_action_unavailable: nat,
}

impl Tally {
    /// Before the first record.
    pub open spec fn start() -> Tally {
        Tally { count: 0, decode_errors: 0, unsupported_rtype: 0, cbbo_action_unavailable: 0 }
    }

    /// Records read so far, whatever became of them.
    pub open spec fn records(self) -> nat {
        self.count + self.decode_errors + self.unsupported_rtype
    }

    /// The counters after one decode outcome.
    pub open spec fn after(self, decoded: Decoded) -> Tally {
        match decoded {
            Decoded::Record(record) => Tally {
                count: self.count + 1,
                cbbo_action_unavailable: if record.source == RecordSource::Cbbo {
                    self.cbbo_action_unavailable + 1
                } else {
                    self.cbbo_action_unavailable
                },
                ..self
            },
            Decoded::Eof => self,
            Decoded::DecodeError => Tally { decode_errors: self.decode_errors + 1, ..self },
            Decoded::ShortRecord(_) => Tally { decode_errors: self.decode_errors + 1, ..self },
            Decoded::UnsupportedRtype(_) => Tally {
                unsupported_rtype: self.unsupported_rtype + 1,
                ..self
            },
        }
    }

    /// What one decode outcome leads to: a record is yielded, the end is the
    /// end, and everything else is skipped with a notice. The notice on rtypes
    /// comes for the first ten records of a file alone.
    pub open spec fn step(self, decoded: Decoded) -> Step {
        match decoded {
            Decoded::Record(record) => Step::Yield(
                record,
                if record.source == RecordSource::Cbbo && self.cbbo_action_unavailable == 0 {
                    Notice::CbboWithoutAction
                } else {
                    Notice::Silent
                },
            ),
            Decoded::Eof => Step::End,
            Decoded::DecodeError => Step::Skip(
                Notice::DecodeFailed {
                    record: self.count as u64,
                    decode_errors: (self.decode_errors + 1) as u64,
                },
            ),
            Decoded::ShortRecord(rtype) => Step::Skip(
                Notice::RecordTooShort {
                    record: self.count as u64,
                    rtype,
                    decode_errors: (self.decode_errors + 1) as u64,
                },
            ),
            Decoded::UnsupportedRtype(rtype) => Step::Skip(
                if self.unsupported_rtype + 1 <= MAX_UNSUPPORTED_RTYPE_WARNINGS {
                    Notice::RtypeNotDecoded {
                        rtype,
                        unsupported_rtype: (self.unsupported_rtype + 1) as u64,
                        last: self.unsupported_rtype + 1 == MAX_UNSUPPORTED_RTYPE_WARNINGS,
                    }
                } else {
                    Notice::Silent
                },
            ),
        }
    }

    /// The counters after a sequence of decode outcomes.
    pub open spec fn after_all(self, decoded: Seq<Decoded>) -> Tally
        decreases decoded.len(),
    {
        if decoded.len() == 0 {
            self
        } else {
            self.after_all(decoded.drop_last()).after(decoded.last())
        }
    }
}

impl View for Cmbp1RecordIterator {
    type V = Tally;

    closed spec fn view(&self) -> Tally {
        Tally {
            count: self.count as nat,
            decode_errors: self.decode_errors as nat,
            unsupported_rtype: self.unsupported_rtype as nat,
            cbbo_action_unavailable: self.cbbo_action_unavailable as nat,
        }
    }
}

impl Cmbp1RecordIterator {
    /// A notice was given exactly when a CBBO record has come, and CBBO records
    /// are among those yielded.
    pub closed spec fn valid(&self) -> bool {
        &&& self.cbbo_warned == (self.cbbo_action_unavailable > 0)
        &&& self.cbbo_action_unavailable <= self.count
    }

    /// No counter is at its limit.
    pub open spec fn room(tally: Tally) -> bool {
        tally.count < u64::MAX && tally.decode_errors < u64::MAX && tally.unsupported_rtype
            < u64::MAX
    }

    /// Accounting of a stream of which nothing was read.
    pub fn new() -> (r: Self)
        ensures
            r.valid(),
            r@ == Tally::start(),
    {
        Cmbp1RecordIterator {
            count: 0,
            decode_errors: 0,
            unsupported_rtype: 0,
            cbbo_action_unavailable: 0,
            cbbo_warned: false,
        }
    }

    /// Whether another record can be counted.
    pub fn has_room(&self) -> (r: bool)
        ensures
            r == Self::room(self@),
    {
        self.count < u64::MAX && self.decode_errors < u64::MAX && self.unsupported_rtype
            < u64::MAX
    }

    /// Number of records yielded so far.
    pub fn count(&self) -> (r: u64)
        ensures
            r == self@.count,
    {
        self.count
    }

    /// Number of records whose decoding failed and were skipped so far.
    pub fn decode_errors(&self) -> (r: u64)
        ensures
            r == self@.decode_errors,
    {
        self.decode_errors
    }

    /// Number of records skipped because their rtype is not one this profiler
    /// decodes. Non-zero means the loader was pointed at a file whose schema it
    /// does not understand — a configuration error, not a data property.
    pub fn unsupported_rtype(&self) -> (r: u64)
        ensures
            r == self@.unsupported_rtype,
    {
        self.unsupported_rtype
    }

    /// Number of yielded records that came from CBBO-1s/1m and therefore have
    /// `action == ACTION_UNAVAILABLE`. Equals `count()` for a pure CBBO file
    /// and `0` for a pure CMBP-1 file.
    pub fn cbbo_action_unavailable(&self) -> (r: u64)
        ensures
            r == self@.cbbo_action_unavailable,
    {
        self.cbbo_action_unavailable
    }

    /// Accounts for one decode outcome and says what follows from it.
    pub fn next(&mut self, decoded: Decoded) -> (r: Step)
        requires
            old(self).valid(),
            Self::room(old(self)@),
        ensures
            final(self).valid(),
            final(self)@ == old(self)@.after(decoded),
            r == old(self)@.step(decoded),
    {
        match decoded {
            Decoded::Record(record) => {
                let mut notice = Notice::Silent;
                if record.source == RecordSource::Cbbo {
                    self.cbbo_action_unavailable = self.cbbo_action_unavailable + 1;
                    if !self.cbbo_warned {
                        self.cbbo_warned = true;
                        notice = Notice::CbboWithoutAction;
                    }
                }
                self.count = self.count + 1;
                Step::Yield(record, notice)
            },
            Decoded::Eof => Step::End,
            Decoded::DecodeError => {
                self.decode_errors = self.decode_errors + 1;
                Step::Skip(
                    Notice::DecodeFailed { record: self.count, decode_errors: self.decode_errors },
                )
            },
            Decoded::ShortRecord(rtype) => {
                self.decode_errors = self.decode_errors + 1;
                Step::Skip(
                    Notice::RecordTooShort {
                        record: self.count,
                        rtype,
                        decode_errors: self.decode_errors,
                    },
                )
            },
            Decoded::UnsupportedRtype(rtype) => {
                self.unsupported_rtype = self.unsupported_rtype + 1;
                if self.unsupported_rtype <= MAX_UNSUPPORTED_RTYPE_WARNINGS {
                    Step::Skip(
                        Notice::RtypeNotDecoded {
                            rtype,
                            unsupported_rtype: self.unsupported_rtype,
                            last: self.unsupported_rtype == MAX_UNSUPPORTED_RTYPE_WARNINGS,
                        },
                    )
                } else {
                    Step::Skip(Notice::Silent)
                }
            },
        }
    }
}

/// Every record is accounted for: after any outcomes without an end, the
/// counters of yielded, failed and unsupported records add up to their number,
/// and no more CBBO records were counted than records yielded.
pub proof fn law_every_record_is_counted(decoded: Seq<Decoded>)
    requires
        forall|i: int| 0 <= i < decoded.len() ==> !((#[trigger] decoded[i]) is Eof),
    ensures
        Tally::start().after_all(decoded).records() == decoded.len(),
        Tally::start().after_all(decoded).cbbo_action_unavailable <= Tally::start().after_all(
            decoded,
        ).count,
    decreases decoded.len(),
{
    if decoded.len() > 0 {
        assert(!(decoded[decoded.len() - 1] is Eof));
        assert forall|i: int| 0 <= i < decoded.drop_last().len() implies !((
        #[trigger] decoded.drop_last()[i]) is Eof) by {
            assert(!(decoded[i] is Eof));
        }
        law_every_record_is_counted(decoded.drop_last());
    }
}

/// A file of CBBO records alone has an unavailable action in every record, and
/// one of CMBP-1 records alone in none.
pub proof fn law_pure_files(decoded: Seq<Decoded>, source: RecordSource)
    requires
        forall|i: int|
            0 <= i < decoded.len() ==> ((#[trigger] decoded[i]) matches Decoded::Record(record)
                && record.source == source),
    ensures
        Tally::start().after_all(decoded).count == decoded.len(),
        Tally::start().after_all(decoded).cbbo_action_unavailable == (if source
            == RecordSource::Cbbo {
            decoded.len()
        } else {
            0
        }),
    decreases decoded.len(),
{
    if decoded.len() > 0 {
        assert(decoded[decoded.len() - 1] matches Decoded::Record(record) && record.source
            == source);
        assert forall|i: int| 0 <= i < decoded.drop_last().len() implies ((
        #[trigger] decoded.drop_last()[i]) matches Decoded::Record(record) && record.source
            == source) by {
            assert(decoded[i] matches Decoded::Record(record) && record.source == source);
        }
        law_pure_files(decoded.drop_last(), source);
    }
}

/// What a message is read as, by its rtype: 0xB1 and 0xC2 in the CMBP-1 layout,
/// 0xC0 and 0xC1 in the CBBO layout, and no other. Where it can be read, the
/// record has the fields of the message, and one of the CBBO layout has no
/// action and no delta; where it is too short, that is said with its rtype.
pub proof fn law_record_by_its_rtype(
    rtype: u8,
    cmbp1: Option<Cmbp1Fields>,
    cbbo: Option<CbboFields>,
)
    ensures
        ({
            let long = rtype == 0xB1 || rtype == 0xC2;
            let short = rtype == 0xC0 || rtype == 0xC1;
            let outcome = outcome_of(rtype, cmbp1, cbbo);
            &&& outcome is Record <==> long && cmbp1 is Some || short && cbbo is Some
            &&& outcome == Decoded::ShortRecord(rtype) <==> long && cmbp1 is None || short
                && cbbo is None
            &&& outcome == Decoded::UnsupportedRtype(rtype) <==> !long && !short
            &&& long && cmbp1 is Some ==> {
                let (record, msg) = (outcome->Record_0, cmbp1->0);
                &&& record.source == RecordSource::Cmbp1
                &&& record.action == msg.action && record.ts_in_delta == msg.ts_in_delta
                &&& record.instrument_id == msg.instrument_id
                &&& record.ts_event == msg.ts_event
                &&& record.publisher_id == msg.publisher_id
                &&& record.price == msg.price
                &&& record.size == msg.size
                &&& record.side == msg.side
                &&& record.flags == msg.flags
                &&& record.ts_recv == msg.ts_recv
                &&& record.bid_px == msg.bid_px
                &&& record.ask_px == msg.ask_px
                &&& record.bid_sz == msg.bid_sz
                &&& record.ask_sz == msg.ask_sz
                &&& record.bid_pb == msg.bid_pb
                &&& record.ask_pb == msg.ask_pb
            }
            &&& short && cbbo is Some ==> {
                let (record, msg) = (outcome->Record_0, cbbo->0);
                &&& record.source == RecordSource::Cbbo
                &&& record.action == 0 && record.ts_in_delta == 0
                &&& record.instrument_id == msg.instrument_id
                &&& record.ts_event == msg.ts_event
                &&& record.publisher_id == msg.publisher_id
                &&& record.price == msg.price
                &&& record.size == msg.size
                &&& record.side == msg.side
                &&& record.flags == msg.flags
                &&& record.ts_recv == msg.ts_recv
                &&& record.bid_px == msg.bid_px
                &&& record.ask_px == msg.ask_px
                &&& record.bid_sz == msg.bid_sz
                &&& record.ask_sz == msg.ask_sz
                &&& record.bid_pb == msg.bid_pb
                &&& record.ask_pb == msg.ask_pb
            }
        }),
{
}

/// What follows from an outcome, and when it is warned about. A record is
/// yielded as it is, with a notice on the first of a file that has no action
/// alone; a failure or a record that is too short is skipped, with the records
/// yielded before it and its own number; of the unsupported rtypes the first ten
/// are noticed with their number, and the tenth says that it is the last.
pub proof fn law_step_by_the_counters(tally: Tally, decoded: Decoded)
    requires
        Cmbp1RecordIterator::room(tally),
    ensures
        ({
            let step = tally.step(decoded);
            &&& step is End <==> decoded is Eof
            &&& decoded matches Decoded::Record(record) ==> {
                let first = record.source == RecordSource::Cbbo && tally.cbbo_action_unavailable
                    == 0;
                &&& first ==> step == Step::Yield(record, Notice::CbboWithoutAction)
                &&& !first ==> step == Step::Yield(record, Notice::Silent)
            }
            &&& decoded is DecodeError ==> (step matches Step::Skip(
                Notice::DecodeFailed { record, decode_errors },
            ) && record == tally.count && decode_errors == tally.decode_errors + 1)
            &&& decoded matches Decoded::ShortRecord(code) ==> (step matches Step::Skip(
                Notice::RecordTooShort { record, rtype, decode_errors },
            ) && record == tally.count && rtype == code && decode_errors == tally.decode_errors
                + 1)
            &&& decoded matches Decoded::UnsupportedRtype(code) ==> if tally.unsupported_rtype
                < 10 {
                step matches Step::Skip(
                    Notice::RtypeNotDecoded { rtype, unsupported_rtype, last },
                ) && rtype == code && unsupported_rtype == tally.unsupported_rtype + 1 && last == (
                tally.unsupported_rtype == 9)
            } else {
                step == Step::Skip(Notice::Silent)
            }
        }),
{
}

/// The counters of a file are the numbers of its outcomes: the records, those
/// that failed or were too short, those of an unsupported rtype, and the records
/// without an action.
pub proof fn law_counters_are_the_numbers_of_outcomes(decoded: Seq<Decoded>)
    ensures
        ({
            let tally = Tally::start().after_all(decoded);
            &&& tally.count == decoded.filter(|d: Decoded| d is Record).len()
            &&& tally.decode_errors == decoded.filter(
                |d: Decoded| d is DecodeError || d is ShortRecord,
            ).len()
            &&& tally.unsupported_rtype == decoded.filter(|d: Decoded| d is UnsupportedRtype).len()
            &&& tally.cbbo_action_unavailable == decoded.filter(
                |d: Decoded| d is Record && d->Record_0.source == RecordSource::Cbbo,
            ).len()
        }),
    decreases decoded.len(),
{
    reveal(Seq::filter);
    if decoded.len() > 0 {
        law_counters_are_the_numbers_of_outcomes(decoded.drop_last());
    }
}

} // verus!
