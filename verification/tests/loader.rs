use opra_statistical_profiler::loader::{
    read_record, CbboFields, Cmbp1Fields, Cmbp1Loader, Cmbp1Record, Cmbp1RecordIterator, Decoded,
    Notice, RecordSource, Step, ACTION_UNAVAILABLE, MAX_UNSUPPORTED_RTYPE_WARNINGS, RTYPE_CBBO_1M,
    RTYPE_CBBO_1S, RTYPE_CMBP_1, RTYPE_TCBBO,
};

fn cmbp1() -> Cmbp1Fields {
    Cmbp1Fields {
        instrument_id: 1,
        ts_event: 2,
        publisher_id: 3,
        price: 4,
        size: 5,
        action: b'T',
        side: b'A',
        flags: 6,
        ts_in_delta: 7,
        ts_recv: 8,
        bid_px: 9,
        ask_px: 10,
        bid_sz: 11,
        ask_sz: 12,
        bid_pb: 13,
        ask_pb: 14,
    }
}

fn cbbo() -> CbboFields {
    CbboFields {
        instrument_id: 1,
        ts_event: 2,
        publisher_id: 3,
        price: 4,
        size: 5,
        side: b'B',
        flags: 6,
        ts_recv: 8,
        bid_px: 9,
        ask_px: 10,
        bid_sz: 11,
        ask_sz: 12,
        bid_pb: 13,
        ask_pb: 14,
    }
}

#[test]
fn rtypes_are_those_of_the_encoding() {
    assert_eq!(RTYPE_CMBP_1, dbn::enums::rtype::CMBP_1);
    assert_eq!(RTYPE_CBBO_1S, dbn::enums::rtype::CBBO_1S);
    assert_eq!(RTYPE_CBBO_1M, dbn::enums::rtype::CBBO_1M);
    assert_eq!(RTYPE_TCBBO, dbn::enums::rtype::TCBBO);
}

#[test]
fn a_cmbp1_message_keeps_every_field() {
    let r = Cmbp1Record::from_cmbp1(&cmbp1());
    assert_eq!(r.source, RecordSource::Cmbp1);
    assert_eq!((r.instrument_id, r.ts_event, r.publisher_id), (1, 2, 3));
    assert_eq!((r.price, r.size, r.action, r.side), (4, 5, b'T', b'A'));
    assert_eq!((r.flags, r.ts_in_delta, r.ts_recv), (6, 7, 8));
    assert_eq!((r.bid_px, r.ask_px, r.bid_sz, r.ask_sz), (9, 10, 11, 12));
    assert_eq!((r.bid_pb, r.ask_pb), (13, 14));
}

#[test]
fn a_cbbo_message_has_no_action_and_no_delta() {
    let r = Cmbp1Record::from_cbbo(&cbbo());
    assert_eq!(r.source, RecordSource::Cbbo);
    assert_eq!(r.action, ACTION_UNAVAILABLE);
    assert_eq!(r.ts_in_delta, 0);
    assert_eq!((r.side, r.price, r.size), (b'B', 4, 5));
    assert_eq!((r.bid_px, r.ask_px, r.bid_pb, r.ask_pb), (9, 10, 13, 14));
}

#[test]
fn records_are_read_by_rtype() {
    for rtype in [0xB1u8, 0xC2] {
        assert_eq!(
            read_record(rtype, Some(cmbp1()), None),
            Decoded::Record(Cmbp1Record::from_cmbp1(&cmbp1()))
        );
        assert_eq!(read_record(rtype, None, Some(cbbo())), Decoded::ShortRecord(rtype));
    }
    for rtype in [0xC0u8, 0xC1] {
        assert_eq!(
            read_record(rtype, None, Some(cbbo())),
            Decoded::Record(Cmbp1Record::from_cbbo(&cbbo()))
        );
        assert_eq!(read_record(rtype, Some(cmbp1()), None), Decoded::ShortRecord(rtype));
    }
    assert_eq!(read_record(0x17, Some(cmbp1()), Some(cbbo())), Decoded::UnsupportedRtype(0x17));
}

#[test]
fn loaders_need_a_file() {
    assert_eq!(Cmbp1Loader::new("a/b.dbn.zst", true).unwrap().path(), "a/b.dbn.zst");
    let e = Cmbp1Loader::new("a/b.dbn.zst", false).unwrap_err();
    assert_eq!(e.message(), "File not found: a/b.dbn.zst");
}

#[test]
fn every_outcome_is_counted() {
    let mut it = Cmbp1RecordIterator::new();
    let full = Cmbp1Record::from_cmbp1(&cmbp1());
    let bare = Cmbp1Record::from_cbbo(&cbbo());
    assert_eq!(it.next(Decoded::Record(full)), Step::Yield(full, Notice::Silent));
    assert_eq!(it.next(Decoded::Record(bare)), Step::Yield(bare, Notice::CbboWithoutAction));
    assert_eq!(it.next(Decoded::Record(bare)), Step::Yield(bare, Notice::Silent));
    assert_eq!(
        it.next(Decoded::DecodeError),
        Step::Skip(Notice::DecodeFailed { record: 3, decode_errors: 1 })
    );
    assert_eq!(
        it.next(Decoded::ShortRecord(0xB1)),
        Step::Skip(Notice::RecordTooShort { record: 3, rtype: 0xB1, decode_errors: 2 })
    );
    assert_eq!(
        it.next(Decoded::UnsupportedRtype(0x17)),
        Step::Skip(Notice::RtypeNotDecoded { rtype: 0x17, unsupported_rtype: 1, last: false })
    );
    assert_eq!(it.next(Decoded::Eof), Step::End);
    assert_eq!(it.count(), 3);
    assert_eq!(it.decode_errors(), 2);
    assert_eq!(it.unsupported_rtype(), 1);
    assert_eq!(it.cbbo_action_unavailable(), 2);
    assert!(it.has_room());
}

#[test]
fn notices_on_rtypes_are_capped_and_counts_are_not() {
    let mut it = Cmbp1RecordIterator::new();
    for i in 1..=25u64 {
        let step = it.next(Decoded::UnsupportedRtype(1));
        let expected = if i <= MAX_UNSUPPORTED_RTYPE_WARNINGS {
            Notice::RtypeNotDecoded {
                rtype: 1,
                unsupported_rtype: i,
                last: i == MAX_UNSUPPORTED_RTYPE_WARNINGS,
            }
        } else {
            Notice::Silent
        };
        assert_eq!(step, Step::Skip(expected));
    }
    assert_eq!(it.unsupported_rtype(), 25);
}

#[test]
fn pure_files_have_all_or_no_actions() {
    let mut it = Cmbp1RecordIterator::new();
    for _ in 0..5 {
        it.next(Decoded::Record(Cmbp1Record::from_cbbo(&cbbo())));
    }
    assert_eq!(it.cbbo_action_unavailable(), it.count());
    let mut it = Cmbp1RecordIterator::new();
    for _ in 0..5 {
        it.next(Decoded::Record(Cmbp1Record::from_cmbp1(&cmbp1())));
    }
    assert_eq!((it.count(), it.cbbo_action_unavailable()), (5, 0));
}
