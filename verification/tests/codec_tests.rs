use einsteindb::codec::{
    compare, decode_bytes, decode_compact_bytes, decode_u64, decode_var_u64, encode_bytes,
    encode_compact_bytes, encode_u64, encode_var_u64, ByteOrder, CodecError,
};
use einsteindb::dagger::{Dagger, DaggerType, PessimisticDagger};
use einsteindb::error::Error;
use einsteindb::key::Key;
use einsteindb::timestamp::TimeStamp;
use einsteindb::write::{is_short_value, Write, WriteType};

#[test]
fn append_ts_round_trip() {
    let keys: Vec<&[u8]> = vec![b"", b"k", b"abcdefgh", b"a longer key than one group"];
    let stamps = [0u64, 1, 5, 255, 256, 1 << 40, u64::MAX - 1, u64::MAX];
    for raw in keys {
        for ts in stamps {
            let key = Key::from_cocauset(raw);
            let versioned = key.clone().append_ts(TimeStamp::new(ts));
            assert_eq!(versioned.decode_ts().unwrap(), TimeStamp::new(ts));
            assert_eq!(
                Key::decode_ts_from(versioned.as_encoded()).unwrap(),
                TimeStamp::new(ts)
            );
            assert!(Key::is_user_key_eq(versioned.as_encoded(), key.as_encoded()));
            let (user, stamp) = Key::split_on_ts_for(versioned.as_encoded()).unwrap();
            assert_eq!(&user, key.as_encoded());
            assert_eq!(stamp, TimeStamp::new(ts));
            assert_eq!(versioned.to_cocauset().unwrap(), raw);
            assert_eq!(versioned.truncate_ts().unwrap(), key);
            assert_eq!(key.into_cocauset().unwrap(), raw);
        }
    }
}

#[test]
fn append_ts_exact_bytes() {
    let key = Key::from_cocauset(b"k");
    assert_eq!(key.as_encoded(), &vec![b'k', 0, 0, 0, 0, 0, 0, 0, 0xF8]);
    assert!(key.is_encoded_from(b"k"));
    assert!(!key.is_encoded_from(b"j"));
    assert_eq!(key.len(), 9);
    let versioned = key.append_ts(TimeStamp::new(5));
    assert_eq!(
        versioned.into_encoded(),
        vec![b'k', 0, 0, 0, 0, 0, 0, 0, 0xF8, 0xFF, 0xFF, 0xFF, 0xFF, 0xFF, 0xFF, 0xFF, 0xFA]
    );
}

#[test]
fn later_versions_sort_first() {
    let key = Key::from_cocauset(b"k");
    let at = |ts: u64| key.clone().append_ts(TimeStamp::new(ts));
    assert_eq!(at(9).order(&at(3)), ByteOrder::Less);
    assert_eq!(at(3).order(&at(9)), ByteOrder::Greater);
    assert_eq!(at(3).order(&at(3)), ByteOrder::Equal);
    assert!(at(3).same(&at(3)));
    assert!(at(9) < at(3));
    // The versions of one key lie side by side: a longer key comes after
    // all of them.
    let longer = Key::from_cocauset(b"k\x00").append_ts(TimeStamp::max());
    assert_eq!(at(0).order(&longer), ByteOrder::Less);
    let shorter = Key::from_cocauset(b"j").append_ts(TimeStamp::zero());
    assert_eq!(shorter.order(&at(u64::MAX)), ByteOrder::Less);
}

#[test]
fn malformed_versioned_keys() {
    assert_eq!(Key::decode_ts_from(&[1, 2, 3, 4, 5, 6, 7]), Err(CodecError::KeyLength));
    assert_eq!(
        Key::from_encoded(vec![1, 2, 3]).truncate_ts(),
        Err(CodecError::KeyLength)
    );
    assert_eq!(Key::split_on_ts_for(&[]), Err(CodecError::KeyLength));
    assert!(!Key::is_user_key_eq(&[1, 2, 3], &[1, 2, 3]));
    assert!(!Key::is_user_key_eq(&[1, 2, 3, 4, 5, 6, 7, 8, 9], &[2]));
    assert!(Key::is_user_key_eq(&[1, 2, 3, 4, 5, 6, 7, 8, 9], &[1]));
    assert_eq!(
        Key::from_encoded_slice(&[1, 2, 3]).to_cocauset(),
        Err(CodecError::KeyPadding)
    );
}

#[test]
fn encode_bytes_groups() {
    assert_eq!(encode_bytes(b""), vec![0, 0, 0, 0, 0, 0, 0, 0, 0xF7]);
    assert_eq!(encode_bytes(b"abc"), vec![b'a', b'b', b'c', 0, 0, 0, 0, 0, 0xFA]);
    assert_eq!(
        encode_bytes(b"abcdefgh"),
        vec![b'a', b'b', b'c', b'd', b'e', b'f', b'g', b'h', 0xFF, 0, 0, 0, 0, 0, 0, 0, 0, 0xF7]
    );
    assert_eq!(
        encode_bytes(b"abcdefghi"),
        vec![b'a', b'b', b'c', b'd', b'e', b'f', b'g', b'h', 0xFF, b'i', 0, 0, 0, 0, 0, 0, 0, 0xF8]
    );
    for raw in [&b""[..], b"a", b"abcdefg", b"abcdefgh", b"abcdefghijklmnopq"] {
        assert_eq!(decode_bytes(&encode_bytes(raw)).unwrap(), raw);
    }
    // What follows the last group is not read.
    let mut enc = encode_bytes(b"abc");
    enc.extend_from_slice(&[9, 9, 9]);
    assert_eq!(decode_bytes(&enc).unwrap(), b"abc");
}

#[test]
fn decode_bytes_errors() {
    // Cut short.
    assert_eq!(decode_bytes(&[b'a', 0, 0, 0, 0, 0, 0, 0]), Err(CodecError::KeyPadding));
    // A marker out of range.
    assert_eq!(decode_bytes(&[b'a', 0, 0, 0, 0, 0, 0, 0, 0xF6]), Err(CodecError::KeyPadding));
    // Padding that is not zero.
    assert_eq!(decode_bytes(&[b'a', 0, 0, 0, 0, 0, 0, 1, 0xF8]), Err(CodecError::KeyPadding));
    // A full group with nothing behind.
    assert_eq!(decode_bytes(&[1, 2, 3, 4, 5, 6, 7, 8, 0xFF]), Err(CodecError::KeyPadding));
}

#[test]
fn byte_order() {
    assert_eq!(compare(b"", b""), ByteOrder::Equal);
    assert_eq!(compare(b"", b"a"), ByteOrder::Less);
    assert_eq!(compare(b"a", b""), ByteOrder::Greater);
    assert_eq!(compare(b"ab", b"b"), ByteOrder::Less);
    assert_eq!(compare(b"abc", b"abd"), ByteOrder::Less);
    assert_eq!(compare(b"abd", b"abc"), ByteOrder::Greater);
    assert_eq!(compare(b"abc", b"abc"), ByteOrder::Equal);
}

#[test]
fn fixed_width_numbers() {
    let mut out = vec![7];
    encode_u64(&mut out, 0x0102030405060708);
    assert_eq!(out, vec![7, 1, 2, 3, 4, 5, 6, 7, 8]);
    assert_eq!(decode_u64(&out, 1), 0x0102030405060708);
    let mut out = vec![];
    encode_u64(&mut out, u64::MAX);
    assert_eq!(decode_u64(&out, 0), u64::MAX);
}

#[test]
fn variable_width_numbers() {
    let cases: Vec<(u64, Vec<u8>)> = vec![
        (0, vec![0]),
        (1, vec![1]),
        (127, vec![127]),
        (128, vec![0x80, 1]),
        (300, vec![0xAC, 2]),
        (16384, vec![0x80, 0x80, 1]),
        (u64::MAX, vec![0xFF, 0xFF, 0xFF, 0xFF, 0xFF, 0xFF, 0xFF, 0xFF, 0xFF, 1]),
    ];
    for (n, bytes) in cases {
        let mut out = vec![];
        encode_var_u64(&mut out, n);
        assert_eq!(out, bytes);
        assert_eq!(decode_var_u64(&out, 0), Ok((n, bytes.len())));
    }
    assert_eq!(decode_var_u64(&[], 0), Err(CodecError::UnexpectedEof));
    assert_eq!(decode_var_u64(&[0x80], 0), Err(CodecError::UnexpectedEof));
    // An eleventh byte, and a number over 64 bits.
    assert_eq!(
        decode_var_u64(&[0x80, 0x80, 0x80, 0x80, 0x80, 0x80, 0x80, 0x80, 0x80, 0x80, 1], 0),
        Err(CodecError::VarintOverflow)
    );
    assert_eq!(
        decode_var_u64(&[0xFF, 0xFF, 0xFF, 0xFF, 0xFF, 0xFF, 0xFF, 0xFF, 0xFF, 2], 0),
        Err(CodecError::VarintOverflow)
    );
    assert_eq!(decode_var_u64(&[9, 0x85, 3], 1), Ok((389, 3)));
}

#[test]
fn compact_bytes() {
    let mut out = vec![];
    encode_compact_bytes(&mut out, b"k1");
    assert_eq!(out, vec![4, b'k', b'1']);
    assert_eq!(decode_compact_bytes(&out, 0), Ok((b"k1".to_vec(), 3)));
    let mut out = vec![];
    encode_compact_bytes(&mut out, b"");
    assert_eq!(out, vec![0]);
    assert_eq!(decode_compact_bytes(&out, 0), Ok((vec![], 1)));
    // An odd prefix, and a string cut short.
    assert_eq!(decode_compact_bytes(&[3, 1, 2], 0), Err(CodecError::UnexpectedEof));
    assert_eq!(decode_compact_bytes(&[6, 1, 2], 0), Err(CodecError::UnexpectedEof));
    assert_eq!(decode_compact_bytes(&[], 0), Err(CodecError::UnexpectedEof));
}

#[test]
fn write_record_bytes() {
    let w = Write::new(WriteType::Put, TimeStamp::new(1), Some(b"v".to_vec()));
    assert_eq!(w.to_bytes(), vec![b'P', 1, b'v', 1, b'v']);
    let w = Write::new(WriteType::Delete, TimeStamp::new(300), None);
    assert_eq!(w.to_bytes(), vec![b'D', 0xAC, 2]);
    let w = Write::new(WriteType::Dagger, TimeStamp::new(0), None);
    assert_eq!(w.to_bytes(), vec![b'L', 0]);
    let w = Write::new_rollback(TimeStamp::new(3), false);
    assert_eq!(w.to_bytes(), vec![b'R', 3]);
    assert!(!w.is_protected());
    let w = Write::new_rollback(TimeStamp::new(3), true);
    assert_eq!(w.to_bytes(), vec![b'R', 3, b'v', 1, b'p']);
    assert!(w.is_protected());
    let w = Write::new(WriteType::Put, TimeStamp::new(7), None)
        .set_overlapped_rollback(true, Some(TimeStamp::new(27)));
    assert_eq!(w.to_bytes(), vec![b'P', 7, b'R', b'F', 0, 0, 0, 0, 0, 0, 0, 27]);
    assert!(!w.is_protected());

    let records = vec![
        Write::new(WriteType::Put, TimeStamp::new(1), Some(b"v".to_vec())),
        Write::new(WriteType::Put, TimeStamp::new(u64::MAX), Some(vec![])),
        Write::new(WriteType::Put, TimeStamp::new(9), Some(vec![b'v'; 255])),
        Write::new(WriteType::Delete, TimeStamp::new(300), None),
        Write::new_rollback(TimeStamp::new(3), true),
        Write::new(WriteType::Dagger, TimeStamp::new(7), None)
            .set_overlapped_rollback(true, Some(TimeStamp::new(27))),
        Write::new(WriteType::Put, TimeStamp::new(7), Some(b"R".to_vec()))
            .set_overlapped_rollback(false, Some(TimeStamp::zero())),
    ];
    for w in records {
        assert_eq!(Write::parse(&w.to_bytes()).unwrap(), w);
        assert_eq!(w.clone(), w);
    }
}

#[test]
fn write_record_parse_errors() {
    assert_eq!(Write::parse(&[]), Err(Error::BadFormatWrite));
    assert_eq!(Write::parse(&[b'X', 1]), Err(Error::BadFormatWrite));
    assert_eq!(Write::parse(&[b'P']), Err(Error::BadFormatWrite));
    assert_eq!(Write::parse(&[b'P', 0x80]), Err(Error::BadFormatWrite));
    assert_eq!(Write::parse(&[b'P', 1, b'v']), Err(Error::BadFormatWrite));
    assert_eq!(Write::parse(&[b'P', 1, b'v', 2, b'x']), Err(Error::BadFormatWrite));
    assert_eq!(Write::parse(&[b'P', 1, b'F', 0, 0, 0]), Err(Error::BadFormatWrite));
    // A byte that introduces no known field ends the record.
    assert_eq!(
        Write::parse(&[b'P', 1, b'?', 9, 9]).unwrap(),
        Write::new(WriteType::Put, TimeStamp::new(1), None)
    );
}

#[test]
fn gc_fence_check() {
    let w = Write::new(WriteType::Put, TimeStamp::new(1), None);
    assert!(w.check_gc_fence_as_latest_version(TimeStamp::new(25)));
    let fenced = |fence: u64| {
        Write::new(WriteType::Put, TimeStamp::new(1), None)
            .set_overlapped_rollback(false, Some(TimeStamp::new(fence)))
    };
    assert!(fenced(0).check_gc_fence_as_latest_version(TimeStamp::new(25)));
    assert!(fenced(27).check_gc_fence_as_latest_version(TimeStamp::new(25)));
    assert!(fenced(25).check_gc_fence_as_latest_version(TimeStamp::new(25)));
    assert!(!fenced(24).check_gc_fence_as_latest_version(TimeStamp::new(25)));
    assert!(!fenced(3).check_gc_fence_as_latest_version(TimeStamp::new(25)));
}

#[test]
fn short_values() {
    assert!(is_short_value(&[]));
    assert!(is_short_value(&[0; 255]));
    assert!(!is_short_value(&[0; 256]));
    assert_eq!(WriteType::from_u8(b'P'), Some(WriteType::Put));
    assert_eq!(WriteType::from_u8(b'D'), Some(WriteType::Delete));
    assert_eq!(WriteType::from_u8(b'L'), Some(WriteType::Dagger));
    assert_eq!(WriteType::from_u8(b'R'), Some(WriteType::Rollback));
    assert_eq!(WriteType::from_u8(b'S'), None);
    assert_eq!(WriteType::Rollback.to_u8(), b'R');
    assert_eq!(WriteType::from_dagger_type(DaggerType::Put), Some(WriteType::Put));
    assert_eq!(WriteType::from_dagger_type(DaggerType::Delete), Some(WriteType::Delete));
    assert_eq!(WriteType::from_dagger_type(DaggerType::Dagger), Some(WriteType::Dagger));
    assert_eq!(WriteType::from_dagger_type(DaggerType::Pessimistic), None);
    assert_eq!(DaggerType::from_u8(b'S'), Some(DaggerType::Pessimistic));
    assert_eq!(DaggerType::from_u8(b'R'), None);
    assert_eq!(DaggerType::Dagger.to_u8(), b'L');
}

#[test]
fn dagger_bytes() {
    let d = Dagger::new(
        DaggerType::Put,
        b"k1".to_vec(),
        TimeStamp::new(5),
        0,
        Some(b"v1".to_vec()),
        TimeStamp::zero(),
        0,
        TimeStamp::zero(),
    );
    assert_eq!(d.to_bytes(), vec![b'P', 4, b'k', b'1', 5, 0, b'v', 2, b'v', b'1']);
    assert!(!d.is_pessimistic_solitontxn());

    let d = Dagger::new(
        DaggerType::Pessimistic,
        b"p".to_vec(),
        TimeStamp::new(10),
        300,
        None,
        TimeStamp::new(12),
        2,
        TimeStamp::new(13),
    );
    assert_eq!(
        d.to_bytes(),
        vec![
            b'S', 2, b'p', 10, 0xAC, 2, //
            b'f', 0, 0, 0, 0, 0, 0, 0, 12, //
            b't', 0, 0, 0, 0, 0, 0, 0, 2, //
            b'c', 0, 0, 0, 0, 0, 0, 0, 13,
        ]
    );
    assert!(d.is_pessimistic_solitontxn());

    let d = Dagger::new(
        DaggerType::Delete,
        b"".to_vec(),
        TimeStamp::new(1),
        0,
        None,
        TimeStamp::zero(),
        0,
        TimeStamp::zero(),
    )
    .use_async_commit(vec![b"a".to_vec(), b"bc".to_vec()])
    .with_rollback_ts(vec![TimeStamp::new(4), TimeStamp::new(6)]);
    assert_eq!(
        d.to_bytes(),
        vec![
            b'D', 0, 1, 0, //
            b'a', 2, 2, b'a', 4, b'b', b'c', //
            b'r', 2, 0, 0, 0, 0, 0, 0, 0, 4, 0, 0, 0, 0, 0, 0, 0, 6,
        ]
    );

    let daggers = vec![
        Dagger::new(DaggerType::Put, b"k1".to_vec(), 5.into(), 0, Some(b"v1".to_vec()), 0.into(), 0, 0.into()),
        Dagger::new(DaggerType::Dagger, b"pk".to_vec(), u64::MAX.into(), u64::MAX, Some(vec![7; 255]), 9.into(), 3, 11.into()),
        Dagger::new(DaggerType::Pessimistic, b"p".to_vec(), 10.into(), 300, None, 12.into(), 2, 13.into()),
        Dagger::new(DaggerType::Delete, vec![], 1.into(), 0, None, 0.into(), 0, 0.into())
            .use_async_commit(vec![]),
        Dagger::new(DaggerType::Delete, vec![], 1.into(), 0, None, 0.into(), 0, 0.into())
            .use_async_commit(vec![b"a".to_vec(), vec![], b"bc".to_vec()])
            .with_rollback_ts(vec![4.into(), 6.into()]),
    ];
    for d in daggers {
        assert_eq!(Dagger::parse(&d.to_bytes()).unwrap(), d);
        assert_eq!(d.clone(), d);
    }

    // The time to live may be left out at the end.
    assert_eq!(
        Dagger::parse(&[b'P', 2, b'k', 5]).unwrap(),
        Dagger::new(DaggerType::Put, b"k".to_vec(), 5.into(), 0, None, 0.into(), 0, 0.into())
    );
}

#[test]
fn dagger_parse_errors() {
    assert_eq!(Dagger::parse(&[]), Err(Error::BadFormatDagger));
    assert_eq!(Dagger::parse(&[b'R', 0, 1, 0]), Err(Error::BadFormatDagger));
    assert_eq!(Dagger::parse(&[b'P']), Err(Error::BadFormatDagger));
    assert_eq!(Dagger::parse(&[b'P', 4, b'k']), Err(Error::BadFormatDagger));
    assert_eq!(Dagger::parse(&[b'P', 0]), Err(Error::BadFormatDagger));
    assert_eq!(Dagger::parse(&[b'P', 0, 1, 0x80]), Err(Error::BadFormatDagger));
    assert_eq!(Dagger::parse(&[b'P', 0, 1, 0, b'v', 3, 1]), Err(Error::BadFormatDagger));
    assert_eq!(Dagger::parse(&[b'P', 0, 1, 0, b'f', 1]), Err(Error::BadFormatDagger));
    assert_eq!(Dagger::parse(&[b'P', 0, 1, 0, b't', 1]), Err(Error::BadFormatDagger));
    assert_eq!(Dagger::parse(&[b'P', 0, 1, 0, b'c', 1]), Err(Error::BadFormatDagger));
    assert_eq!(Dagger::parse(&[b'P', 0, 1, 0, b'a', 2, 0]), Err(Error::BadFormatDagger));
    assert_eq!(Dagger::parse(&[b'P', 0, 1, 0, b'r', 1, 0]), Err(Error::BadFormatDagger));
    assert_eq!(Dagger::parse(&[b'P', 0, 1, 0, b'?']), Err(Error::BadFormatDagger));
}

#[test]
fn pessimistic_dagger_to_dagger() {
    let p = PessimisticDagger {
        primary: b"pk".to_vec(),
        start_ts: TimeStamp::new(5),
        ttl: 1000,
        for_update_ts: TimeStamp::new(10),
        min_commit_ts: TimeStamp::new(20),
    };
    let expected = Dagger::new(
        DaggerType::Pessimistic,
        b"pk".to_vec(),
        5.into(),
        1000,
        None,
        10.into(),
        0,
        20.into(),
    );
    assert_eq!(p.to_dagger(), expected);
    assert_eq!(p.clone().into_dagger(), expected);
}

#[test]
fn timestamps() {
    assert_eq!(TimeStamp::zero().into_inner(), 0);
    assert_eq!(TimeStamp::max().into_inner(), u64::MAX);
    assert_eq!(TimeStamp::default(), TimeStamp::zero());
    assert!(TimeStamp::zero().is_zero());
    assert!(TimeStamp::max().is_max());
    assert!(!TimeStamp::new(1).is_zero());
    assert_eq!(TimeStamp::new(7).next(), TimeStamp::new(8));
    assert_eq!(TimeStamp::new(7).prev(), TimeStamp::new(6));
    assert_eq!(TimeStamp::new(7).next_or_max(), TimeStamp::new(8));
    assert_eq!(TimeStamp::max().next_or_max(), TimeStamp::max());
    assert_eq!(TimeStamp::new((5 << 18) + 3).physical(), 5);
    assert_eq!(TimeStamp::max_of(3.into(), 9.into()), TimeStamp::new(9));
    assert_eq!(TimeStamp::max_of(9.into(), 3.into()), TimeStamp::new(9));
    assert!(TimeStamp::new(3) < TimeStamp::new(9));
}
