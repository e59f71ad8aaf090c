use einsteindb::acquire::acquire_pessimistic_dagger;
use einsteindb::actions::{
    check_solitontxn_status_missing_dagger, cleanup, collapse_prev_rollback, commit,
    make_rollback, rollback_dagger, MissingDaggerAction, TxnStatus,
};
use einsteindb::commands::commit::Commit;
use einsteindb::commands::epaxos_by_start_ts::{find_epaxos_infos_by_key, EpaxosByStartTs};
use einsteindb::commands::prewrite::has_data_in_range;
use einsteindb::commands::{OldValues, ProcessResult, ResponsePolicy, WriteContext, WriteData};
use einsteindb::context::{Context, DiskFullOpt, ExtraOp};
use einsteindb::dagger::{Dagger, DaggerType, PessimisticDagger};
use einsteindb::error::Error;
use einsteindb::key::Key;
use einsteindb::kv::{
    ColumnFamily, Cursor, Engine, IterOptions, Modify, PessimisticDaggerTable,
    SentinelSearchMode, CF_DEFAULT, CF_LOCK, CF_WRITE,
};
use einsteindb::mutation::{Mutation, MutationType, OldValue};
use einsteindb::prewrite::{
    check_data_constraint, prewrite, CommitKind, TransactionKind, TransactionProperties,
};
use einsteindb::reader::{blackbraneReader, EpaxosReader, OverlappedWrite, TxnCommitRecord};
use einsteindb::timestamp::TimeStamp;
use einsteindb::txn::{ConcurrencyManager, EpaxosTxn, ReleasedDagger, ReleasedDaggers};
use einsteindb::write::{Write, WriteType};

#[allow(dead_code)]
fn must_prewrite_put_impl(
    engine: &mut Engine,
    key: &[u8],
    value: &[u8],
    pk: &[u8],
    secondary_keys: &Option<Vec<Vec<u8>>>,
    ts: u64,
    is_pessimistic_dagger: bool,
    dagger_ttl: u64,
    for_update_ts: u64,
    solitontxn_size: u64,
    min_commit_ts: u64,
    max_commit_ts: u64,
    is_retry_request: bool,
) {
    let ts = TimeStamp::new(ts);
    let for_update_ts = TimeStamp::new(for_update_ts);
    let cm = ConcurrencyManager::new(ts);
    let mut txn = EpaxosTxn::new(ts, cm);
    let mut reader = blackbraneReader::new(ts, engine.blackbrane(), true);

    let mutation = Mutation::make_put(Key::from_cocauset(key), value.to_vec());
    let kind = if for_update_ts.is_zero() {
        TransactionKind::Optimistic(false)
    } else {
        TransactionKind::Pessimistic(for_update_ts)
    };
    let commit_kind = if secondary_keys.is_some() {
        CommitKind::Async(TimeStamp::new(max_commit_ts))
    } else {
        CommitKind::TwoPc
    };
    prewrite(
        &mut txn,
        &mut reader,
        &TransactionProperties {
            start_ts: ts,
            kind,
            commit_kind,
            primary: pk.to_vec(),
            solitontxn_size,
            dagger_ttl,
            min_commit_ts: TimeStamp::new(min_commit_ts),
            need_old_value: false,
            is_retry_request,
        },
        mutation,
        secondary_keys,
        is_pessimistic_dagger,
    )
    .unwrap();
    engine.write(txn.into_modifies());
}

#[allow(dead_code)]
fn must_prewrite_put(engine: &mut Engine, key: &[u8], value: &[u8], pk: &[u8], ts: u64) {
    must_prewrite_put_impl(engine, key, value, pk, &None, ts, false, 0, 0, 0, 0, 0, false);
}

#[allow(dead_code)]
fn must_pessimistic_prewrite_put(
    engine: &mut Engine,
    key: &[u8],
    value: &[u8],
    pk: &[u8],
    ts: u64,
    for_update_ts: u64,
    is_pessimistic_dagger: bool,
) {
    must_prewrite_put_impl(
        engine,
        key,
        value,
        pk,
        &None,
        ts,
        is_pessimistic_dagger,
        0,
        for_update_ts,
        0,
        0,
        0,
        false,
    );
}

#[allow(dead_code)]
fn must_prewrite_put_async_commit(
    engine: &mut Engine,
    key: &[u8],
    value: &[u8],
    pk: &[u8],
    secondary_keys: &Option<Vec<Vec<u8>>>,
    ts: u64,
    min_commit_ts: u64,
) {
    assert!(secondary_keys.is_some());
    must_prewrite_put_impl(
        engine,
        key,
        value,
        pk,
        secondary_keys,
        ts,
        false,
        100,
        0,
        0,
        min_commit_ts,
        0,
        false,
    );
}

#[allow(dead_code)]
fn must_pessimistic_prewrite_put_async_commit(
    engine: &mut Engine,
    key: &[u8],
    value: &[u8],
    pk: &[u8],
    secondary_keys: &Option<Vec<Vec<u8>>>,
    ts: u64,
    for_update_ts: u64,
    is_pessimistic_dagger: bool,
    min_commit_ts: u64,
) {
    assert!(secondary_keys.is_some());
    must_prewrite_put_impl(
        engine,
        key,
        value,
        pk,
        secondary_keys,
        ts,
        is_pessimistic_dagger,
        100,
        for_update_ts,
        0,
        min_commit_ts,
        0,
        false,
    );
}

#[allow(dead_code)]
fn must_prewrite_delete(engine: &mut Engine, key: &[u8], pk: &[u8], ts: u64) {
    let ts = TimeStamp::new(ts);
    let cm = ConcurrencyManager::new(ts);
    let mut txn = EpaxosTxn::new(ts, cm);
    let mut reader = blackbraneReader::new(ts, engine.blackbrane(), true);
    let mutation = Mutation::make_delete(Key::from_cocauset(key));
    prewrite(
        &mut txn,
        &mut reader,
        &TransactionProperties {
            start_ts: ts,
            kind: TransactionKind::Optimistic(false),
            commit_kind: CommitKind::TwoPc,
            primary: pk.to_vec(),
            solitontxn_size: 0,
            dagger_ttl: 0,
            min_commit_ts: TimeStamp::zero(),
            need_old_value: false,
            is_retry_request: false,
        },
        mutation,
        &None,
        false,
    )
    .unwrap();
    engine.write(txn.into_modifies());
}

#[allow(dead_code)]
fn must_acquire_pessimistic_dagger(
    engine: &mut Engine,
    key: &[u8],
    pk: &[u8],
    start_ts: u64,
    for_update_ts: u64,
) {
    let start_ts = TimeStamp::new(start_ts);
    let for_update_ts = TimeStamp::new(for_update_ts);
    let cm = ConcurrencyManager::new(TimeStamp::zero());
    let mut txn = EpaxosTxn::new(start_ts, cm);
    let mut reader = blackbraneReader::new(start_ts, engine.blackbrane(), true);
    acquire_pessimistic_dagger(
        &mut txn,
        &mut reader,
        Key::from_cocauset(key),
        pk,
        false,
        0,
        for_update_ts,
        TimeStamp::zero(),
    )
    .unwrap();
    let modifies = txn.into_modifies();
    if !modifies.is_empty() {
        engine.write(modifies);
    }
}

#[allow(dead_code)]
fn must_commit(engine: &mut Engine, key: &[u8], start_ts: u64, commit_ts: u64) {
    let start_ts = TimeStamp::new(start_ts);
    let cm = ConcurrencyManager::new(start_ts);
    let mut txn = EpaxosTxn::new(start_ts, cm);
    let mut reader = blackbraneReader::new(start_ts, engine.blackbrane(), true);
    commit(&mut txn, &mut reader, Key::from_cocauset(key), TimeStamp::new(commit_ts)).unwrap();
    engine.write(txn.into_modifies());
}

#[allow(dead_code)]
fn must_rollback(engine: &mut Engine, key: &[u8], start_ts: u64, protect_rollback: bool) {
    let start_ts = TimeStamp::new(start_ts);
    let cm = ConcurrencyManager::new(start_ts);
    let mut txn = EpaxosTxn::new(start_ts, cm);
    let mut reader = blackbraneReader::new(start_ts, engine.blackbrane(), true);
    cleanup(
        &mut txn,
        &mut reader,
        Key::from_cocauset(key),
        TimeStamp::zero(),
        protect_rollback,
    )
    .unwrap();
    engine.write(txn.into_modifies());
}

#[allow(dead_code)]
fn must_daggered(engine: &Engine, key: &[u8], start_ts: u64) -> Dagger {
    let mut reader = EpaxosReader::new(engine.blackbrane(), None, true);
    let dagger = reader.load_dagger(&Key::from_cocauset(key)).unwrap().unwrap();
    assert_eq!(dagger.ts, TimeStamp::new(start_ts));
    assert_ne!(dagger.dagger_type, DaggerType::Pessimistic);
    dagger
}

#[allow(dead_code)]
fn must_pessimistic_daggered(engine: &Engine, key: &[u8], start_ts: u64, for_update_ts: u64) {
    let mut reader = EpaxosReader::new(engine.blackbrane(), None, true);
    let dagger = reader.load_dagger(&Key::from_cocauset(key)).unwrap().unwrap();
    assert_eq!(dagger.ts, TimeStamp::new(start_ts));
    assert_eq!(dagger.for_update_ts, TimeStamp::new(for_update_ts));
    assert_eq!(dagger.dagger_type, DaggerType::Pessimistic);
}

#[allow(dead_code)]
fn must_undaggered(engine: &Engine, key: &[u8]) {
    let mut reader = EpaxosReader::new(engine.blackbrane(), None, true);
    assert!(reader.load_dagger(&Key::from_cocauset(key)).unwrap().is_none());
}

#[allow(dead_code)]
fn must_get(engine: &Engine, key: &[u8], ts: u64, expect: &[u8]) {
    let ts = TimeStamp::new(ts);
    let mut reader = blackbraneReader::new(ts, engine.blackbrane(), true);
    let key = Key::from_cocauset(key);
    assert_eq!(reader.get(&key, ts).unwrap().unwrap(), expect);
}

#[allow(dead_code)]
fn must_get_commit_ts(engine: &Engine, key: &[u8], start_ts: u64, commit_ts: u64) {
    let mut reader = blackbraneReader::new(TimeStamp::new(start_ts), engine.blackbrane(), true);
    let (ts, write_type) = reader
        .get_solitontxn_commit_record(&Key::from_cocauset(key))
        .unwrap()
        .info()
        .unwrap();
    assert_ne!(write_type, WriteType::Rollback);
    assert_eq!(ts, TimeStamp::new(commit_ts));
}

#[allow(dead_code)]
fn must_get_commit_ts_none(engine: &Engine, key: &[u8], start_ts: u64) {
    let mut reader = blackbraneReader::new(TimeStamp::new(start_ts), engine.blackbrane(), true);
    let ret = reader.get_solitontxn_commit_record(&Key::from_cocauset(key));
    assert!(ret.is_ok());
    match ret.unwrap().info() {
        None => {}
        Some((_, write_type)) => {
            assert_eq!(write_type, WriteType::Rollback);
        }
    }
}

#[allow(dead_code)]
fn must_seek_write(
    engine: &Engine,
    key: &[u8],
    ts: u64,
    start_ts: u64,
    commit_ts: TimeStamp,
    write_type: WriteType,
) {
    let mut reader = EpaxosReader::new(engine.blackbrane(), None, true);
    let (t, write) = reader
        .seek_write(&Key::from_cocauset(key), TimeStamp::new(ts))
        .unwrap()
        .unwrap();
    assert_eq!(t, commit_ts);
    assert_eq!(write.start_ts, TimeStamp::new(start_ts));
    assert_eq!(write.write_type, write_type);
}

fn put_twice_delete(engine: &mut Engine, key: &[u8]) {
    must_prewrite_put(engine, key, b"v1", key, 1);
    must_commit(engine, key, 1, 2);
    must_prewrite_delete(engine, key, key, 8);
    must_commit(engine, key, 8, 9);
}

#[test]
fn column_family_keeps_order() {
    let mut cf = ColumnFamily::new();
    assert_eq!(cf.len(), 0);
    cf.put(b"b".to_vec(), b"2".to_vec());
    cf.put(b"d".to_vec(), b"4".to_vec());
    cf.put(b"a".to_vec(), b"1".to_vec());
    cf.put(b"c".to_vec(), b"3".to_vec());
    cf.put(b"b".to_vec(), b"22".to_vec());
    assert_eq!(cf.len(), 4);
    let keys: Vec<Vec<u8>> = (0..cf.len()).map(|i| cf.key_at(i).clone()).collect();
    assert_eq!(keys, vec![b"a".to_vec(), b"b".to_vec(), b"c".to_vec(), b"d".to_vec()]);
    assert_eq!(cf.value_at(1), &b"22".to_vec());
    assert_eq!(cf.get(b"c"), Some(&b"3".to_vec()));
    assert_eq!(cf.get(b"bb"), None);
    assert_eq!(cf.seek(b""), 0);
    assert_eq!(cf.seek(b"b"), 1);
    assert_eq!(cf.seek(b"bb"), 2);
    assert_eq!(cf.seek(b"e"), 4);
    cf.delete(b"b");
    cf.delete(b"zz");
    assert_eq!(cf.len(), 3);
    assert_eq!(cf.get(b"b"), None);
    let copy = cf.clone();
    assert_eq!(copy, cf);
    cf.put(b"b".to_vec(), b"2".to_vec());
    cf.delete_range(b"b", b"d");
    let keys: Vec<Vec<u8>> = (0..cf.len()).map(|i| cf.key_at(i).clone()).collect();
    assert_eq!(keys, vec![b"a".to_vec(), b"d".to_vec()]);
    cf.delete_range(b"d", b"a");
    assert_eq!(cf.len(), 2);
    cf.delete_range(b"", b"zz");
    assert_eq!(cf.len(), 0);
}

#[test]
fn engine_writes_batches_in_order() {
    let mut engine = Engine::new();
    let k = |raw: &[u8]| Key::from_cocauset(raw);
    engine.write(vec![
        Modify::Put(CF_DEFAULT, k(b"a"), b"1".to_vec()),
        Modify::Put(CF_DEFAULT, k(b"a"), b"2".to_vec()),
        Modify::Put(CF_WRITE, k(b"a"), b"w".to_vec()),
        Modify::Put(CF_DEFAULT, k(b"b"), b"3".to_vec()),
        Modify::Delete(CF_DEFAULT, k(b"b")),
        Modify::Put(CF_DEFAULT, k(b"c"), b"4".to_vec()),
        Modify::Put(CF_DEFAULT, k(b"d"), b"5".to_vec()),
        Modify::DeleteRange(CF_DEFAULT, k(b"c"), k(b"d"), false),
        Modify::DeleteRange(CF_DEFAULT, k(b"a"), k(b"z"), true),
        Modify::PessimisticDagger(
            k(b"p"),
            PessimisticDagger {
                primary: b"p".to_vec(),
                start_ts: 5.into(),
                ttl: 0,
                for_update_ts: 6.into(),
                min_commit_ts: 0.into(),
            },
        ),
    ]);
    let snap = engine.blackbrane();
    assert_eq!(snap.get(&k(b"a")), Some(b"2".to_vec()));
    assert_eq!(snap.get_cf(CF_WRITE, &k(b"a")), Some(b"w".to_vec()));
    assert_eq!(snap.get(&k(b"b")), None);
    assert_eq!(snap.get(&k(b"c")), None);
    assert_eq!(snap.get(&k(b"d")), Some(b"5".to_vec()));
    assert_eq!(
        Dagger::parse(&snap.get_cf(CF_LOCK, &k(b"p")).unwrap()).unwrap(),
        Dagger::new(DaggerType::Pessimistic, b"p".to_vec(), 5.into(), 0, None, 6.into(), 0, 0.into())
    );
    assert!(snap.ext().max_ts_synced);
    assert!(snap.ext().pessimistic_daggers.is_none());
    // A snapshot does not change with the store.
    engine.put_cf(CF_DEFAULT, k(b"a"), b"9".to_vec());
    engine.delete_cf(CF_DEFAULT, &k(b"d"));
    engine.delete_range_cf(CF_WRITE, &k(b""), &k(b"z"));
    engine.apply(Modify::Put(CF_DEFAULT, k(b"e"), b"6".to_vec()));
    assert_eq!(snap.get(&k(b"a")), Some(b"2".to_vec()));
    assert_eq!(snap.clone(), snap);
    let later = engine.blackbrane();
    assert_eq!(later.get(&k(b"a")), Some(b"9".to_vec()));
    assert_eq!(later.get(&k(b"d")), None);
    assert_eq!(later.get(&k(b"e")), Some(b"6".to_vec()));
    assert_eq!(later.get_cf(CF_WRITE, &k(b"a")), None);
}

#[test]
fn cursor_walks_whatever_the_hints() {
    let mut engine = Engine::new();
    for (raw, commit_ts) in [(b"a", 3u64), (b"b", 9), (b"c", 20)] {
        must_prewrite_put(&mut engine, raw, b"v", raw, commit_ts - 1);
        must_commit(&mut engine, raw, commit_ts - 1, commit_ts);
    }
    let snap = engine.blackbrane();
    let cf = snap.cf(CF_WRITE);
    let walk = |options: IterOptions| {
        let mut found = vec![];
        let mut cursor = Cursor::new(options);
        let mut ok = cursor.seek_to_first(cf);
        while ok {
            assert!(cursor.valid(cf));
            found.push(Key::decode_ts_from(cursor.key(cf)).unwrap().into_inner());
            assert!(Write::parse(cursor.value(cf)).is_ok());
            ok = cursor.next(cf);
        }
        assert!(!cursor.valid(cf));
        assert!(!cursor.next(cf));
        found
    };
    let plain = IterOptions {
        fill_cache: true,
        prefix_seek: false,
        mutant_search_mode: SentinelSearchMode::Mixed,
        hint_min_ts: None,
        hint_max_ts: None,
    };
    let hinted = IterOptions {
        fill_cache: false,
        prefix_seek: true,
        mutant_search_mode: SentinelSearchMode::Forward,
        hint_min_ts: Some(5.into()),
        hint_max_ts: Some(10.into()),
    };
    assert_eq!(walk(plain), vec![3, 9, 20]);
    assert_eq!(walk(hinted), vec![3, 9, 20]);

    let mut cursor = Cursor::new(hinted);
    let target = Key::from_cocauset(b"b").append_ts(TimeStamp::max());
    assert!(cursor.seek(cf, target.as_encoded()));
    assert_eq!(cursor.position, 1);
    assert!(cursor.near_seek(cf, Key::from_cocauset(b"c").as_encoded()));
    assert_eq!(cursor.position, 2);
    assert!(!cursor.seek(cf, Key::from_cocauset(b"d").as_encoded()));
    assert_eq!(cursor.position, 3);
    assert_eq!(cursor.options, hinted);
}

#[test]
fn get_visibility_after_put_and_delete() {
    let mut engine = Engine::new();
    put_twice_delete(&mut engine, b"k");
    let key = Key::from_cocauset(b"k");
    let mut reader = EpaxosReader::new(engine.blackbrane(), None, true);
    let write = reader.get_write(&key, 5.into(), None).unwrap().unwrap();
    assert_eq!(write, Write::new(WriteType::Put, 1.into(), Some(b"v1".to_vec())));
    assert_eq!(
        reader.get_write_with_commit_ts(&key, 8.into(), None).unwrap(),
        Some((Write::new(WriteType::Put, 1.into(), Some(b"v1".to_vec())), TimeStamp::new(2)))
    );
    assert!(reader.get_write(&key, 9.into(), None).unwrap().is_none());
    assert!(reader.get_write(&key, 100.into(), None).unwrap().is_none());
    assert_eq!(reader.get(&key, 5.into(), None).unwrap(), Some(b"v1".to_vec()));
    assert_eq!(reader.get(&key, 9.into(), None).unwrap(), None);

    let mut reader = blackbraneReader::new(5.into(), engine.blackbrane(), true);
    assert!(reader.key_exist(&key, 5.into()).unwrap());
    assert!(!reader.key_exist(&key, 9.into()).unwrap());
    assert!(!reader.key_exist(&key, 1.into()).unwrap());
    assert_eq!(reader.get(&key, 7.into()).unwrap(), Some(b"v1".to_vec()));
    assert!(reader.get_write(&key, 9.into()).unwrap().is_none());
    assert!(reader.get_write_with_commit_ts(&key, 2.into()).unwrap().is_some());
    assert_eq!(reader.seek_write(&key, 8.into()).unwrap().unwrap().0, TimeStamp::new(2));
    assert_eq!(
        reader.load_data(&key, Write::new(WriteType::Put, 1.into(), Some(b"x".to_vec()))).unwrap(),
        b"x".to_vec()
    );
    assert_eq!(
        reader.get_old_value(&key, 5.into(), false, None).unwrap(),
        OldValue::Value { value: b"v1".to_vec() }
    );
    assert!(reader.load_dagger(&key).unwrap().is_none());
}

#[test]
fn seek_write_finds_the_greatest_commit_ts_not_after_ts() {
    let mut engine = Engine::new();
    let commits = [3u64, 7, 12, 40];
    for c in commits {
        must_prewrite_put(&mut engine, b"k", b"v", b"k", c - 1);
        must_commit(&mut engine, b"k", c - 1, c);
    }
    // Records of neighbouring keys must not be taken for records of `k`.
    for raw in [&b"j"[..], b"k\x00", b"kk", b"l"] {
        must_prewrite_put(&mut engine, raw, b"v", raw, 4);
        must_commit(&mut engine, raw, 4, 5);
    }
    let key = Key::from_cocauset(b"k");
    let mut reader = EpaxosReader::new(engine.blackbrane(), Some(SentinelSearchMode::Forward), true);
    let mut last = 0;
    for ts in 0..50u64 {
        let expected = commits.iter().copied().filter(|c| *c <= ts).max();
        let found = reader.seek_write(&key, ts.into()).unwrap().map(|(c, _)| c.into_inner());
        assert_eq!(found, expected, "at {}", ts);
        if let Some(c) = found {
            assert!(c >= last);
            last = c;
        }
    }
    assert_eq!(
        reader.seek_write(&key, TimeStamp::max()).unwrap().unwrap().0,
        TimeStamp::new(40)
    );
}

#[test]
fn malformed_records_are_errors() {
    let mut engine = Engine::new();
    let key = Key::from_cocauset(b"k");
    engine.put_cf(CF_WRITE, key.clone().append_ts(5.into()), vec![b'?']);
    engine.put_cf(CF_LOCK, key.clone(), vec![b'P']);
    let mut reader = EpaxosReader::new(engine.blackbrane(), None, true);
    assert_eq!(reader.seek_write(&key, 9.into()), Err(Error::BadFormatWrite));
    assert_eq!(reader.get_write(&key, 9.into(), None), Err(Error::BadFormatWrite));
    assert_eq!(reader.get(&key, 9.into(), None), Err(Error::BadFormatWrite));
    assert_eq!(
        reader.get_solitontxn_commit_record(&key, 9.into()),
        Err(Error::BadFormatWrite)
    );
    assert_eq!(reader.load_dagger(&key), Err(Error::BadFormatDagger));
    assert_eq!(
        reader.mutant_search_daggers(None, None, |_: &Dagger| true, 0),
        Err(Error::BadFormatDagger)
    );
    // A key in the write records that is too short to hold a timestamp.
    let mut engine = Engine::new();
    engine.put_cf(CF_WRITE, Key::from_encoded(vec![1, 2, 3]), vec![b'P', 1]);
    let mut reader = EpaxosReader::new(engine.blackbrane(), Some(SentinelSearchMode::Forward), true);
    assert_eq!(
        reader.seek_write(&Key::from_encoded(vec![0]), 9.into()),
        Err(Error::Codec(einsteindb::codec::CodecError::KeyLength))
    );
    assert_eq!(
        reader.seek_ts(1.into()),
        Err(Error::Codec(einsteindb::codec::CodecError::KeyLength))
    );
    assert_eq!(
        reader.mutant_search_keys(None, 10),
        Err(Error::Codec(einsteindb::codec::CodecError::KeyLength))
    );
}

#[test]
fn pessimistic_dagger_table_is_fenced() {
    let mut engine = Engine::new();
    must_prewrite_put(&mut engine, b"stored", b"v", b"stored", 3);
    let mut table = PessimisticDaggerTable::new(7, 2);
    let held = PessimisticDagger {
        primary: b"k".to_vec(),
        start_ts: 10.into(),
        ttl: 3000,
        for_update_ts: 12.into(),
        min_commit_ts: 13.into(),
    };
    table.insert(Key::from_cocauset(b"k"), held.clone());
    assert_eq!(table.get(&Key::from_cocauset(b"k")), Some(&held));
    assert_eq!(table.get(&Key::from_cocauset(b"j")), None);
    assert_eq!(table.clone(), table);
    let snapshot = engine.blackbrane().with_pessimistic_daggers(table);

    let ctx = |term: u64, version: u64| {
        let mut ctx = Context::new();
        ctx.term = term;
        ctx.version = version;
        ctx
    };
    let key = Key::from_cocauset(b"k");
    // The reader's term and version are those of the table, or not known.
    for (term, version) in [(7, 2), (0, 0), (7, 0), (0, 2)] {
        let mut reader = EpaxosReader::new_with_ctx(snapshot.clone(), None, &ctx(term, version));
        assert_eq!(reader.load_dagger(&key).unwrap(), Some(held.to_dagger()));
        assert!(reader.load_dagger(&Key::from_cocauset(b"j")).unwrap().is_none());
        assert_eq!(
            reader.load_dagger(&Key::from_cocauset(b"stored")).unwrap().unwrap().ts,
            TimeStamp::new(3)
        );
    }
    // A table of another term or version is not trusted, not even on a
    // key that it does not hold.
    let mut reader = EpaxosReader::new_with_ctx(snapshot.clone(), None, &ctx(8, 2));
    assert_eq!(reader.load_dagger(&key), Err(Error::StaleCommand));
    assert_eq!(reader.load_dagger(&Key::from_cocauset(b"j")), Err(Error::StaleCommand));
    let mut reader = EpaxosReader::new_with_ctx(snapshot.clone(), None, &ctx(7, 3));
    assert_eq!(reader.load_dagger(&key), Err(Error::EpochNotMatch));
    let mut reader = blackbraneReader::new_with_ctx(1.into(), snapshot, &ctx(8, 3));
    assert_eq!(reader.load_dagger(&key), Err(Error::StaleCommand));
    assert_eq!(reader.start_ts, TimeStamp::new(1));
}

#[test]
fn search_keys_and_values() {
    let mut engine = Engine::new();
    let long = vec![b'x'; 300];
    for (raw, start) in [(&b"a"[..], 1u64), (b"b", 3), (b"b", 7), (b"c", 5)] {
        must_prewrite_put(&mut engine, raw, &long, raw, start);
        must_commit(&mut engine, raw, start, start + 1);
    }
    let k = |raw: &[u8]| Key::from_cocauset(raw);
    let mut reader = EpaxosReader::new(engine.blackbrane(), Some(SentinelSearchMode::Forward), true);
    assert_eq!(
        reader.mutant_search_keys(None, 10).unwrap(),
        (vec![k(b"a"), k(b"b"), k(b"c")], None)
    );
    assert_eq!(
        reader.mutant_search_keys(None, 2).unwrap(),
        (vec![k(b"a"), k(b"b")], Some(k(b"b").append_ts(TimeStamp::zero())))
    );
    assert_eq!(
        reader.mutant_search_keys(Some(k(b"b")), 1).unwrap(),
        (vec![k(b"b")], Some(k(b"b").append_ts(TimeStamp::zero())))
    );
    assert_eq!(
        reader.mutant_search_keys(Some(k(b"b").append_ts(TimeStamp::zero())), 5).unwrap(),
        (vec![k(b"c")], None)
    );
    assert_eq!(reader.mutant_search_keys(None, 0).unwrap(), (vec![], None));
    assert_eq!(reader.mutant_search_keys(Some(k(b"d")), 5).unwrap(), (vec![], None));

    assert_eq!(
        reader.mutant_search_values_in_default(&k(b"b")).unwrap(),
        vec![(TimeStamp::new(7), long.clone()), (TimeStamp::new(3), long.clone())]
    );
    assert_eq!(reader.mutant_search_values_in_default(&k(b"bb")).unwrap(), vec![]);
    assert_eq!(reader.mutant_search_values_in_default(&k(b"d")).unwrap(), vec![]);

    assert_eq!(reader.seek_ts(5.into()).unwrap(), Some(k(b"c")));
    assert_eq!(reader.seek_ts(7.into()).unwrap(), Some(k(b"b")));
    assert_eq!(reader.seek_ts(6.into()).unwrap(), None);

    assert!(has_data_in_range(&engine.blackbrane(), CF_WRITE, &k(b"a"), &k(b"b")));
    assert!(!has_data_in_range(&engine.blackbrane(), CF_WRITE, &k(b"a\x00"), &k(b"b")));
    assert!(!has_data_in_range(&engine.blackbrane(), CF_WRITE, &k(b"d"), &k(b"z")));
    assert!(!has_data_in_range(&engine.blackbrane(), CF_LOCK, &k(b"a"), &k(b"z")));
}

#[test]
fn epaxos_by_start_ts_finds_all_of_a_key() {
    let mut engine = Engine::new();
    let long = vec![b'x'; 300];
    must_prewrite_put(&mut engine, b"a", b"v", b"a", 1);
    must_commit(&mut engine, b"a", 1, 2);
    must_prewrite_put(&mut engine, b"b", &long, b"b", 3);
    must_commit(&mut engine, b"b", 3, 4);
    must_rollback(&mut engine, b"b", 6, true);
    must_prewrite_put(&mut engine, b"b", b"short", b"b", 8);

    let cmd = EpaxosByStartTs::new(3.into(), Context::new());
    assert_eq!(cmd.write_bytes(), 0);
    match cmd.process_read(engine.blackbrane()).unwrap() {
        ProcessResult::EpaxoCausetartTs { epaxos: Some((key, info)) } => {
            assert_eq!(key, Key::from_cocauset(b"b"));
            assert_eq!(info.dagger.unwrap().ts, TimeStamp::new(8));
            assert_eq!(
                info.writes,
                vec![
                    (TimeStamp::new(6), Write::new_rollback(6.into(), true)),
                    (TimeStamp::new(4), Write::new(WriteType::Put, 3.into(), None)),
                ]
            );
            assert_eq!(info.values, vec![(TimeStamp::new(3), long.clone())]);
        }
        res => panic!("unexpected result {:?}", res),
    }
    let cmd = EpaxosByStartTs::new(5.into(), Context::new());
    assert_eq!(
        cmd.process_read(engine.blackbrane()).unwrap(),
        ProcessResult::EpaxoCausetartTs { epaxos: None }
    );
    let mut reader = EpaxosReader::new(engine.blackbrane(), None, true);
    let info = find_epaxos_infos_by_key(&mut reader, &Key::from_cocauset(b"b"), 5.into()).unwrap();
    assert_eq!(info.writes.len(), 1);
    assert_eq!(info.values.len(), 1);
}

#[test]
fn commit_command() {
    let mut engine = Engine::new();
    must_prewrite_put(&mut engine, b"k1", b"v1", b"k1", 10);
    must_acquire_pessimistic_dagger(&mut engine, b"k2", b"k1", 10, 11);
    let context = WriteContext {
        concurrency_manager: ConcurrencyManager::new(10.into()),
        extra_op: ExtraOp::Noop,
        async_apply_prewrite: false,
    };
    let keys = || vec![Key::from_cocauset(b"k1"), Key::from_cocauset(b"k2")];

    // A commit timestamp that is not after the start timestamp is refused.
    let cmd = Commit::new(keys(), 10.into(), 10.into(), Context::new());
    assert_eq!(
        cmd.process_write(engine.blackbrane(), &context),
        Err(Error::InvalidTxnTso { start_ts: 10.into(), commit_ts: 10.into() })
    );

    let cmd = Commit::new(keys(), 10.into(), 15.into(), Context::new());
    assert_eq!(cmd.write_bytes(), 18);
    let ret = cmd.process_write(engine.blackbrane(), &context).unwrap();
    assert_eq!(ret.rows, 2);
    assert_eq!(
        ret.pr,
        ProcessResult::TxnStatus { txn_status: TxnStatus::Committed { commit_ts: 15.into() } }
    );
    assert_eq!(ret.response_policy, ResponsePolicy::OnApplied);
    assert_eq!(ret.to_be_write.disk_full_opt, DiskFullOpt::AllowedOnAlmostFull);
    let released = ret.released_daggers.unwrap();
    assert_eq!(released.keys, keys());
    assert!(released.pessimistic);
    assert_eq!(released.commit_ts, TimeStamp::new(15));
    assert_eq!(
        ret.to_be_write.modifies,
        vec![
            Modify::Put(
                CF_WRITE,
                Key::from_cocauset(b"k1").append_ts(15.into()),
                vec![b'P', 10, b'v', 2, b'v', b'1']
            ),
            Modify::Delete(CF_LOCK, Key::from_cocauset(b"k1")),
            // A pessimistic dagger commits as a dagger record.
            Modify::Put(CF_WRITE, Key::from_cocauset(b"k2").append_ts(15.into()), vec![b'L', 10]),
            Modify::Delete(CF_LOCK, Key::from_cocauset(b"k2")),
        ]
    );
    engine.write(ret.to_be_write.modifies);

    // Committed already: nothing to do.
    let cmd = Commit::new(keys(), 10.into(), 15.into(), Context::new());
    let ret = cmd.process_write(engine.blackbrane(), &context).unwrap();
    assert!(ret.to_be_write.modifies.is_empty());
    assert!(ret.released_daggers.unwrap().is_empty());

    // Never prewritten.
    let cmd = Commit::new(vec![Key::from_cocauset(b"k3")], 10.into(), 15.into(), Context::new());
    assert_eq!(
        cmd.process_write(engine.blackbrane(), &context),
        Err(Error::TxnDaggerNotFound {
            start_ts: 10.into(),
            commit_ts: 15.into(),
            key: b"k3".to_vec()
        })
    );
}

#[test]
fn commit_respects_min_commit_ts_and_recorded_rollbacks() {
    let mut engine = Engine::new();
    let key = Key::from_cocauset(b"k");
    let dagger = Dagger::new(DaggerType::Put, b"k".to_vec(), 10.into(), 0, Some(b"v".to_vec()), 0.into(), 0, 20.into())
        .use_async_commit(vec![])
        .with_rollback_ts(vec![25.into()]);
    engine.put_cf(CF_LOCK, key.clone(), dagger.to_bytes());

    let mut txn = EpaxosTxn::new(10.into(), ConcurrencyManager::new(10.into()));
    let mut reader = blackbraneReader::new(10.into(), engine.blackbrane(), true);
    assert_eq!(
        commit(&mut txn, &mut reader, key.clone(), 19.into()),
        Err(Error::CommitTsExpired {
            start_ts: 10.into(),
            commit_ts: 19.into(),
            key: b"k".to_vec(),
            min_commit_ts: 20.into()
        })
    );
    assert!(txn.modifies.is_empty());
    let released = commit(&mut txn, &mut reader, key.clone(), 25.into()).unwrap();
    assert_eq!(released, Some(ReleasedDagger { key: key.clone(), pessimistic: false }));
    assert_eq!(
        txn.into_modifies(),
        vec![
            Modify::Put(
                CF_WRITE,
                key.clone().append_ts(25.into()),
                Write::new(WriteType::Put, 10.into(), Some(b"v".to_vec()))
                    .set_overlapped_rollback(true, None)
                    .to_bytes()
            ),
            Modify::Delete(CF_LOCK, key),
        ]
    );
}

#[test]
fn cleanup_and_rollback_actions() {
    let mut engine = Engine::new();
    let key = Key::from_cocauset(b"k");
    let long = vec![b'x'; 300];
    must_prewrite_put_impl(&mut engine, b"k", &long, b"k", &None, 10 << 18, false, 100, 0, 0, 0, 0, false);

    // The dagger has not outlived its time at the current timestamp.
    let start_ts = TimeStamp::new(10 << 18);
    let mut txn = EpaxosTxn::new(start_ts, ConcurrencyManager::new(start_ts));
    let mut reader = blackbraneReader::new(start_ts, engine.blackbrane(), true);
    let err = cleanup(&mut txn, &mut reader, key.clone(), TimeStamp::new(110 << 18), false).unwrap_err();
    assert!(matches!(err, Error::KeyIsDaggered { ref key, ref dagger } if key == b"k" && dagger.ts == start_ts));
    assert!(txn.modifies.is_empty());
    // It has at a later one.
    let released = cleanup(&mut txn, &mut reader, key.clone(), TimeStamp::new(111 << 18), false).unwrap();
    assert_eq!(released, Some(ReleasedDagger::new(&key, false)));
    assert_eq!(
        txn.into_modifies(),
        vec![
            Modify::Delete(CF_DEFAULT, key.clone().append_ts(start_ts)),
            Modify::Put(CF_WRITE, key.clone().append_ts(start_ts), Write::new_rollback(start_ts, false).to_bytes()),
            Modify::Delete(CF_LOCK, key.clone()),
        ]
    );

    // A rollback that is not protected collapses the one before.
    let mut engine = Engine::new();
    must_rollback(&mut engine, b"k", 5, false);
    must_prewrite_put(&mut engine, b"k", b"v", b"k", 9);
    let dagger = must_daggered(&engine, b"k", 9);
    let mut txn = EpaxosTxn::new(9.into(), ConcurrencyManager::new(9.into()));
    let mut reader = blackbraneReader::new(9.into(), engine.blackbrane(), true);
    rollback_dagger(&mut txn, &mut reader, key.clone(), &dagger, false, true).unwrap();
    assert_eq!(
        txn.into_modifies(),
        vec![
            Modify::Put(CF_WRITE, key.clone().append_ts(9.into()), vec![b'R', 9]),
            Modify::Delete(CF_WRITE, key.clone().append_ts(5.into())),
            Modify::Delete(CF_LOCK, key.clone()),
        ]
    );
    let mut txn = EpaxosTxn::new(9.into(), ConcurrencyManager::new(9.into()));
    collapse_prev_rollback(&mut txn, &mut reader, &key).unwrap();
    assert_eq!(txn.into_modifies(), vec![Modify::Delete(CF_WRITE, key.clone().append_ts(5.into()))]);

    // A protected rollback is marked on the async-commit dagger of another
    // transaction, which could commit at the same timestamp.
    let mut engine = Engine::new();
    must_prewrite_put_async_commit(&mut engine, b"k", b"v", b"k", &Some(vec![]), 10, 11);
    let other = must_daggered(&engine, b"k", 10);
    let mut txn = EpaxosTxn::new(15.into(), ConcurrencyManager::new(15.into()));
    let mut reader = blackbraneReader::new(15.into(), engine.blackbrane(), true);
    let status = check_solitontxn_status_missing_dagger(
        &mut txn,
        &mut reader,
        key.clone(),
        Some(other.clone()),
        MissingDaggerAction::rollback_protect(true),
    )
    .unwrap();
    assert_eq!(status, TxnStatus::DaggerNotExist);
    let marked = other.clone().with_rollback_ts(vec![15.into()]);
    assert_eq!(
        txn.into_modifies(),
        vec![
            Modify::Put(CF_LOCK, key.clone(), marked.to_bytes()),
            Modify::Put(CF_WRITE, key.clone().append_ts(15.into()), Write::new_rollback(15.into(), true).to_bytes()),
        ]
    );

    assert!(MissingDaggerAction::Rollback.collapse_rollback());
    assert!(!MissingDaggerAction::ProtectedRollback.collapse_rollback());
    assert_eq!(
        MissingDaggerAction::Rollback.construct_write(3.into(), None),
        Some(Write::new_rollback(3.into(), false))
    );
    let overlapped = || OverlappedWrite {
        write: Write::new(WriteType::Put, 1.into(), None),
        gc_fence: 9.into(),
    };
    assert_eq!(make_rollback(3.into(), false, Some(overlapped())), None);
    assert_eq!(
        make_rollback(3.into(), true, Some(overlapped())),
        Some(Write::new(WriteType::Put, 1.into(), None).set_overlapped_rollback(true, Some(9.into())))
    );
}

#[test]
fn prewrite_action_errors() {
    let props = |start_ts: u64, kind: TransactionKind| TransactionProperties {
        start_ts: start_ts.into(),
        kind,
        commit_kind: CommitKind::TwoPc,
        primary: b"pk".to_vec(),
        solitontxn_size: 0,
        dagger_ttl: 5,
        min_commit_ts: 0.into(),
        need_old_value: true,
        is_retry_request: false,
    };
    let mut engine = Engine::new();
    must_prewrite_put(&mut engine, b"k", b"v", b"k", 5);
    must_commit(&mut engine, b"k", 5, 8);
    must_acquire_pessimistic_dagger(&mut engine, b"p", b"p", 20, 20);
    must_prewrite_put_impl(&mut engine, b"d", b"v", b"d", &None, 20, false, 77, 0, 0, 0, 0, false);
    let run = |engine: &Engine, p: &TransactionProperties, m: Mutation, pessimistic: bool| {
        let mut txn = EpaxosTxn::new(p.start_ts, ConcurrencyManager::new(1.into()));
        let mut reader = blackbraneReader::new(p.start_ts, engine.blackbrane(), true);
        let res = prewrite(&mut txn, &mut reader, p, m, &None, pessimistic);
        (res, txn)
    };
    let key = |raw: &[u8]| Key::from_cocauset(raw);

    let (res, txn) = run(&engine, &props(6, TransactionKind::Optimistic(false)), Mutation::make_put(key(b"k"), b"x".to_vec()), false);
    assert_eq!(
        res,
        Err(Error::WriteConflict {
            start_ts: 6.into(),
            conflict_start_ts: 5.into(),
            conflict_commit_ts: 8.into(),
            key: b"k".to_vec(),
            primary: b"pk".to_vec(),
        })
    );
    assert!(txn.modifies.is_empty());

    let (res, txn) = run(&engine, &props(9, TransactionKind::Optimistic(false)), Mutation::make_insert(key(b"k"), b"x".to_vec()), false);
    assert_eq!(res, Err(Error::AlreadyExist { key: b"k".to_vec() }));
    // An insert reads the key at the start timestamp.
    assert_eq!(txn.concurrency_manager.max_ts(), TimeStamp::new(9));

    let (res, _) = run(&engine, &props(9, TransactionKind::Pessimistic(9.into())), Mutation::make_check_not_exists(key(b"k")), false);
    assert_eq!(res, Err(Error::CheckNotExistsInPessimisticPrewrite));

    let (res, _) = run(&engine, &props(9, TransactionKind::Optimistic(false)), Mutation::make_put(key(b"d"), b"x".to_vec()), false);
    assert!(matches!(res, Err(Error::KeyIsDaggered { ref key, ref dagger }) if key == b"d" && dagger.ttl == 77));
    // A pessimistic transaction is told not to wait.
    let (res, _) = run(&engine, &props(9, TransactionKind::Pessimistic(9.into())), Mutation::make_put(key(b"d"), b"x".to_vec()), false);
    assert!(matches!(res, Err(Error::KeyIsDaggered { ref dagger, .. }) if dagger.ttl == 0));
    let (res, _) = run(&engine, &props(9, TransactionKind::Pessimistic(9.into())), Mutation::make_put(key(b"d"), b"x".to_vec()), true);
    assert_eq!(res, Err(Error::PessimisticDaggerNotFound { start_ts: 9.into(), key: b"d".to_vec() }));

    let (res, _) = run(&engine, &props(20, TransactionKind::Optimistic(false)), Mutation::make_put(key(b"p"), b"x".to_vec()), false);
    assert_eq!(
        res,
        Err(Error::DaggerTypeNotMatch { start_ts: 20.into(), key: b"p".to_vec(), pessimistic: true })
    );

    // The prewrite that goes through: the old value is read, a long value
    // is stored beside the dagger.
    let long = vec![b'x'; 256];
    let (res, txn) = run(&engine, &props(9, TransactionKind::Optimistic(false)), Mutation::make_put(key(b"k"), long.clone()), false);
    assert_eq!(res, Ok((TimeStamp::zero(), OldValue::Value { value: b"v".to_vec() })));
    assert_eq!(
        txn.into_modifies(),
        vec![
            Modify::Put(CF_DEFAULT, key(b"k").append_ts(9.into()), long),
            Modify::Put(
                CF_LOCK,
                key(b"k"),
                Dagger::new(DaggerType::Put, b"pk".to_vec(), 9.into(), 5, None, 0.into(), 0, 0.into()).to_bytes()
            ),
        ]
    );
    // Done before: nothing is staged again.
    let (res, txn) = run(&engine, &props(20, TransactionKind::Optimistic(false)), Mutation::make_put(key(b"d"), b"v".to_vec()), false);
    assert_eq!(res, Ok((TimeStamp::zero(), OldValue::Unspecified)));
    assert!(txn.modifies.is_empty());

    let mut reader = blackbraneReader::new(9.into(), engine.blackbrane(), true);
    let put = Write::new(WriteType::Put, 5.into(), None);
    assert_eq!(
        check_data_constraint(&mut reader, true, &put, 8.into(), &key(b"k")),
        Err(Error::AlreadyExist { key: b"k".to_vec() })
    );
    assert_eq!(check_data_constraint(&mut reader, false, &put, 8.into(), &key(b"k")), Ok(()));
    let gone = Write::new(WriteType::Delete, 5.into(), None);
    assert_eq!(check_data_constraint(&mut reader, true, &gone, 8.into(), &key(b"k")), Ok(()));
}

#[test]
fn least_commit_timestamps() {
    let engine = Engine::new();
    let props = |commit_kind: CommitKind, kind: TransactionKind, min_commit_ts: u64| TransactionProperties {
        start_ts: 20.into(),
        kind,
        commit_kind,
        primary: b"k".to_vec(),
        solitontxn_size: 1,
        dagger_ttl: 0,
        min_commit_ts: min_commit_ts.into(),
        need_old_value: false,
        is_retry_request: false,
    };
    let run = |p: &TransactionProperties, max_ts: u64, secondaries: &Option<Vec<Vec<u8>>>| {
        let mut txn = EpaxosTxn::new(p.start_ts, ConcurrencyManager::new(max_ts.into()));
        let mut reader = blackbraneReader::new(p.start_ts, engine.blackbrane(), true);
        let m = Mutation::make_put(Key::from_cocauset(b"k"), b"v".to_vec());
        let res = prewrite(&mut txn, &mut reader, p, m, secondaries, false);
        (res.map(|(ts, _)| ts.into_inner()), txn)
    };
    let optimistic = TransactionKind::Optimistic(false);
    let dagger = |min_commit_ts: u64, for_update_ts: u64| {
        Dagger::new(DaggerType::Put, b"k".to_vec(), 20.into(), 0, Some(b"v".to_vec()), for_update_ts.into(), 1, min_commit_ts.into())
    };

    // In two phases there is none.
    let (res, txn) = run(&props(CommitKind::TwoPc, optimistic, 9), 50, &None);
    assert_eq!(res, Ok(0));
    assert!(txn.guards.is_empty());

    // After every timestamp that the node has seen.
    let (res, txn) = run(&props(CommitKind::Async(0.into()), optimistic, 0), 50, &Some(vec![b"s".to_vec()]));
    assert_eq!(res, Ok(51));
    let staged = dagger(51, 0).use_async_commit(vec![b"s".to_vec()]);
    assert_eq!(txn.guards.len(), 1);
    assert_eq!(txn.guards[0].dagger, staged);
    assert_eq!(txn.guards[0].key, Key::from_cocauset(b"k"));
    assert_eq!(txn.into_modifies(), vec![Modify::Put(CF_LOCK, Key::from_cocauset(b"k"), staged.to_bytes())]);

    // After the start of the transaction, and after the timestamp of its
    // pessimistic daggers.
    let (res, _) = run(&props(CommitKind::Async(0.into()), optimistic, 0), 7, &Some(vec![]));
    assert_eq!(res, Ok(21));
    let (res, _) = run(&props(CommitKind::Async(0.into()), TransactionKind::Pessimistic(33.into()), 0), 7, &Some(vec![]));
    assert_eq!(res, Ok(34));
    // Not before the least that the request asks for.
    let (res, _) = run(&props(CommitKind::Async(100.into()), optimistic, 70), 50, &Some(vec![]));
    assert_eq!(res, Ok(70));
    // Up to the limit.
    let (res, _) = run(&props(CommitKind::Async(51.into()), optimistic, 0), 50, &Some(vec![]));
    assert_eq!(res, Ok(51));

    // Over the limit: the dagger is staged as a plain one.
    let (res, txn) = run(&props(CommitKind::Async(50.into()), optimistic, 0), 50, &Some(vec![b"s".to_vec()]));
    assert_eq!(
        res,
        Err(Error::CommitTsTooLarge {
            start_ts: 20.into(),
            min_commit_ts: 51.into(),
            max_commit_ts: 50.into()
        })
    );
    assert!(txn.guards.is_empty());
    assert_eq!(
        txn.into_modifies(),
        vec![Modify::Put(CF_LOCK, Key::from_cocauset(b"k"), dagger(0, 0).to_bytes())]
    );

    // For a commit in one phase the dagger is kept back.
    let (res, txn) = run(&props(CommitKind::OnePc(0.into()), optimistic, 0), 50, &None);
    assert_eq!(res, Ok(51));
    assert!(txn.modifies.is_empty());
    assert_eq!(txn.daggers_for_1pc, vec![(Key::from_cocauset(b"k"), dagger(51, 0), false)]);
    let (res, txn) = run(&props(CommitKind::OnePc(30.into()), optimistic, 0), 50, &None);
    assert!(matches!(res, Err(Error::CommitTsTooLarge { .. })));
    assert!(txn.daggers_for_1pc.is_empty());
    assert_eq!(txn.modifies.len(), 1);

    // A mutation that only checks gets its timestamp from the request.
    let mut txn = EpaxosTxn::new(20.into(), ConcurrencyManager::new(50.into()));
    let mut reader = blackbraneReader::new(20.into(), engine.blackbrane(), true);
    let m = Mutation::make_check_not_exists(Key::from_cocauset(b"k"));
    let res = prewrite(&mut txn, &mut reader, &props(CommitKind::Async(0.into()), optimistic, 0), m, &Some(vec![]), false);
    assert_eq!(res, Ok((TimeStamp::new(21), OldValue::Unspecified)));
    assert!(txn.modifies.is_empty());
}

#[test]
fn acquire_pessimistic_dagger_errors() {
    let mut engine = Engine::new();
    must_prewrite_put(&mut engine, b"k", b"v", b"k", 5);
    must_commit(&mut engine, b"k", 5, 8);
    must_prewrite_put(&mut engine, b"d", b"v", b"d", 20);
    must_rollback(&mut engine, b"r", 30, true);
    let run = |engine: &Engine, raw: &[u8], start_ts: u64, for_update_ts: u64, should_not_exist: bool| {
        let mut txn = EpaxosTxn::new(start_ts.into(), ConcurrencyManager::new(1.into()));
        let mut reader = blackbraneReader::new(start_ts.into(), engine.blackbrane(), true);
        let res = acquire_pessimistic_dagger(
            &mut txn,
            &mut reader,
            Key::from_cocauset(raw),
            b"pk",
            should_not_exist,
            9,
            for_update_ts.into(),
            0.into(),
        );
        (res, txn)
    };
    let (res, txn) = run(&engine, b"k", 6, 7, false);
    assert_eq!(
        res,
        Err(Error::WriteConflict {
            start_ts: 6.into(),
            conflict_start_ts: 5.into(),
            conflict_commit_ts: 8.into(),
            key: b"k".to_vec(),
            primary: b"pk".to_vec(),
        })
    );
    assert!(txn.modifies.is_empty());
    let (res, txn) = run(&engine, b"k", 6, 9, true);
    assert_eq!(res, Err(Error::AlreadyExist { key: b"k".to_vec() }));
    assert_eq!(txn.concurrency_manager.max_ts(), TimeStamp::new(9));
    let (res, _) = run(&engine, b"d", 6, 9, false);
    assert!(matches!(res, Err(Error::KeyIsDaggered { .. })));
    let (res, _) = run(&engine, b"d", 20, 21, false);
    assert_eq!(
        res,
        Err(Error::DaggerTypeNotMatch { start_ts: 20.into(), key: b"d".to_vec(), pessimistic: false })
    );
    let (res, _) = run(&engine, b"r", 30, 31, false);
    assert_eq!(
        res,
        Err(Error::PessimisticDaggerRolledBack { start_ts: 30.into(), key: b"r".to_vec() })
    );
    let (res, txn) = run(&engine, b"k", 6, 9, false);
    assert_eq!(res, Ok(()));
    assert_eq!(
        txn.into_modifies(),
        vec![Modify::PessimisticDagger(
            Key::from_cocauset(b"k"),
            PessimisticDagger {
                primary: b"pk".to_vec(),
                start_ts: 6.into(),
                ttl: 9,
                for_update_ts: 9.into(),
                min_commit_ts: 0.into(),
            }
        )]
    );
}

#[test]
fn staging_area() {
    let mut txn = EpaxosTxn::new(5.into(), ConcurrencyManager::new(3.into()));
    let key = Key::from_cocauset(b"k");
    let dagger = Dagger::new(DaggerType::Put, b"k".to_vec(), 9.into(), 0, None, 0.into(), 0, 4.into())
        .use_async_commit(vec![]);
    txn.put_value(key.clone(), 5.into(), b"long".to_vec());
    txn.delete_value(key.clone(), 5.into());
    txn.put_write(key.clone(), 6.into(), vec![b'P', 5]);
    txn.delete_write(key.clone(), 6.into());
    txn.put_dagger(key.clone(), &dagger);
    assert_eq!(txn.undagger_key(key.clone(), true), Some(ReleasedDagger { key: key.clone(), pessimistic: true }));
    // Not protected, too early, or not an async-commit dagger: no mark.
    txn.mark_rollback_on_mismatching_dagger(&key, dagger.clone(), false);
    assert_eq!(txn.modifies.len(), 6);
    txn.mark_rollback_on_mismatching_dagger(&key, dagger.clone(), true);
    assert_eq!(
        txn.modifies[6],
        Modify::Put(CF_LOCK, key.clone(), dagger.clone().with_rollback_ts(vec![5.into()]).to_bytes())
    );
    let later = Dagger::new(DaggerType::Put, b"k".to_vec(), 9.into(), 0, None, 0.into(), 0, 6.into())
        .use_async_commit(vec![]);
    txn.mark_rollback_on_mismatching_dagger(&key, later, true);
    let plain = Dagger::new(DaggerType::Put, b"k".to_vec(), 9.into(), 0, None, 0.into(), 0, 4.into());
    txn.mark_rollback_on_mismatching_dagger(&key, plain, true);
    assert_eq!(txn.modifies.len(), 7);
    assert_eq!(
        &txn.modifies[..4],
        &[
            Modify::Put(CF_DEFAULT, key.clone().append_ts(5.into()), b"long".to_vec()),
            Modify::Delete(CF_DEFAULT, key.clone().append_ts(5.into())),
            Modify::Put(CF_WRITE, key.clone().append_ts(6.into()), vec![b'P', 5]),
            Modify::Delete(CF_WRITE, key.clone().append_ts(6.into())),
        ]
    );
    assert_eq!(txn.modifies[4].clone(), txn.modifies[4]);
    txn.put_daggers_for_1pc(key.clone(), dagger.clone(), false);
    assert!(txn.take_guards().is_empty());
    txn.clear();
    assert!(txn.modifies.is_empty() && txn.daggers_for_1pc.is_empty());
    assert_eq!(txn.start_ts, TimeStamp::new(5));

    let mut cm = ConcurrencyManager::new(3.into());
    cm.update_max_ts(2.into());
    assert_eq!(cm.max_ts(), TimeStamp::new(3));
    cm.update_max_ts(TimeStamp::max());
    assert_eq!(cm.max_ts(), TimeStamp::new(3));
    cm.update_max_ts(8.into());
    assert_eq!(cm.max_ts(), TimeStamp::new(8));

    let mut released = ReleasedDaggers::new(5.into(), 0.into());
    assert!(released.is_empty());
    released.push(None);
    released.push(Some(ReleasedDagger::new(&key, false)));
    released.push(Some(ReleasedDagger::new(&key, true)));
    released.push(Some(ReleasedDagger::new(&key, false)));
    assert_eq!(released.keys.len(), 3);
    assert!(released.pessimistic);

    let mut old_values = OldValues::new();
    old_values.insert(key.clone(), OldValue::NoValue, Some(MutationType::Put));
    old_values.insert(Key::from_cocauset(b"j"), OldValue::Unspecified, None);
    old_values.insert(key.clone(), OldValue::ValueTimeStamp { start_ts: 3.into() }, None);
    assert_eq!(old_values.len(), 2);
    assert_eq!(old_values.get(&key), Some(&OldValue::ValueTimeStamp { start_ts: 3.into() }));
    assert_eq!(old_values.get(&Key::from_cocauset(b"i")), None);

    let mut data = WriteData::default();
    assert!(data.modifies.is_empty());
    assert_eq!(data.disk_full_opt, DiskFullOpt::NotAllowedOnFull);
    data.set_allowed_on_disk_almost_full();
    assert_eq!(data.disk_full_opt, DiskFullOpt::AllowedOnAlmostFull);
    data.set_disk_full_opt(DiskFullOpt::AllowedOnAlreadyFull);
    assert_eq!(data.disk_full_opt, DiskFullOpt::AllowedOnAlreadyFull);

    let m = Mutation::make_insert(key.clone(), b"v".to_vec());
    assert_eq!(m.clone(), m);
    assert_eq!(m.key(), &key);
    assert_eq!(m.mutation_type(), MutationType::Insert);
    assert!(m.should_not_exists() && !m.should_not_write());
    assert_eq!(m.dagger_type(), Some(DaggerType::Put));
    assert_eq!(m.into_key_value(), (key.clone(), Some(b"v".to_vec())));
    let m = Mutation::make_check_not_exists(key.clone());
    assert!(m.should_not_exists() && m.should_not_write());
    assert_eq!(m.dagger_type(), None);
    assert_eq!(m.mutation_type(), MutationType::Other);
    assert!(OldValue::NoValue.resolved());
    assert!(!OldValue::Unspecified.resolved());

    let record = TxnCommitRecord::SingleRecord { commit_ts: 9.into(), write: Write::new_rollback(9.into(), false) };
    assert!(record.exist());
    assert_eq!(record.info(), Some((TimeStamp::new(9), WriteType::Rollback)));
    assert_eq!(TxnCommitRecord::NoRecord { overlapped_write: None }.info(), None);
}
