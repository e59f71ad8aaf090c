use einsteindb::acquire::acquire_pessimistic_dagger;
use einsteindb::actions::{cleanup, commit};
use einsteindb::commands::cleanup::Cleanup;
use einsteindb::commands::rollback::Rollback;
use einsteindb::commands::{ProcessResult, ResponsePolicy, WriteContext};
use einsteindb::context::{Context, DiskFullOpt, ExtraOp};
use einsteindb::dagger::{Dagger, DaggerType};
use einsteindb::error::Error;
use einsteindb::key::Key;
use einsteindb::kv::{Engine, CF_WRITE};
use einsteindb::mutation::Mutation;
use einsteindb::prewrite::{prewrite, CommitKind, TransactionKind, TransactionProperties};
use einsteindb::reader::{blackbraneReader, EpaxosReader, TxnCommitRecord};
use einsteindb::timestamp::TimeStamp;
use einsteindb::txn::{ConcurrencyManager, EpaxosTxn};
use einsteindb::write::{Write, WriteType};

#[allow(dead_code)]
fn must_prewrite_put_impl(
    engine: &mut Engine,
    key: &[u8],
    value: &[u8],
    pk: &[u8],
    secondary_keys: &Option<Vec<Vec<u8>>>,
    ts: u64,
    is_pessimistic_dagger: bool,
    dagger_ttl: u64,
    for_update_ts: u64,
    solitontxn_size: u64,
    min_commit_ts: u64,
    max_commit_ts: u64,
    is_retry_request: bool,
) {
    let ts = TimeStamp::new(ts);
    let for_update_ts = TimeStamp::new(for_update_ts);
    let cm = ConcurrencyManager::new(ts);
    let mut txn = EpaxosTxn::new(ts, cm);
    let mut reader = blackbraneReader::new(ts, engine.blackbrane(), true);

    let mutation = Mutation::make_put(Key::from_cocauset(key), value.to_vec());
    let kind = if for_update_ts.is_zero() {
        TransactionKind::Optimistic(false)
    } else {
        TransactionKind::Pessimistic(for_update_ts)
    };
    let commit_kind = if secondary_keys.is_some() {
        CommitKind::Async(TimeStamp::new(max_commit_ts))
    } else {
        CommitKind::TwoPc
    };
    prewrite(
        &mut txn,
        &mut reader,
        &TransactionProperties {
            start_ts: ts,
            kind,
            commit_kind,
            primary: pk.to_vec(),
            solitontxn_size,
            dagger_ttl,
            min_commit_ts: TimeStamp::new(min_commit_ts),
            need_old_value: false,
            is_retry_request,
        },
        mutation,
        secondary_keys,
        is_pessimistic_dagger,
    )
    .unwrap();
    engine.write(txn.into_modifies());
}

#[allow(dead_code)]
fn must_prewrite_put(engine: &mut Engine, key: &[u8], value: &[u8], pk: &[u8], ts: u64) {
    must_prewrite_put_impl(engine, key, value, pk, &None, ts, false, 0, 0, 0, 0, 0, false);
}

#[allow(dead_code)]
fn must_pessimistic_prewrite_put(
    engine: &mut Engine,
    key: &[u8],
    value: &[u8],
    pk: &[u8],
    ts: u64,
    for_update_ts: u64,
    is_pessimistic_dagger: bool,
) {
    must_prewrite_put_impl(
        engine,
        key,
        value,
        pk,
        &None,
        ts,
        is_pessimistic_dagger,
        0,
        for_update_ts,
        0,
        0,
        0,
        false,
    );
}

#[allow(dead_code)]
fn must_prewrite_put_async_commit(
    engine: &mut Engine,
    key: &[u8],
    value: &[u8],
    pk: &[u8],
    secondary_keys: &Option<Vec<Vec<u8>>>,
    ts: u64,
    min_commit_ts: u64,
) {
    assert!(secondary_keys.is_some());
    must_prewrite_put_impl(
        engine,
        key,
        value,
        pk,
        secondary_keys,
        ts,
        false,
        100,
        0,
        0,
        min_commit_ts,
        0,
        false,
    );
}

#[allow(dead_code)]
fn must_pessimistic_prewrite_put_async_commit(
    engine: &mut Engine,
    key: &[u8],
    value: &[u8],
    pk: &[u8],
    secondary_keys: &Option<Vec<Vec<u8>>>,
    ts: u64,
    for_update_ts: u64,
    is_pessimistic_dagger: bool,
    min_commit_ts: u64,
) {
    assert!(secondary_keys.is_some());
    must_prewrite_put_impl(
        engine,
        key,
        value,
        pk,
        secondary_keys,
        ts,
        is_pessimistic_dagger,
        100,
        for_update_ts,
        0,
        min_commit_ts,
        0,
        false,
    );
}

#[allow(dead_code)]
fn must_prewrite_delete(engine: &mut Engine, key: &[u8], pk: &[u8], ts: u64) {
    let ts = TimeStamp::new(ts);
    let cm = ConcurrencyManager::new(ts);
    let mut txn = EpaxosTxn::new(ts, cm);
    let mut reader = blackbraneReader::new(ts, engine.blackbrane(), true);
    let mutation = Mutation::make_delete(Key::from_cocauset(key));
    prewrite(
        &mut txn,
        &mut reader,
        &TransactionProperties {
            start_ts: ts,
            kind: TransactionKind::Optimistic(false),
            commit_kind: CommitKind::TwoPc,
            primary: pk.to_vec(),
            solitontxn_size: 0,
            dagger_ttl: 0,
            min_commit_ts: TimeStamp::zero(),
            need_old_value: false,
            is_retry_request: false,
        },
        mutation,
        &None,
        false,
    )
    .unwrap();
    engine.write(txn.into_modifies());
}

#[allow(dead_code)]
fn must_acquire_pessimistic_dagger(
    engine: &mut Engine,
    key: &[u8],
    pk: &[u8],
    start_ts: u64,
    for_update_ts: u64,
) {
    let start_ts = TimeStamp::new(start_ts);
    let for_update_ts = TimeStamp::new(for_update_ts);
    let cm = ConcurrencyManager::new(TimeStamp::zero());
    let mut txn = EpaxosTxn::new(start_ts, cm);
    let mut reader = blackbraneReader::new(start_ts, engine.blackbrane(), true);
    acquire_pessimistic_dagger(
        &mut txn,
        &mut reader,
        Key::from_cocauset(key),
        pk,
        false,
        0,
        for_update_ts,
        TimeStamp::zero(),
    )
    .unwrap();
    let modifies = txn.into_modifies();
    if !modifies.is_empty() {
        engine.write(modifies);
    }
}

#[allow(dead_code)]
fn must_commit(engine: &mut Engine, key: &[u8], start_ts: u64, commit_ts: u64) {
    let start_ts = TimeStamp::new(start_ts);
    let cm = ConcurrencyManager::new(start_ts);
    let mut txn = EpaxosTxn::new(start_ts, cm);
    let mut reader = blackbraneReader::new(start_ts, engine.blackbrane(), true);
    commit(&mut txn, &mut reader, Key::from_cocauset(key), TimeStamp::new(commit_ts)).unwrap();
    engine.write(txn.into_modifies());
}

#[allow(dead_code)]
fn must_rollback(engine: &mut Engine, key: &[u8], start_ts: u64, protect_rollback: bool) {
    let start_ts = TimeStamp::new(start_ts);
    let cm = ConcurrencyManager::new(start_ts);
    let mut txn = EpaxosTxn::new(start_ts, cm);
    let mut reader = blackbraneReader::new(start_ts, engine.blackbrane(), true);
    cleanup(
        &mut txn,
        &mut reader,
        Key::from_cocauset(key),
        TimeStamp::zero(),
        protect_rollback,
    )
    .unwrap();
    engine.write(txn.into_modifies());
}

#[allow(dead_code)]
fn must_daggered(engine: &Engine, key: &[u8], start_ts: u64) -> Dagger {
    let mut reader = EpaxosReader::new(engine.blackbrane(), None, true);
    let dagger = reader.load_dagger(&Key::from_cocauset(key)).unwrap().unwrap();
    assert_eq!(dagger.ts, TimeStamp::new(start_ts));
    assert_ne!(dagger.dagger_type, DaggerType::Pessimistic);
    dagger
}

#[allow(dead_code)]
fn must_pessimistic_daggered(engine: &Engine, key: &[u8], start_ts: u64, for_update_ts: u64) {
    let mut reader = EpaxosReader::new(engine.blackbrane(), None, true);
    let dagger = reader.load_dagger(&Key::from_cocauset(key)).unwrap().unwrap();
    assert_eq!(dagger.ts, TimeStamp::new(start_ts));
    assert_eq!(dagger.for_update_ts, TimeStamp::new(for_update_ts));
    assert_eq!(dagger.dagger_type, DaggerType::Pessimistic);
}

#[allow(dead_code)]
fn must_undaggered(engine: &Engine, key: &[u8]) {
    let mut reader = EpaxosReader::new(engine.blackbrane(), None, true);
    assert!(reader.load_dagger(&Key::from_cocauset(key)).unwrap().is_none());
}

#[allow(dead_code)]
fn must_get(engine: &Engine, key: &[u8], ts: u64, expect: &[u8]) {
    let ts = TimeStamp::new(ts);
    let mut reader = blackbraneReader::new(ts, engine.blackbrane(), true);
    let key = Key::from_cocauset(key);
    assert_eq!(reader.get(&key, ts).unwrap().unwrap(), expect);
}

#[allow(dead_code)]
fn must_get_commit_ts(engine: &Engine, key: &[u8], start_ts: u64, commit_ts: u64) {
    let mut reader = blackbraneReader::new(TimeStamp::new(start_ts), engine.blackbrane(), true);
    let (ts, write_type) = reader
        .get_solitontxn_commit_record(&Key::from_cocauset(key))
        .unwrap()
        .info()
        .unwrap();
    assert_ne!(write_type, WriteType::Rollback);
    assert_eq!(ts, TimeStamp::new(commit_ts));
}

#[allow(dead_code)]
fn must_get_commit_ts_none(engine: &Engine, key: &[u8], start_ts: u64) {
    let mut reader = blackbraneReader::new(TimeStamp::new(start_ts), engine.blackbrane(), true);
    let ret = reader.get_solitontxn_commit_record(&Key::from_cocauset(key));
    assert!(ret.is_ok());
    match ret.unwrap().info() {
        None => {}
        Some((_, write_type)) => {
            assert_eq!(write_type, WriteType::Rollback);
        }
    }
}

#[allow(dead_code)]
fn must_seek_write(
    engine: &Engine,
    key: &[u8],
    ts: u64,
    start_ts: u64,
    commit_ts: TimeStamp,
    write_type: WriteType,
) {
    let mut reader = EpaxosReader::new(engine.blackbrane(), None, true);
    let (t, write) = reader
        .seek_write(&Key::from_cocauset(key), TimeStamp::new(ts))
        .unwrap()
        .unwrap();
    assert_eq!(t, commit_ts);
    assert_eq!(write.start_ts, TimeStamp::new(start_ts));
    assert_eq!(write.write_type, write_type);
}

fn rollback_command(engine: &mut Engine, keys: Vec<Key>, start_ts: u64) -> Result<(), Error> {
    let cmd = Rollback::new(keys, TimeStamp::new(start_ts), Context::new());
    let context = WriteContext {
        concurrency_manager: ConcurrencyManager::new(TimeStamp::new(start_ts)),
        extra_op: ExtraOp::Noop,
        async_apply_prewrite: false,
    };
    let ret = cmd.process_write(engine.blackbrane(), &context)?;
    engine.write(ret.to_be_write.modifies);
    Ok(())
}

#[test]
fn rollback_dagger_with_existing_rollback() {
    let mut engine = Engine::new();
    let (k1, k2) = (b"k1", b"k2");
    let v = b"v";

    must_acquire_pessimistic_dagger(&mut engine, k1, k1, 10, 10);
    must_rollback(&mut engine, k1, 10, false);
    must_rollback(&mut engine, k2, 10, false);

    must_pessimistic_prewrite_put(&mut engine, k2, v, k1, 10, 10, false);
    must_rollback(&mut engine, k2, 10, false);
}

#[test]
fn rollback_command_rolls_back_every_key() {
    let mut engine = Engine::new();
    must_prewrite_put(&mut engine, b"k1", b"v1", b"k1", 10);
    must_prewrite_put(&mut engine, b"k2", b"v2", b"k1", 10);
    must_daggered(&engine, b"k1", 10);

    let cmd = Rollback::new(
        vec![Key::from_cocauset(b"k1"), Key::from_cocauset(b"k2")],
        TimeStamp::new(10),
        Context::new(),
    );
    assert_eq!(cmd.write_bytes(), 18);
    let context = WriteContext {
        concurrency_manager: ConcurrencyManager::new(TimeStamp::new(10)),
        extra_op: ExtraOp::Noop,
        async_apply_prewrite: false,
    };
    let ret = cmd.process_write(engine.blackbrane(), &context).unwrap();
    assert_eq!(ret.rows, 2);
    assert_eq!(ret.pr, ProcessResult::Res);
    assert_eq!(ret.response_policy, ResponsePolicy::OnApplied);
    assert_eq!(ret.to_be_write.disk_full_opt, DiskFullOpt::AllowedOnAlmostFull);
    assert!(ret.dagger_guards.is_empty());
    let released = ret.released_daggers.unwrap();
    assert_eq!(released.keys, vec![Key::from_cocauset(b"k1"), Key::from_cocauset(b"k2")]);
    assert!(!released.pessimistic);
    // For each key: the rollback record, then the removal of the dagger.
    assert_eq!(ret.to_be_write.modifies.len(), 4);
    engine.write(ret.to_be_write.modifies);
    must_undaggered(&engine, b"k1");
    must_undaggered(&engine, b"k2");
    must_get_commit_ts_none(&engine, b"k1", 10);
    must_seek_write(&engine, b"k2", 20, 10, TimeStamp::new(10), WriteType::Rollback);
}

#[test]
fn rollback_of_committed_transaction_is_refused() {
    let mut engine = Engine::new();
    must_prewrite_put(&mut engine, b"k", b"v", b"k", 5);
    must_commit(&mut engine, b"k", 5, 8);
    let err = rollback_command(&mut engine, vec![Key::from_cocauset(b"k")], 5).unwrap_err();
    assert_eq!(
        err,
        Error::Committed {
            start_ts: TimeStamp::new(5),
            commit_ts: TimeStamp::new(8),
            key: b"k".to_vec(),
        }
    );
    // Nothing has changed.
    must_get_commit_ts(&engine, b"k", 5, 8);
}

#[test]
fn rollback_twice_is_no_error() {
    let mut engine = Engine::new();
    rollback_command(&mut engine, vec![Key::from_cocauset(b"k")], 7).unwrap();
    must_seek_write(&engine, b"k", 7, 7, TimeStamp::new(7), WriteType::Rollback);
    rollback_command(&mut engine, vec![Key::from_cocauset(b"k")], 7).unwrap();
    let snap = engine.blackbrane();
    assert_eq!(snap.cf(CF_WRITE).len(), 1);
}

#[test]
fn overlapped_rollback_collapses_into_the_commit_record() {
    // A commit at 40 and the rollback of another transaction that started
    // at 40 share one record.
    let mut engine = Engine::new();
    must_prewrite_put(&mut engine, b"k", b"v", b"k", 35);
    must_commit(&mut engine, b"k", 35, 40);
    must_rollback(&mut engine, b"k", 40, true);

    let snap = engine.blackbrane();
    assert_eq!(snap.cf(CF_WRITE).len(), 1);
    let mut reader = EpaxosReader::new(snap, None, true);
    let key = Key::from_cocauset(b"k");
    let record = reader.get_solitontxn_commit_record(&key, TimeStamp::new(40)).unwrap();
    assert_eq!(
        record,
        TxnCommitRecord::OverlappedRollback { commit_ts: TimeStamp::new(40) }
    );
    let (commit_ts, write) = reader.seek_write(&key, TimeStamp::new(40)).unwrap().unwrap();
    assert_eq!(commit_ts, TimeStamp::new(40));
    assert_eq!(
        write,
        Write::new(WriteType::Put, TimeStamp::new(35), Some(b"v".to_vec()))
            .set_overlapped_rollback(true, Some(TimeStamp::zero()))
    );
    // The commit itself is still found.
    must_get_commit_ts(&engine, b"k", 35, 40);
}

#[test]
fn cleanup_command() {
    let mut engine = Engine::new();
    must_prewrite_put_impl(&mut engine, b"k", b"v", b"k", &None, 10 << 18, false, 100, 0, 0, 0, 0, false);
    let start_ts = TimeStamp::new(10 << 18);
    let key = Key::from_cocauset(b"k");
    let mut context = WriteContext {
        concurrency_manager: ConcurrencyManager::new(TimeStamp::new(5)),
        extra_op: ExtraOp::Noop,
        async_apply_prewrite: false,
    };

    // The dagger is alive.
    let cmd = Cleanup::new(key.clone(), start_ts, TimeStamp::new(50 << 18), Context::new());
    assert_eq!(cmd.write_bytes(), 9);
    let err = cmd.process_write(engine.blackbrane(), &mut context).unwrap_err();
    assert!(matches!(err, Error::KeyIsDaggered { .. }));
    // The node has taken in the start timestamp all the same.
    assert_eq!(context.concurrency_manager.max_ts(), start_ts);

    // It has outlived its time.
    let cmd = Cleanup::new(key.clone(), start_ts, TimeStamp::new(111 << 18), Context::new());
    let ret = cmd.process_write(engine.blackbrane(), &mut context).unwrap();
    assert_eq!(ret.rows, 1);
    assert_eq!(ret.pr, ProcessResult::Res);
    assert_eq!(ret.to_be_write.disk_full_opt, DiskFullOpt::AllowedOnAlmostFull);
    assert_eq!(ret.released_daggers.unwrap().keys, vec![key.clone()]);
    // The rollback record is written as it is for an optimistic
    // transaction, and none before it is collapsed.
    assert_eq!(
        ret.to_be_write.modifies,
        vec![
            einsteindb::kv::Modify::Put(
                CF_WRITE,
                key.clone().append_ts(start_ts),
                Write::new_rollback(start_ts, false).to_bytes()
            ),
            einsteindb::kv::Modify::Delete(einsteindb::kv::CF_LOCK, key.clone()),
        ]
    );
    engine.write(ret.to_be_write.modifies);
    must_undaggered(&engine, b"k");

    // With no dagger and no record: a protected rollback record.
    let cmd = Cleanup::new(Key::from_cocauset(b"j"), 7.into(), TimeStamp::zero(), Context::new());
    let ret = cmd.process_write(engine.blackbrane(), &mut context).unwrap();
    assert!(ret.released_daggers.unwrap().is_empty());
    assert_eq!(
        ret.to_be_write.modifies,
        vec![einsteindb::kv::Modify::Put(
            CF_WRITE,
            Key::from_cocauset(b"j").append_ts(7.into()),
            Write::new_rollback(7.into(), true).to_bytes()
        )]
    );
}
