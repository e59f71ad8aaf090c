use einsteindb::acquire::acquire_pessimistic_dagger;
use einsteindb::actions::{cleanup, commit};
use einsteindb::dagger::{Dagger, DaggerType};
use einsteindb::error::Error;
use einsteindb::key::Key;
use einsteindb::kv::{
    Cursor, Engine, IterOptions, Modify, SentinelSearchMode, Snapshot, CF_DEFAULT, CF_WRITE,
};
use einsteindb::mutation::{Mutation, OldValue};
use einsteindb::prewrite::{prewrite, CommitKind, TransactionKind, TransactionProperties};
use einsteindb::reader::{blackbraneReader, EpaxosReader};
use einsteindb::timestamp::TimeStamp;
use einsteindb::txn::{ConcurrencyManager, EpaxosTxn};
use einsteindb::write::{Write, WriteType, SHORT_VALUE_MAX_LEN};

struct Store {
    engine: Engine,
}

#[allow(dead_code)]
impl Store {
    fn new() -> Store {
        Store { engine: Engine::new() }
    }

    fn snapshot(&self) -> Snapshot {
        self.engine.blackbrane()
    }

    fn write(&mut self, modifies: Vec<Modify>) {
        self.engine.write(modifies);
    }

    fn props(start_ts: TimeStamp, primary: &[u8], pessimistic: bool) -> TransactionProperties {
        let kind = if pessimistic {
            TransactionKind::Pessimistic(TimeStamp::zero())
        } else {
            TransactionKind::Optimistic(false)
        };
        TransactionProperties {
            start_ts,
            kind,
            commit_kind: CommitKind::TwoPc,
            primary: primary.to_vec(),
            solitontxn_size: 0,
            dagger_ttl: 0,
            min_commit_ts: TimeStamp::zero(),
            need_old_value: false,
            is_retry_request: false,
        }
    }

    fn put(&mut self, pk: &[u8], start_ts: u64, commit_ts: u64) {
        let m = Mutation::make_put(Key::from_cocauset(pk), vec![]);
        self.prewrite(m, pk, start_ts);
        self.commit(pk, start_ts, commit_ts);
    }

    fn dagger(&mut self, pk: &[u8], start_ts: u64, commit_ts: u64) {
        let m = Mutation::make_dagger(Key::from_cocauset(pk));
        self.prewrite(m, pk, start_ts);
        self.commit(pk, start_ts, commit_ts);
    }

    fn delete(&mut self, pk: &[u8], start_ts: u64, commit_ts: u64) {
        let m = Mutation::make_delete(Key::from_cocauset(pk));
        self.prewrite(m, pk, start_ts);
        self.commit(pk, start_ts, commit_ts);
    }

    fn prewrite(&mut self, m: Mutation, pk: &[u8], start_ts: u64) {
        let start_ts = TimeStamp::new(start_ts);
        let cm = ConcurrencyManager::new(start_ts);
        let mut txn = EpaxosTxn::new(start_ts, cm);
        let mut reader = blackbraneReader::new(start_ts, self.snapshot(), true);
        prewrite(&mut txn, &mut reader, &Self::props(start_ts, pk, false), m, &None, false).unwrap();
        self.write(txn.into_modifies());
    }

    fn prewrite_pessimistic_dagger(&mut self, m: Mutation, pk: &[u8], start_ts: u64) {
        let start_ts = TimeStamp::new(start_ts);
        let cm = ConcurrencyManager::new(start_ts);
        let mut txn = EpaxosTxn::new(start_ts, cm);
        let mut reader = blackbraneReader::new(start_ts, self.snapshot(), true);
        prewrite(&mut txn, &mut reader, &Self::props(start_ts, pk, true), m, &None, true).unwrap();
        self.write(txn.into_modifies());
    }

    fn acquire_pessimistic_dagger(&mut self, k: Key, pk: &[u8], start_ts: u64, for_update_ts: u64) {
        let for_update_ts = TimeStamp::new(for_update_ts);
        let cm = ConcurrencyManager::new(for_update_ts);
        let start_ts = TimeStamp::new(start_ts);
        let mut txn = EpaxosTxn::new(start_ts, cm);
        let mut reader = blackbraneReader::new(start_ts, self.snapshot(), true);
        acquire_pessimistic_dagger(&mut txn, &mut reader, k, pk, false, 0, for_update_ts, TimeStamp::zero())
            .unwrap();
        self.write(txn.into_modifies());
    }

    fn commit(&mut self, pk: &[u8], start_ts: u64, commit_ts: u64) {
        let start_ts = TimeStamp::new(start_ts);
        let cm = ConcurrencyManager::new(start_ts);
        let mut txn = EpaxosTxn::new(start_ts, cm);
        let mut reader = blackbraneReader::new(start_ts, self.snapshot(), true);
        commit(&mut txn, &mut reader, Key::from_cocauset(pk), TimeStamp::new(commit_ts)).unwrap();
        self.write(txn.into_modifies());
    }

    fn rollback(&mut self, pk: &[u8], start_ts: u64) {
        let start_ts = TimeStamp::new(start_ts);
        let cm = ConcurrencyManager::new(start_ts);
        let mut txn = EpaxosTxn::new(start_ts, cm);
        let mut reader = blackbraneReader::new(start_ts, self.snapshot(), true);
        cleanup(&mut txn, &mut reader, Key::from_cocauset(pk), TimeStamp::zero(), true).unwrap();
        self.write(txn.into_modifies());
    }

    // Removes the versions of a key that no read at or after the safe point
    // can see.
    fn gc(&mut self, pk: &[u8], safe_point: u64) {
        let key = Key::from_cocauset(pk);
        let safe_point = TimeStamp::new(safe_point);
        let mut txn = EpaxosTxn::new(safe_point, ConcurrencyManager::new(safe_point));
        let mut reader = EpaxosReader::new(self.snapshot(), None, true);
        let mut remove_older = false;
        let mut latest_delete = None;
        let mut ts = TimeStamp::max();
        while let Some((commit, write)) = reader.seek_write(&key, ts).unwrap() {
            let remove = |txn: &mut EpaxosTxn, commit: TimeStamp, write: &Write| {
                txn.delete_write(key.clone(), commit);
                if write.write_type == WriteType::Put && write.short_value.is_none() {
                    txn.delete_value(key.clone(), write.start_ts);
                }
            };
            if remove_older {
                remove(&mut txn, commit, &write);
            } else if commit <= safe_point {
                match write.write_type {
                    WriteType::Put => remove_older = true,
                    WriteType::Delete => {
                        remove_older = true;
                        latest_delete = Some(commit);
                    }
                    WriteType::Rollback | WriteType::Dagger => remove(&mut txn, commit, &write),
                }
            }
            if commit.is_zero() {
                break;
            }
            ts = commit.prev();
        }
        if let Some(commit) = latest_delete {
            txn.delete_write(key.clone(), commit);
        }
        self.write(txn.into_modifies());
    }
}

#[test]
fn test_ts_filter_lost_delete() {
    let mut engine = Store::new();

    let key1 = &[1];
    engine.put(key1, 2, 3);

    // Delete key 1 commit ts@5 and GC@6
    // Put key 2 commit ts@7
    let key2 = &[2];
    engine.put(key2, 6, 7);
    engine.delete(key1, 4, 5);
    engine.gc(key1, 6);

    // Walk the write records with the hint [1, 6].
    let iopt = IterOptions {
        fill_cache: true,
        prefix_seek: false,
        mutant_search_mode: SentinelSearchMode::Forward,
        hint_min_ts: Some(TimeStamp::new(1)),
        hint_max_ts: Some(TimeStamp::new(6)),
    };
    let snap = engine.snapshot();
    let cf = snap.cf(CF_WRITE);
    let mut iter = snap.iter_cf(CF_WRITE, iopt);
    assert_eq!(iter, Cursor::new(iopt));

    // The deletion of key1 must not be left out, or an outdated record
    // would be seen.
    assert_eq!(iter.seek_to_first(cf), true);
    assert_eq!(
        Key::from_encoded_slice(iter.key(cf)).to_cocauset().unwrap().as_slice(),
        key2
    );
    assert_eq!(iter.next(cf), false);
}

#[test]
fn test_get_solitontxn_commit_record() {
    let mut engine = Store::new();

    let (k, v) = (b"k", b"v");
    let m = Mutation::make_put(Key::from_cocauset(k), v.to_vec());
    engine.prewrite(m, k, 1);
    engine.commit(k, 1, 10);

    engine.rollback(k, 5);
    engine.rollback(k, 20);

    let m = Mutation::make_put(Key::from_cocauset(k), v.to_vec());
    engine.prewrite(m, k, 25);
    engine.commit(k, 25, 30);

    let m = Mutation::make_put(Key::from_cocauset(k), v.to_vec());
    engine.prewrite(m, k, 35);
    engine.commit(k, 35, 40);

    // Overlapped rollback on the commit record at 40.
    engine.rollback(k, 40);

    let m = Mutation::make_put(Key::from_cocauset(k), v.to_vec());
    engine.acquire_pessimistic_dagger(Key::from_cocauset(k), k, 45, 45);
    engine.prewrite_pessimistic_dagger(m, k, 45);
    engine.commit(k, 45, 50);

    let snap = engine.snapshot();
    let mut reader = EpaxosReader::new(snap, None, false);

    // Let's assume `50_45 PUT` means a commit version with start ts is 45 and commit ts
    // is 50.
    // Commit versions: [50_45 PUT, 45_40 PUT, 40_35 PUT, 30_25 PUT, 20_20 Rollback, 10_1 PUT, 5_5 Rollback].
    let key = Key::from_cocauset(k);
    let overlapped_write = reader
        .get_solitontxn_commit_record(&key, 55.into())
        .unwrap()
        .unwrap_none();
    assert!(overlapped_write.is_none());

    // When no such record is found but a record of another transaction has
    // a write record with its commit_ts equal to the start_ts asked about,
    // that record comes along.
    let overlapped_write = reader
        .get_solitontxn_commit_record(&key, 50.into())
        .unwrap()
        .unwrap_none()
        .unwrap();
    assert_eq!(overlapped_write.write.start_ts, 45.into());
    assert_eq!(overlapped_write.write.write_type, WriteType::Put);

    let (commit_ts, write_type) = reader
        .get_solitontxn_commit_record(&key, 45.into())
        .unwrap()
        .unwrap_single_record();
    assert_eq!(commit_ts, 50.into());
    assert_eq!(write_type, WriteType::Put);

    let commit_ts = reader
        .get_solitontxn_commit_record(&key, 40.into())
        .unwrap()
        .unwrap_overlapped_rollback();
    assert_eq!(commit_ts, 40.into());

    let (commit_ts, write_type) = reader
        .get_solitontxn_commit_record(&key, 35.into())
        .unwrap()
        .unwrap_single_record();
    assert_eq!(commit_ts, 40.into());
    assert_eq!(write_type, WriteType::Put);

    let (commit_ts, write_type) = reader
        .get_solitontxn_commit_record(&key, 25.into())
        .unwrap()
        .unwrap_single_record();
    assert_eq!(commit_ts, 30.into());
    assert_eq!(write_type, WriteType::Put);

    let (commit_ts, write_type) = reader
        .get_solitontxn_commit_record(&key, 20.into())
        .unwrap()
        .unwrap_single_record();
    assert_eq!(commit_ts, 20.into());
    assert_eq!(write_type, WriteType::Rollback);

    let (commit_ts, write_type) = reader
        .get_solitontxn_commit_record(&key, 1.into())
        .unwrap()
        .unwrap_single_record();
    assert_eq!(commit_ts, 10.into());
    assert_eq!(write_type, WriteType::Put);

    let (commit_ts, write_type) = reader
        .get_solitontxn_commit_record(&key, 5.into())
        .unwrap()
        .unwrap_single_record();
    assert_eq!(commit_ts, 5.into());
    assert_eq!(write_type, WriteType::Rollback);

    // `get_solitontxn_commit_record(&key, 30)` stops at `30_25 PUT`.
    assert!(!reader
        .get_solitontxn_commit_record(&key, 30.into())
        .unwrap()
        .exist());
}

#[test]
fn test_get_solitontxn_commit_record_of_pessimistic_solitontxn() {
    let mut engine = Store::new();

    let (k, v) = (b"k", b"v");
    let key = Key::from_cocauset(k);
    let m = Mutation::make_put(key.clone(), v.to_vec());

    // solitontxn: start_ts = 2, commit_ts = 3
    engine.acquire_pessimistic_dagger(key.clone(), k, 2, 2);
    engine.prewrite_pessimistic_dagger(m.clone(), k, 2);
    engine.commit(k, 2, 3);
    // solitontxn: start_ts = 1, commit_ts = 4
    engine.acquire_pessimistic_dagger(key.clone(), k, 1, 3);
    engine.prewrite_pessimistic_dagger(m, k, 1);
    engine.commit(k, 1, 4);

    let snap = engine.snapshot();
    let mut reader = EpaxosReader::new(snap, None, false);

    let (commit_ts, write_type) = reader
        .get_solitontxn_commit_record(&key, 2.into())
        .unwrap()
        .unwrap_single_record();
    assert_eq!(commit_ts, 3.into());
    assert_eq!(write_type, WriteType::Put);

    let (commit_ts, write_type) = reader
        .get_solitontxn_commit_record(&key, 1.into())
        .unwrap()
        .unwrap_single_record();
    assert_eq!(commit_ts, 4.into());
    assert_eq!(write_type, WriteType::Put);
}

#[test]
fn test_seek_write() {
    let mut engine = Store::new();

    let (k, v) = (b"k", b"v");
    let m = Mutation::make_put(Key::from_cocauset(k), v.to_vec());
    engine.prewrite(m.clone(), k, 1);
    engine.commit(k, 1, 5);

    engine.write(vec![
        Modify::Put(
            CF_WRITE,
            Key::from_cocauset(k).append_ts(TimeStamp::new(3)),
            vec![b'R', 3],
        ),
        Modify::Put(
            CF_WRITE,
            Key::from_cocauset(k).append_ts(TimeStamp::new(7)),
            vec![b'R', 7],
        ),
    ]);

    engine.prewrite(m.clone(), k, 15);
    engine.commit(k, 15, 17);

    // Timestamp overlap with the previous transaction.
    engine.acquire_pessimistic_dagger(Key::from_cocauset(k), k, 10, 18);
    engine.prewrite_pessimistic_dagger(Mutation::make_dagger(Key::from_cocauset(k)), k, 10);
    engine.commit(k, 10, 20);

    engine.prewrite(m, k, 23);
    engine.commit(k, 23, 25);

    // Let's assume `2_1 PUT` means a commit version with start ts is 1 and commit ts
    // is 2.
    // Commit versions: [25_23 PUT, 20_10 PUT, 17_15 PUT, 7_7 Rollback, 5_1 PUT, 3_3 Rollback].
    let snap = engine.snapshot();
    let mut reader = EpaxosReader::new(snap, None, false);

    let k = Key::from_cocauset(k);
    let (commit_ts, write) = reader.seek_write(&k, 30.into()).unwrap().unwrap();
    assert_eq!(commit_ts, 25.into());
    assert_eq!(write, Write::new(WriteType::Put, 23.into(), Some(v.to_vec())));

    let (commit_ts, write) = reader.seek_write(&k, 25.into()).unwrap().unwrap();
    assert_eq!(commit_ts, 25.into());
    assert_eq!(write, Write::new(WriteType::Put, 23.into(), Some(v.to_vec())));

    let (commit_ts, write) = reader.seek_write(&k, 20.into()).unwrap().unwrap();
    assert_eq!(commit_ts, 20.into());
    assert_eq!(write, Write::new(WriteType::Dagger, 10.into(), None));

    let (commit_ts, write) = reader.seek_write(&k, 19.into()).unwrap().unwrap();
    assert_eq!(commit_ts, 17.into());
    assert_eq!(write, Write::new(WriteType::Put, 15.into(), Some(v.to_vec())));

    let (commit_ts, write) = reader.seek_write(&k, 3.into()).unwrap().unwrap();
    assert_eq!(commit_ts, 3.into());
    assert_eq!(write, Write::new_rollback(3.into(), false));

    let (commit_ts, write) = reader.seek_write(&k, 16.into()).unwrap().unwrap();
    assert_eq!(commit_ts, 7.into());
    assert_eq!(write, Write::new_rollback(7.into(), false));

    let (commit_ts, write) = reader.seek_write(&k, 6.into()).unwrap().unwrap();
    assert_eq!(commit_ts, 5.into());
    assert_eq!(write, Write::new(WriteType::Put, 1.into(), Some(v.to_vec())));

    assert!(reader.seek_write(&k, 2.into()).unwrap().is_none());

    // Test seek_write should not see the next key.
    let (k2, v2) = (b"k2", b"v2");
    let m2 = Mutation::make_put(Key::from_cocauset(k2), v2.to_vec());
    engine.prewrite(m2, k2, 1);
    engine.commit(k2, 1, 2);

    let snap = engine.snapshot();
    let mut reader = EpaxosReader::new(snap, None, false);

    let (commit_ts, write) = reader
        .seek_write(&Key::from_cocauset(k2), 3.into())
        .unwrap()
        .unwrap();
    assert_eq!(commit_ts, 2.into());
    assert_eq!(write, Write::new(WriteType::Put, 1.into(), Some(v2.to_vec())));

    // Should seek for another key.
    assert!(reader.seek_write(&k, 2.into()).unwrap().is_none());

    // The records of `k` end where those of the next key begin.
    let snap = engine.snapshot();
    let mut reader = EpaxosReader::new(snap, None, false);

    assert!(reader.seek_write(&k, 2.into()).unwrap().is_none());
}

#[test]
fn test_get_write() {
    let mut engine = Store::new();

    let (k, v) = (b"k", b"v");
    let m = Mutation::make_put(Key::from_cocauset(k), v.to_vec());
    engine.prewrite(m, k, 1);
    engine.commit(k, 1, 2);

    engine.rollback(k, 5);

    engine.dagger(k, 6, 7);

    engine.delete(k, 8, 9);

    let m = Mutation::make_put(Key::from_cocauset(k), v.to_vec());
    engine.prewrite(m, k, 12);
    engine.commit(k, 12, 14);

    let m = Mutation::make_dagger(Key::from_cocauset(k));
    engine.acquire_pessimistic_dagger(Key::from_cocauset(k), k, 13, 15);
    engine.prewrite_pessimistic_dagger(m, k, 13);
    engine.commit(k, 13, 15);

    let m = Mutation::make_put(Key::from_cocauset(k), v.to_vec());
    engine.acquire_pessimistic_dagger(Key::from_cocauset(k), k, 18, 18);
    engine.prewrite_pessimistic_dagger(m, k, 18);
    engine.commit(k, 18, 20);

    let m = Mutation::make_dagger(Key::from_cocauset(k));
    engine.acquire_pessimistic_dagger(Key::from_cocauset(k), k, 17, 21);
    engine.prewrite_pessimistic_dagger(m, k, 17);
    engine.commit(k, 17, 21);

    let m = Mutation::make_put(Key::from_cocauset(k), v.to_vec());
    engine.prewrite(m, k, 24);

    let snap = engine.snapshot();
    let mut reader = EpaxosReader::new(snap, None, false);

    // Let's assume `2_1 PUT` means a commit version with start ts is 1 and commit ts
    // is 2.
    // Commit versions: [21_17 LOCK, 20_18 PUT, 15_13 LOCK, 14_12 PUT, 9_8 DELETE, 7_6 LOCK,
    //                   5_5 Rollback, 2_1 PUT].
    let key = Key::from_cocauset(k);

    assert!(reader.get_write(&key, 1.into(), None).unwrap().is_none());

    let write = reader.get_write(&key, 2.into(), None).unwrap().unwrap();
    assert_eq!(write.write_type, WriteType::Put);
    assert_eq!(write.start_ts, 1.into());

    let write = reader.get_write(&key, 5.into(), None).unwrap().unwrap();
    assert_eq!(write.write_type, WriteType::Put);
    assert_eq!(write.start_ts, 1.into());

    let write = reader.get_write(&key, 7.into(), None).unwrap().unwrap();
    assert_eq!(write.write_type, WriteType::Put);
    assert_eq!(write.start_ts, 1.into());

    assert!(reader.get_write(&key, 9.into(), None).unwrap().is_none());

    let write = reader.get_write(&key, 14.into(), None).unwrap().unwrap();
    assert_eq!(write.write_type, WriteType::Put);
    assert_eq!(write.start_ts, 12.into());

    let write = reader.get_write(&key, 16.into(), None).unwrap().unwrap();
    assert_eq!(write.write_type, WriteType::Put);
    assert_eq!(write.start_ts, 12.into());

    let write = reader.get_write(&key, 20.into(), None).unwrap().unwrap();
    assert_eq!(write.write_type, WriteType::Put);
    assert_eq!(write.start_ts, 18.into());

    let write = reader.get_write(&key, 24.into(), None).unwrap().unwrap();
    assert_eq!(write.write_type, WriteType::Put);
    assert_eq!(write.start_ts, 18.into());

    assert!(reader
        .get_write(&Key::from_cocauset(b"j"), 100.into(), None)
        .unwrap()
        .is_none());
}

#[test]
fn test_mutant_search_daggers() {
    let mut engine = Store::new();

    // Put some daggers to the db.
    engine.prewrite(
        Mutation::make_put(Key::from_cocauset(b"k1"), b"v1".to_vec()),
        b"k1",
        5,
    );
    engine.prewrite(
        Mutation::make_put(Key::from_cocauset(b"k2"), b"v2".to_vec()),
        b"k1",
        10,
    );
    engine.prewrite(Mutation::make_delete(Key::from_cocauset(b"k3")), b"k1", 10);
    engine.prewrite(Mutation::make_dagger(Key::from_cocauset(b"k3\x00")), b"k1", 10);
    engine.prewrite(Mutation::make_delete(Key::from_cocauset(b"k4")), b"k1", 12);
    engine.acquire_pessimistic_dagger(Key::from_cocauset(b"k5"), b"k1", 10, 12);
    engine.acquire_pessimistic_dagger(Key::from_cocauset(b"k6"), b"k1", 12, 12);

    // All daggers whose ts <= 10.
    let visible_daggers: Vec<(Key, Dagger)> = vec![
        // key, dagger_type, short_value, ts, for_update_ts
        (
            b"k1".to_vec(),
            DaggerType::Put,
            Some(b"v1".to_vec()),
            TimeStamp::new(5),
            TimeStamp::zero(),
        ),
        (
            b"k2".to_vec(),
            DaggerType::Put,
            Some(b"v2".to_vec()),
            TimeStamp::new(10),
            TimeStamp::zero(),
        ),
        (
            b"k3".to_vec(),
            DaggerType::Delete,
            None,
            TimeStamp::new(10),
            TimeStamp::zero(),
        ),
        (
            b"k3\x00".to_vec(),
            DaggerType::Dagger,
            None,
            TimeStamp::new(10),
            TimeStamp::zero(),
        ),
        (
            b"k5".to_vec(),
            DaggerType::Pessimistic,
            None,
            TimeStamp::new(10),
            TimeStamp::new(12),
        ),
    ]
    .into_iter()
    .map(|(k, dagger_type, short_value, ts, for_update_ts)| {
        (
            Key::from_cocauset(&k),
            Dagger::new(
                dagger_type,
                b"k1".to_vec(),
                ts,
                0,
                short_value,
                for_update_ts,
                0,
                TimeStamp::zero(),
            ),
        )
    })
    .collect();

    // Creates a reader and searches the daggers.
    let check_mutant_search_dagger = |start_key: Option<Key>,
                                      end_key: Option<Key>,
                                      limit,
                                      expect_res: &[(Key, Dagger)],
                                      expect_is_remain| {
        let snap = engine.snapshot();
        let mut reader = EpaxosReader::new(snap, None, false);
        let res = reader
            .mutant_search_daggers(
                start_key.as_ref(),
                end_key.as_ref(),
                |l: &Dagger| l.ts <= TimeStamp::new(10),
                limit,
            )
            .unwrap();
        assert_eq!(res.0, expect_res);
        assert_eq!(res.1, expect_is_remain);
    };

    check_mutant_search_dagger(None, None, 6, &visible_daggers, false);
    check_mutant_search_dagger(None, None, 5, &visible_daggers, true);
    check_mutant_search_dagger(None, None, 4, &visible_daggers[0..4], true);
    check_mutant_search_dagger(
        Some(Key::from_cocauset(b"k2")),
        None,
        3,
        &visible_daggers[1..4],
        true,
    );
    check_mutant_search_dagger(
        Some(Key::from_cocauset(b"k3\x00")),
        None,
        1,
        &visible_daggers[3..4],
        true,
    );
    check_mutant_search_dagger(
        Some(Key::from_cocauset(b"k3\x00")),
        None,
        10,
        &visible_daggers[3..],
        false,
    );
    // limit = 0 means unlimited.
    check_mutant_search_dagger(None, None, 0, &visible_daggers, false);
    // Test searching with limited end_key
    check_mutant_search_dagger(
        None,
        Some(Key::from_cocauset(b"k3")),
        0,
        &visible_daggers[..2],
        false,
    );
    check_mutant_search_dagger(
        None,
        Some(Key::from_cocauset(b"k3\x00")),
        0,
        &visible_daggers[..3],
        false,
    );
    check_mutant_search_dagger(
        None,
        Some(Key::from_cocauset(b"k3\x00")),
        3,
        &visible_daggers[..3],
        true,
    );
    check_mutant_search_dagger(
        None,
        Some(Key::from_cocauset(b"k3\x00")),
        2,
        &visible_daggers[..2],
        true,
    );
}

#[test]
fn test_load_data() {
    let mut engine = Store::new();

    let (k, short_value, long_value) = (
        b"k",
        b"v",
        "v".repeat(SHORT_VALUE_MAX_LEN + 1).into_bytes(),
    );

    struct Case {
        expected: Result<Vec<u8>, Error>,

        // modifies to put into the engine
        modifies: Vec<Modify>,
        // these are used to construct the reader
        mutant_search_mode: Option<SentinelSearchMode>,
        key: Key,
        write: Write,
    }

    let cases = vec![
        Case {
            // write has short_value
            expected: Ok(short_value.to_vec()),

            modifies: vec![Modify::Put(
                CF_DEFAULT,
                Key::from_cocauset(k).append_ts(TimeStamp::new(1)),
                vec![],
            )],
            mutant_search_mode: None,
            key: Key::from_cocauset(k),
            write: Write::new(WriteType::Put, TimeStamp::new(1), Some(short_value.to_vec())),
        },
        Case {
            // write has no short_value, the reader has a cursor, got something
            expected: Ok(long_value.to_vec()),
            modifies: vec![Modify::Put(
                CF_DEFAULT,
                Key::from_cocauset(k).append_ts(TimeStamp::new(2)),
                long_value.to_vec(),
            )],
            mutant_search_mode: Some(SentinelSearchMode::Forward),
            key: Key::from_cocauset(k),
            write: Write::new(WriteType::Put, TimeStamp::new(2), None),
        },
        Case {
            // write has no short_value, the reader has a cursor, got nothing
            expected: Err(Error::DataNotFound { key: k.to_vec() }),
            modifies: vec![Modify::Put(
                CF_WRITE,
                Key::from_cocauset(k).append_ts(TimeStamp::new(1)),
                Write::new(WriteType::Put, TimeStamp::new(1), None).to_bytes(),
            )],
            mutant_search_mode: Some(SentinelSearchMode::Forward),
            key: Key::from_cocauset(k),
            write: Write::new(WriteType::Put, TimeStamp::new(3), None),
        },
        Case {
            // write has no short_value, the reader has no cursor, got something
            expected: Ok(long_value.to_vec()),
            modifies: vec![Modify::Put(
                CF_DEFAULT,
                Key::from_cocauset(k).append_ts(TimeStamp::new(4)),
                long_value.to_vec(),
            )],
            mutant_search_mode: None,
            key: Key::from_cocauset(k),
            write: Write::new(WriteType::Put, TimeStamp::new(4), None),
        },
        Case {
            // write has no short_value, the reader has no cursor, got nothing
            expected: Err(Error::DataNotFound { key: k.to_vec() }),
            modifies: vec![],
            mutant_search_mode: None,
            key: Key::from_cocauset(k),
            write: Write::new(WriteType::Put, TimeStamp::new(5), None),
        },
    ];

    for case in cases {
        engine.write(case.modifies);
        let snap = engine.snapshot();
        let mut reader = EpaxosReader::new(snap, case.mutant_search_mode, false);
        let result = reader.load_data(&case.key, case.write);
        assert_eq!(format!("{:?}", result), format!("{:?}", case.expected));
    }
}

#[test]
fn test_get() {
    let mut engine = Store::new();

    let (k, long_value) = (b"k", "v".repeat(SHORT_VALUE_MAX_LEN + 1).into_bytes());

    struct Case {
        expected: Result<Option<Vec<u8>>, Error>,
        // modifies to put into the engine
        modifies: Vec<Modify>,
        // arguments to do the function call
        key: Key,
        ts: TimeStamp,
        gc_fence_limit: Option<TimeStamp>,
    }

    let cases = vec![
        Case {
            // no write for `key` at `ts` exists
            expected: Ok(None),
            modifies: vec![Modify::Delete(
                CF_DEFAULT,
                Key::from_cocauset(k).append_ts(TimeStamp::new(1)),
            )],
            key: Key::from_cocauset(k),
            ts: TimeStamp::new(1),
            gc_fence_limit: None,
        },
        Case {
            // some write for `key` at `ts` exists, load data return Err
            expected: Err(Error::DataNotFound { key: k.to_vec() }),
            modifies: vec![Modify::Put(
                CF_WRITE,
                Key::from_cocauset(k).append_ts(TimeStamp::new(2)),
                Write::new(WriteType::Put, TimeStamp::new(2), None).to_bytes(),
            )],
            key: Key::from_cocauset(k),
            ts: TimeStamp::new(3),
            gc_fence_limit: None,
        },
        Case {
            // some write for `key` at `ts` exists, load data success
            expected: Ok(Some(long_value.to_vec())),
            modifies: vec![
                Modify::Put(
                    CF_WRITE,
                    Key::from_cocauset(k).append_ts(TimeStamp::new(4)),
                    Write::new(WriteType::Put, TimeStamp::new(4), None).to_bytes(),
                ),
                Modify::Put(
                    CF_DEFAULT,
                    Key::from_cocauset(k).append_ts(TimeStamp::new(4)),
                    long_value,
                ),
            ],
            key: Key::from_cocauset(k),
            ts: TimeStamp::new(5),
            gc_fence_limit: None,
        },
    ];

    for case in cases {
        engine.write(case.modifies);
        let snap = engine.snapshot();
        let mut reader = EpaxosReader::new(snap, None, false);
        let result = reader.get(&case.key, case.ts, case.gc_fence_limit);
        assert_eq!(format!("{:?}", result), format!("{:?}", case.expected));
    }
}

#[test]
fn test_get_old_value() {
    struct Case {
        expected: OldValue,

        // (write_record, put_ts)
        // all data to write to the engine
        // current write_cursor will be on the last record in `written`
        // which also means prev_write is `Write` in the record
        written: Vec<(Write, TimeStamp)>,
    }
    let cases = vec![
        // prev_write is None
        Case {
            expected: OldValue::NoValue,
            written: vec![],
        },
        // prev_write is Rollback, and there exists a more previous valid write
        Case {
            expected: OldValue::ValueTimeStamp {
                start_ts: TimeStamp::new(4),
            },

            written: vec![
                (
                    Write::new(WriteType::Put, TimeStamp::new(4), None),
                    TimeStamp::new(6),
                ),
                (
                    Write::new(WriteType::Rollback, TimeStamp::new(5), None),
                    TimeStamp::new(7),
                ),
            ],
        },
        Case {
            expected: OldValue::Value {
                value: b"v".to_vec(),
            },

            written: vec![
                (
                    Write::new(WriteType::Put, TimeStamp::new(4), Some(b"v".to_vec())),
                    TimeStamp::new(6),
                ),
                (
                    Write::new(WriteType::Rollback, TimeStamp::new(5), None),
                    TimeStamp::new(7),
                ),
            ],
        },
        // prev_write is Rollback, and there isn't a more previous valid write
        Case {
            expected: OldValue::NoValue,
            written: vec![(
                Write::new(WriteType::Rollback, TimeStamp::new(5), None),
                TimeStamp::new(6),
            )],
        },
        // prev_write is Dagger, and there exists a more previous valid write
        Case {
            expected: OldValue::ValueTimeStamp {
                start_ts: TimeStamp::new(3),
            },

            written: vec![
                (
                    Write::new(WriteType::Put, TimeStamp::new(3), None),
                    TimeStamp::new(6),
                ),
                (
                    Write::new(WriteType::Dagger, TimeStamp::new(5), None),
                    TimeStamp::new(7),
                ),
            ],
        },
        // prev_write is Dagger, and there isn't a more previous valid write
        Case {
            expected: OldValue::NoValue,
            written: vec![(
                Write::new(WriteType::Dagger, TimeStamp::new(5), None),
                TimeStamp::new(6),
            )],
        },
        // prev_write is not Rollback or Dagger, check_gc_fence_as_latest_version is true
        Case {
            expected: OldValue::ValueTimeStamp {
                start_ts: TimeStamp::new(7),
            },
            written: vec![(
                Write::new(WriteType::Put, TimeStamp::new(7), None)
                    .set_overlapped_rollback(true, Some(27.into())),
                TimeStamp::new(5),
            )],
        },
        // prev_write is not Rollback or Dagger, check_gc_fence_as_latest_version is false
        Case {
            expected: OldValue::NoValue,
            written: vec![(
                Write::new(WriteType::Put, TimeStamp::new(4), None)
                    .set_overlapped_rollback(true, Some(3.into())),
                TimeStamp::new(5),
            )],
        },
        // prev_write is Delete, check_gc_fence_as_latest_version is true
        Case {
            expected: OldValue::NoValue,
            written: vec![
                (
                    Write::new(WriteType::Put, TimeStamp::new(3), None),
                    TimeStamp::new(6),
                ),
                (
                    Write::new(WriteType::Delete, TimeStamp::new(7), None),
                    TimeStamp::new(8),
                ),
            ],
        },
        // prev_write is Delete, check_gc_fence_as_latest_version is false
        Case {
            expected: OldValue::NoValue,
            written: vec![
                (
                    Write::new(WriteType::Put, TimeStamp::new(3), None),
                    TimeStamp::new(6),
                ),
                (
                    Write::new(WriteType::Delete, TimeStamp::new(7), None)
                        .set_overlapped_rollback(true, Some(6.into())),
                    TimeStamp::new(8),
                ),
            ],
        },
    ];
    for (i, case) in cases.into_iter().enumerate() {
        let mut engine = Store::new();
        let cm = ConcurrencyManager::new(42.into());
        let mut solitontxn = EpaxosTxn::new(TimeStamp::new(10), cm.clone());
        for (write_record, put_ts) in case.written.iter() {
            solitontxn.put_write(Key::from_cocauset(b"a"), *put_ts, write_record.to_bytes());
        }
        engine.write(solitontxn.into_modifies());
        let blackbrane = engine.snapshot();
        let mut reader = EpaxosReader::new(blackbrane, None, true);
        if !case.written.is_empty() {
            let prev_write = reader
                .seek_write(&Key::from_cocauset(b"a"), case.written.last().unwrap().1)
                .unwrap()
                .map(|w| w.1);
            let prev_write_loaded = true;
            let result = reader
                .get_old_value(
                    &Key::from_cocauset(b"a"),
                    TimeStamp::new(25),
                    prev_write_loaded,
                    prev_write,
                )
                .unwrap();
            assert_eq!(result, case.expected, "case #{}", i);
        }
    }

    // Must return OldValue::NoValue when prev_write_loaded is true and prev_write is None.
    let engine = Store::new();
    let blackbrane = engine.snapshot();
    let mut reader = EpaxosReader::new(blackbrane, None, true);
    let prev_write_loaded = true;
    let prev_write = None;
    let result = reader
        .get_old_value(
            &Key::from_cocauset(b"a"),
            TimeStamp::new(25),
            prev_write_loaded,
            prev_write,
        )
        .unwrap();
    assert_eq!(result, OldValue::NoValue);
}

// A seek finds the newest record of the key at or before the timestamp,
// also between keys that are not encoded; only a key of another kind that
// lies among the versions of the key hides the records after it.
#[test]
fn seek_write_between_keys_that_are_not_encoded() {
    let mut store = Store::new();
    let key = Key::from_encoded(b"a".to_vec());
    let record = |start: u64| Write::new(WriteType::Put, start.into(), Some(b"v".to_vec()));
    store.write(vec![
        Modify::Put(CF_WRITE, key.clone().append_ts(5.into()), record(4).to_bytes()),
        Modify::Put(CF_WRITE, key.clone().append_ts(9.into()), record(8).to_bytes()),
    ]);
    let mut reader = EpaxosReader::new(store.snapshot(), None, false);
    for (ts, expected) in [(4u64, None), (5, Some(5u64)), (8, Some(5)), (9, Some(9)), (20, Some(9))] {
        let found = reader.seek_write(&key, ts.into()).unwrap();
        assert_eq!(found.map(|(commit, _)| commit), expected.map(TimeStamp::new), "ts {}", ts);
    }

    // The version at 3 of the key of nine bytes that follows sorts between
    // the versions of `a` at 9 and at 5.
    let mut other = b"a".to_vec();
    other.extend_from_slice(&[0xff, 0xff, 0xff, 0xff, 0xff, 0xff, 0xff, 0xf7]);
    let other = Key::from_encoded(other);
    store.write(vec![Modify::Put(CF_WRITE, other.append_ts(3.into()), record(2).to_bytes())]);
    let mut reader = EpaxosReader::new(store.snapshot(), None, false);
    let found = reader.seek_write(&key, 20.into()).unwrap();
    assert_eq!(found.map(|(commit, _)| commit), Some(TimeStamp::new(9)));
    assert_eq!(reader.seek_write(&key, 8.into()).unwrap(), None);
    let found = reader.seek_write(&key, 5.into()).unwrap();
    assert_eq!(found.map(|(commit, _)| commit), Some(TimeStamp::new(5)));
}

// A read goes by the newest put or delete at or before its timestamp, and
// passes over the dagger and rollback records after it.
#[test]
fn get_write_goes_by_newest_put_or_delete() {
    let mut store = Store::new();
    let k = b"k";
    store.put(k, 1, 2);
    store.dagger(k, 3, 4);
    store.rollback(k, 5);
    store.delete(k, 8, 9);
    store.dagger(k, 10, 11);
    let key = Key::from_cocauset(k);
    let mut reader = EpaxosReader::new(store.snapshot(), None, false);
    assert_eq!(reader.get_write(&key, 1.into(), None).unwrap(), None);
    for ts in [2u64, 4, 5, 8] {
        let write = reader.get_write(&key, ts.into(), None).unwrap().unwrap();
        assert_eq!(write.write_type, WriteType::Put, "ts {}", ts);
        assert_eq!(write.start_ts, TimeStamp::new(1), "ts {}", ts);
        let (write, commit) = reader.get_write_with_commit_ts(&key, ts.into(), None).unwrap().unwrap();
        assert_eq!(write.start_ts, TimeStamp::new(1));
        assert_eq!(commit, TimeStamp::new(2));
    }
    for ts in [9u64, 11, 30] {
        assert_eq!(reader.get_write(&key, ts.into(), None).unwrap(), None, "ts {}", ts);
    }
    // A key with dagger and rollback records only has nothing to read.
    store.dagger(b"d", 3, 4);
    store.rollback(b"d", 5);
    let mut reader = EpaxosReader::new(store.snapshot(), None, false);
    assert_eq!(reader.get_write(&Key::from_cocauset(b"d"), 30.into(), None).unwrap(), None);
}

// The record of another transaction that was committed at the start
// timestamp asked about comes along with the commit timestamp of the
// nearest newer put or delete.
#[test]
fn commit_record_carries_nearest_newer_change() {
    let mut store = Store::new();
    let k = b"k";
    store.put(k, 1, 5);
    store.dagger(k, 6, 7);
    store.put(k, 8, 9);
    store.put(k, 10, 12);
    let key = Key::from_cocauset(k);
    let mut reader = EpaxosReader::new(store.snapshot(), None, false);
    let record = reader.get_solitontxn_commit_record(&key, 5.into()).unwrap();
    let overlapped = record.unwrap_none().unwrap();
    assert_eq!(overlapped.write.write_type, WriteType::Put);
    assert_eq!(overlapped.write.start_ts, TimeStamp::new(1));
    assert_eq!(overlapped.gc_fence, TimeStamp::new(9));

    // No put or delete is newer than the record at 12.
    let record = reader.get_solitontxn_commit_record(&key, 12.into()).unwrap();
    assert_eq!(record.unwrap_none().unwrap().gc_fence, TimeStamp::zero());

    // The transaction's own record, and a start timestamp that no record
    // tells of.
    let record = reader.get_solitontxn_commit_record(&key, 8.into()).unwrap();
    assert_eq!(record.info(), Some((TimeStamp::new(9), WriteType::Put)));
    let record = reader.get_solitontxn_commit_record(&key, 11.into()).unwrap();
    assert!(record.unwrap_none().is_none());
}

// A scan of daggers gives the kept daggers of the range in key order, cut
// at the limit.
#[test]
fn mutant_search_daggers_keeps_in_order_and_cuts() {
    let mut store = Store::new();
    for (k, ts) in [(b"a", 3u64), (b"b", 4), (b"c", 3), (b"d", 3), (b"e", 4)] {
        store.prewrite(Mutation::make_put(Key::from_cocauset(k), b"v".to_vec()), k, ts);
    }
    let keys = |found: &Vec<(Key, Dagger)>| -> Vec<Vec<u8>> {
        found.iter().map(|(k, _)| k.to_cocauset().unwrap()).collect()
    };
    let mut reader = EpaxosReader::new(store.snapshot(), None, false);
    let start = Key::from_cocauset(b"a");
    let end = Key::from_cocauset(b"e");
    let odd = |d: &Dagger| d.ts == TimeStamp::new(3);

    let (found, more) = reader.mutant_search_daggers(Some(&start), Some(&end), odd, 0).unwrap();
    assert_eq!(keys(&found), vec![b"a".to_vec(), b"c".to_vec(), b"d".to_vec()]);
    assert!(!more);
    let (found, more) = reader.mutant_search_daggers(Some(&start), Some(&end), odd, 2).unwrap();
    assert_eq!(keys(&found), vec![b"a".to_vec(), b"c".to_vec()]);
    assert!(more);
    let (found, more) = reader.mutant_search_daggers(Some(&start), Some(&end), odd, 3).unwrap();
    assert_eq!(keys(&found), vec![b"a".to_vec(), b"c".to_vec(), b"d".to_vec()]);
    assert!(more);
    let (found, more) = reader.mutant_search_daggers(Some(&start), Some(&end), odd, 4).unwrap();
    assert_eq!(keys(&found).len(), 3);
    assert!(!more);
    let (found, more) = reader.mutant_search_daggers(None, None, |_: &Dagger| true, 0).unwrap();
    assert_eq!(keys(&found).len(), 5);
    assert!(!more);
}
