use lake_berg::builder::Builder;
use lake_berg::error::LakeError;
use lake_berg::house::Iceberg;
use lake_berg::locator::Url;
use lake_berg::namespace::NamespaceIdent;
use lake_berg::plan::by_topic;
use lake_berg::staging::{commit, CommitStep, Finalized, StagedWrites};
use lake_berg::table::{RememberTable, TableCache, TableIdent, TableStep};
use lake_berg::write::{
    FinalizeTransactionRequest, LakeHouseType, LakeWriteRequest, PendingWrite,
    StageTransactionalRequest, TransactionRef, TxnKey,
};
use std::marker::PhantomData;

type Lake = Iceberg<(), TableCache<String>, StagedWrites<u32>, ()>;

/// The lake of the default settings, in a namespace.
fn lake() -> Lake {
    let built: Result<_, LakeError<()>> =
        Builder::<PhantomData<Url>, PhantomData<Url>, PhantomData<()>>::default()
            .location(Url::parse("memory://").unwrap())
            .catalog(Url::parse("memory://").unwrap())
            .schema_registry(())
            .namespace(Some("abcdefgh".to_string()))
            .build(vec![]);
    Iceberg::new(built.unwrap(), Ok::<(), LakeError<()>>(())).unwrap()
}

fn pending(topic: &str, partition: i32, offset: i64, batch: u32) -> PendingWrite<u32> {
    PendingWrite {
        topic: topic.to_string(),
        partition,
        offset,
        batch,
    }
}

fn stage(lake: &mut Lake, id: &str, epoch: i16, topic: &str, offset: i64, batch: u32) {
    lake.stage_transactional(StageTransactionalRequest {
        transaction: TransactionRef {
            transaction_id: id,
            producer_id: 7,
            producer_epoch: epoch,
        },
        write: LakeWriteRequest {
            topic,
            partition: 0,
            offset,
            inflated: &batch,
            config: (),
        },
    });
}

fn end(lake: &mut Lake, id: &str, epoch: i16, committed: bool) -> Finalized<u32> {
    lake.finalize_transaction(FinalizeTransactionRequest {
        transaction: TransactionRef {
            transaction_id: id,
            producer_id: 7,
            producer_epoch: epoch,
        },
        committed,
    })
}

fn groups(writes: &Vec<PendingWrite<u32>>) -> Vec<(String, Vec<(i32, i64, u32)>)> {
    by_topic(writes)
        .into_iter()
        .map(|group| {
            let writes = group
                .writes
                .iter()
                .map(|w| (w.partition, w.offset, *w.batch))
                .collect();
            (group.topic, writes)
        })
        .collect()
}

fn batches(ended: Finalized<u32>) -> Vec<u32> {
    match ended {
        Finalized::Committed(writes) => writes.iter().map(|w| w.batch).collect(),
        other => panic!("{other:?}"),
    }
}

#[test]
fn finalize_committed_missing_staged_writes_is_noop() {
    let mut lake = lake();
    let ended = lake.finalize_transaction(FinalizeTransactionRequest {
        transaction: TransactionRef {
            transaction_id: "txn-missing",
            producer_id: 1,
            producer_epoch: 0,
        },
        committed: true,
    });
    assert!(matches!(ended, Finalized::Missing));
}

#[test]
fn finalize_abort_clears_staged_state() {
    let mut lake = lake();
    let tx_key = TxnKey::new("txn-abort", 2, 0);
    lake.staged_writes.push(tx_key.clone(), pending("topic-a", 0, 0, 0));
    assert!(lake.staged_writes.contains_key(&tx_key));

    let ended = lake.finalize_transaction(FinalizeTransactionRequest {
        transaction: TransactionRef {
            transaction_id: "txn-abort",
            producer_id: 2,
            producer_epoch: 0,
        },
        committed: false,
    });
    assert!(matches!(ended, Finalized::Aborted));
    assert!(!lake.staged_writes.contains_key(&tx_key));
}

#[test]
fn commit_gives_back_what_was_staged() {
    let mut lake = lake();
    stage(&mut lake, "a", 0, "t", 9, 1);
    stage(&mut lake, "a", 0, "s", 8, 2);
    stage(&mut lake, "a", 0, "t", 9, 3);
    assert_eq!(vec![1, 2, 3], batches(end(&mut lake, "a", 0, true)));
}

#[test]
fn second_commit_finds_nothing() {
    let mut lake = lake();
    stage(&mut lake, "a", 0, "t", 0, 1);
    assert_eq!(vec![1], batches(end(&mut lake, "a", 0, true)));
    assert!(matches!(end(&mut lake, "a", 0, true), Finalized::Missing));
}

#[test]
fn epochs_are_different_transactions() {
    let mut lake = lake();
    stage(&mut lake, "a", 0, "t", 0, 1);
    stage(&mut lake, "a", 1, "t", 1, 2);
    assert!(matches!(end(&mut lake, "a", 0, false), Finalized::Aborted));
    assert_eq!(vec![2], batches(end(&mut lake, "a", 1, true)));
}

#[test]
fn transactions_do_not_touch_each_other() {
    let mut lake = lake();
    stage(&mut lake, "a", 0, "t", 0, 1);
    stage(&mut lake, "b", 0, "t", 1, 2);
    stage(&mut lake, "a", 0, "t", 2, 3);
    assert_eq!(vec![2], batches(end(&mut lake, "b", 0, true)));
    assert_eq!(vec![1, 3], batches(end(&mut lake, "a", 0, true)));
}

#[test]
fn writes_are_grouped_and_ordered() {
    let writes = vec![
        pending("topic-b", 1, 5, 0),
        pending("topic-a", 2, 1, 1),
        pending("topic-b", 0, 9, 2),
        pending("topic-a", 2, 0, 3),
        pending("topic-b", 1, 4, 4),
        pending("topic-a", -1, 7, 5),
    ];
    assert_eq!(
        vec![
            ("topic-a".to_string(), vec![(-1, 7, 5), (2, 0, 3), (2, 1, 1)]),
            ("topic-b".to_string(), vec![(0, 9, 2), (1, 4, 4), (1, 5, 0)]),
        ],
        groups(&writes)
    );
}

#[test]
fn level_writes_keep_the_order_of_staging() {
    let writes = vec![
        pending("t", 0, 1, 10),
        pending("t", 0, 0, 11),
        pending("t", 0, 1, 12),
        pending("t", 0, 0, 13),
    ];
    assert_eq!(
        vec![(
            "t".to_string(),
            vec![(0, 0, 11), (0, 0, 13), (0, 1, 10), (0, 1, 12)]
        )],
        groups(&writes)
    );
}

#[test]
fn topics_are_in_the_order_of_strings() {
    let writes = vec![
        pending("zoë", 0, 0, 0),
        pending("Zo", 0, 0, 1),
        pending("zo", 0, 0, 2),
        pending("", 0, 0, 3),
        pending("zoe", 0, 0, 4),
    ];
    let topics: Vec<String> = groups(&writes).into_iter().map(|(topic, _)| topic).collect();
    let mut sorted: Vec<String> = writes.iter().map(|w| w.topic.clone()).collect();
    sorted.sort();
    assert_eq!(sorted, topics);
}

#[test]
fn no_writes_make_no_groups() {
    assert!(groups(&vec![]).is_empty());
    assert!(matches!(
        commit::<u32, ()>(&vec![]),
        CommitStep::Finished(Ok(()))
    ));
}

#[test]
fn commit_stores_one_topic_after_the_other() {
    let writes = vec![pending("b", 0, 0, 0), pending("a", 0, 0, 1), pending("c", 0, 0, 2)];
    let mut stored: Vec<String> = vec![];
    let mut step: CommitStep<'_, u32, ()> = commit(&writes);
    while let CommitStep::Store(topics) = step {
        stored.push(topics.topic.topic.clone());
        step = topics.stored(Ok(()));
    }
    assert_eq!(vec!["a", "b", "c"], stored);
    assert!(matches!(step, CommitStep::Finished(Ok(()))));
}

#[test]
fn commit_stops_at_the_first_failure() {
    let writes = vec![pending("b", 0, 0, 0), pending("a", 0, 0, 1), pending("c", 0, 0, 2)];
    let mut stored: Vec<String> = vec![];
    let mut step: CommitStep<'_, u32, &str> = commit(&writes);
    while let CommitStep::Store(topics) = step {
        stored.push(topics.topic.topic.clone());
        let reply = if topics.topic.topic == "b" { Err("full") } else { Ok(()) };
        step = topics.stored(reply);
    }
    assert_eq!(vec!["a", "b"], stored);
    assert!(matches!(step, CommitStep::Finished(Err("full"))));
}

#[test]
fn single_write_is_stored_like_a_transaction() {
    let batch = 5u32;
    let (topic, writes) = lake().store(LakeWriteRequest {
        topic: "t",
        partition: 3,
        offset: 4,
        inflated: &batch,
        config: (),
    });
    assert_eq!("t", topic);
    assert_eq!((3, 4, 5), (writes[0].partition, writes[0].offset, *writes[0].batch));
}

#[test]
fn lake_answers_for_itself() {
    assert_eq!(Ok::<(), ()>(()), lake().maintain());
    assert_eq!(Ok::<LakeHouseType, ()>(LakeHouseType::Iceberg), lake().lake_type());
}

#[test]
fn transaction_keys_are_told_apart() {
    let key = TxnKey::new("a", 1, 2);
    assert_eq!(key, TxnKey::new("a", 1, 2));
    assert_eq!(key, key.clone());
    assert_ne!(key, TxnKey::new("b", 1, 2));
    assert_ne!(key, TxnKey::new("a", 2, 2));
    assert_ne!(key, TxnKey::new("a", 1, 3));
}

#[test]
fn transaction_keys_are_ordered_by_their_parts() {
    let keys = [
        TxnKey::new("", 9, 9),
        TxnKey::new("a", -1, 5),
        TxnKey::new("a", 2, -1),
        TxnKey::new("a", 2, 3),
        TxnKey::new("ab", 0, 0),
        TxnKey::new("b", i64::MIN, i16::MIN),
        TxnKey::new("\u{e9}", 0, 0),
    ];
    for (i, a) in keys.iter().enumerate() {
        for (j, b) in keys.iter().enumerate() {
            assert_eq!(Some(i.cmp(&j)), a.partial_cmp(b));
            assert_eq!(i.cmp(&j), a.cmp(b));
            assert_eq!(i == j, a == b);
            assert_eq!(i < j, a < b);
        }
    }
}

#[test]
fn table_is_asked_for_in_the_namespace_of_the_lake() {
    let lake = lake();
    let step: TableStep<String, u32, &str> = lake.load_or_create_table("orders", 3);
    let TableStep::FindNamespace(find) = step else {
        panic!("{step:?}")
    };
    assert_eq!("abcdefgh", find.namespace.ident.to_url_string());
    let step: TableStep<String, u32, &str> = find.checked(Ok(false));
    let TableStep::MakeNamespace(make) = step else {
        panic!("{step:?}")
    };
    assert_eq!("abcdefgh", make.namespace.ident.to_url_string());
    let step: TableStep<String, u32, &str> = make.created(Ok(()));
    let TableStep::Check(check) = step else {
        panic!("{step:?}")
    };
    assert_eq!("abcdefgh", check.ident.namespace.to_url_string());
    assert_eq!("orders", check.ident.name);
    assert_eq!(3, check.schema);
}

#[test]
fn namespace_errors_end_the_search_for_a_table() {
    let lake = lake();
    let step: TableStep<String, u32, &str> = lake.load_or_create_table("orders", 3);
    let TableStep::FindNamespace(find) = step else {
        panic!("{step:?}")
    };
    let step: TableStep<String, u32, &str> = find.checked(Err("down"));
    assert!(matches!(step, TableStep::Finished(Err("down"))));

    let step: TableStep<String, u32, &str> = lake.load_or_create_table("orders", 3);
    let TableStep::FindNamespace(find) = step else {
        panic!("{step:?}")
    };
    let step: TableStep<String, u32, &str> = find.checked(Ok(false));
    let TableStep::MakeNamespace(make) = step else {
        panic!("{step:?}")
    };
    let step: TableStep<String, u32, &str> = make.created(Err("full"));
    assert!(matches!(step, TableStep::Finished(Err("full"))));
}

#[test]
fn remembered_table_leaves_the_others() {
    let mut lake = lake();
    for name in ["orders", "sales"] {
        let ident = TableIdent {
            namespace: NamespaceIdent::new("abcdefgh".to_string()),
            name: name.to_string(),
        };
        let remember = RememberTable { ident, table: name.to_uppercase() };
        assert_eq!(name.to_uppercase(), remember.remember(&mut lake.tables));
    }
    for name in ["orders", "sales"] {
        let step: TableStep<String, u32, &str> = lake.load_or_create_table(name, 3);
        match step {
            TableStep::Finished(Ok(table)) => assert_eq!(name.to_uppercase(), table),
            other => panic!("{other:?}"),
        }
    }
}

#[test]
fn abort_and_missing_transaction_are_answered_at_once() {
    let mut lake = lake();
    stage(&mut lake, "a", 0, "t", 1, 10);
    let aborted = end(&mut lake, "a", 0, false);
    let step: CommitStep<'_, u32, &str> = aborted.start();
    assert!(matches!(step, CommitStep::Finished(Ok(()))));
    let missing = end(&mut lake, "a", 0, true);
    let step: CommitStep<'_, u32, &str> = missing.start();
    assert!(matches!(step, CommitStep::Finished(Ok(()))));
    let again = end(&mut lake, "a", 0, false);
    assert!(matches!(again, Finalized::Aborted));
}

#[test]
fn committed_transaction_is_stored() {
    let mut lake = lake();
    stage(&mut lake, "a", 0, "u", 2, 20);
    stage(&mut lake, "a", 0, "t", 1, 10);
    let ended = end(&mut lake, "a", 0, true);
    let mut step: CommitStep<'_, u32, &str> = ended.start();
    let mut topics = vec![];
    loop {
        step = match step {
            CommitStep::Store(store) => {
                topics.push(store.topic.topic.clone());
                store.stored(Ok(()))
            }
            CommitStep::Finished(result) => {
                assert_eq!(Ok(()), result);
                break;
            }
        }
    }
    assert_eq!(vec!["t", "u"], topics);
}

#[test]
fn order_of_staging_does_not_matter_for_different_writes() {
    let one = vec![pending("t", 0, 2, 1), pending("s", 1, 1, 2), pending("t", 0, 1, 3)];
    let two = vec![pending("t", 0, 1, 3), pending("t", 0, 2, 1), pending("s", 1, 1, 2)];
    assert_eq!(groups(&one), groups(&two));
}

#[test]
fn one_of_two_ends_takes_the_writes() {
    for (first, second) in [(true, true), (true, false), (false, true), (false, false)] {
        let mut lake = lake();
        stage(&mut lake, "a", 0, "t", 1, 10);
        let taken = end(&mut lake, "a", 0, first);
        assert_eq!(first, matches!(taken, Finalized::Committed(_)));
        let other = end(&mut lake, "a", 0, second);
        assert!(!matches!(other, Finalized::Committed(_)));
    }
}
