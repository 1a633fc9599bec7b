use arrow_schema::{DataType, Field, Schema as ArrowSchema};
use iceberg::memory::MemoryCatalogBuilder;
use iceberg::spec::{NestedField, PrimitiveType, Schema, Type};
use iceberg::table::Table;
use iceberg::{Catalog, CatalogBuilder, TableCreation};
use lake_berg::builder::{Builder, LoadCatalog};
use lake_berg::catalog::{iceberg_catalog, CatalogKind, CatalogLoad};
use lake_berg::engine::{
    close_writer, evolve_table, first_batch, load_table, next_batch, remember_table,
};
use lake_berg::error::LakeError;
use lake_berg::house::Iceberg;
use lake_berg::locator::Url;
use lake_berg::namespace::{create_namespace as bring_about, NamespaceIdent, NamespaceStep};
use lake_berg::staging::StagedWrites;
use lake_berg::store::{store_transaction, FileFormat, StoreStep};
use lake_berg::table::{EvolveTable, LoadTable, TableCache, TableIdent, TableStep};
use lake_berg::write::{LakeHouseType, TransactionWrite};
use std::collections::HashMap;
use std::future::Future;
use std::marker::PhantomData;
use std::sync::Arc;
use std::task::{Context, Poll, Wake, Waker};

struct Idle;

impl Wake for Idle {
    fn wake(self: Arc<Self>) {}
}

fn block_on<F: Future>(future: F) -> F::Output {
    let waker = Waker::from(Arc::new(Idle));
    let mut context = Context::from_waker(&waker);
    let mut future = Box::pin(future);
    loop {
        if let Poll::Ready(value) = future.as_mut().poll(&mut context) {
            return value;
        }
    }
}

fn memory_catalog() -> Arc<dyn Catalog> {
    let load: Result<CatalogLoad, LakeError<()>> =
        iceberg_catalog(&Url::parse("memory://").unwrap(), None, vec![]);
    let load = load.unwrap();
    assert_eq!(CatalogKind::Memory, load.kind);
    let props: HashMap<String, String> = load.props.entries().iter().cloned().collect();
    Arc::new(block_on(MemoryCatalogBuilder::default().load(load.name, props)).unwrap())
}

fn outside_namespace(ident: &NamespaceIdent) -> iceberg::NamespaceIdent {
    iceberg::NamespaceIdent::new(ident.name.clone())
}

fn outside_table(ident: &TableIdent) -> iceberg::TableIdent {
    iceberg::TableIdent::new(outside_namespace(&ident.namespace), ident.name.clone())
}

type Lake = Iceberg<Arc<dyn Catalog>, TableCache<Table>, StagedWrites<u32>, ()>;

/// A lake on the catalog, in a namespace.
fn lake(catalog: &Arc<dyn Catalog>, namespace: &str) -> Lake {
    let step: Result<LoadCatalog<()>, LakeError<()>> =
        Builder::<PhantomData<Url>, PhantomData<Url>, PhantomData<()>>::default()
            .location(Url::parse("memory://").unwrap())
            .catalog(Url::parse("memory://").unwrap())
            .warehouse(None)
            .schema_registry(())
            .namespace(Some(namespace.to_string()))
            .build(vec![]);
    Iceberg::new(step.unwrap(), Ok::<_, LakeError<()>>(catalog.clone())).unwrap()
}

/// Runs the steps against the catalog: the namespace, and how often it was created.
fn namespace_of(lake: &Lake) -> (iceberg::Result<NamespaceIdent>, usize) {
    let catalog = &lake.catalog;
    let mut created = 0;
    let mut step: NamespaceStep<iceberg::Error> = lake.create_namespace();
    loop {
        step = match step {
            NamespaceStep::Check(check) => {
                let reply = block_on(catalog.namespace_exists(&outside_namespace(&check.ident)));
                check.checked(reply)
            }
            NamespaceStep::Create(create) => {
                created += 1;
                let ident = outside_namespace(&create.ident);
                let props = create.props().entries().iter().cloned().collect();
                let reply = block_on(catalog.create_namespace(&ident, props));
                create.created(reply.map(|_| ()))
            }
            NamespaceStep::Finished(result) => return (result, created),
        }
    }
}

/// Runs the steps against the catalog: the table, and the names of the steps.
fn table_of(
    lake: &mut Lake,
    name: &str,
    schema: Schema,
) -> (Result<Table, LakeError<()>>, Vec<&'static str>) {
    let catalog = lake.catalog.clone();
    let mut trace = vec![];
    let mut step: TableStep<Table, Schema, LakeError<()>> =
        lake.load_or_create_table(name, schema);
    loop {
        step = match step {
            TableStep::FindNamespace(find) => {
                trace.push("find namespace");
                let ident = outside_namespace(&find.namespace.ident);
                let reply = block_on(catalog.namespace_exists(&ident));
                find.checked(reply.map_err(LakeError::Iceberg))
            }
            TableStep::MakeNamespace(make) => {
                trace.push("make namespace");
                let ident = outside_namespace(&make.namespace.ident);
                let reply = block_on(catalog.create_namespace(&ident, HashMap::new()));
                make.created(reply.map(|_| ()).map_err(LakeError::Iceberg))
            }
            TableStep::Check(check) => {
                trace.push("check");
                let reply = block_on(catalog.table_exists(&outside_table(&check.ident)));
                check.checked(reply.map_err(LakeError::Iceberg))
            }
            TableStep::Load(load) => {
                trace.push("load");
                let reply = block_on(catalog.load_table(&outside_table(&load.ident)));
                load_table(load, reply.map_err(LakeError::Iceberg))
            }
            TableStep::Evolve(evolve) => {
                trace.push("evolve");
                evolve_table(evolve).unwrap()
            }
            TableStep::Create(create) => {
                trace.push("create");
                let creation = TableCreation::builder()
                    .name(create.ident.name.clone())
                    .schema(create.schema.clone())
                    .build();
                let namespace = outside_namespace(&create.ident.namespace);
                let reply = block_on(catalog.create_table(&namespace, creation));
                create.created(reply.map_err(LakeError::Iceberg))
            }
            TableStep::Remember(remember) => {
                trace.push("remember");
                return (Ok(remember_table(remember, &mut lake.tables)), trace);
            }
            TableStep::Finished(result) => return (result, trace),
        }
    }
}

fn schema() -> Schema {
    Schema::builder()
        .with_fields(vec![
            NestedField::optional(1, "foo", Type::Primitive(PrimitiveType::String)).into(),
            NestedField::required(2, "bar", Type::Primitive(PrimitiveType::Int)).into(),
            NestedField::optional(3, "baz", Type::Primitive(PrimitiveType::Boolean)).into(),
        ])
        .with_schema_id(1)
        .with_identifier_field_ids(vec![2])
        .build()
        .unwrap()
}

fn wider_schema() -> Schema {
    Schema::builder()
        .with_fields(vec![
            NestedField::optional(1, "foo", Type::Primitive(PrimitiveType::String)).into(),
            NestedField::required(2, "bar", Type::Primitive(PrimitiveType::Int)).into(),
            NestedField::optional(3, "baz", Type::Primitive(PrimitiveType::Boolean)).into(),
            NestedField::optional(4, "more", Type::Primitive(PrimitiveType::Long)).into(),
        ])
        .with_schema_id(2)
        .build()
        .unwrap()
}

fn arrow(names: &[&str]) -> Arc<ArrowSchema> {
    let fields: Vec<Field> = names
        .iter()
        .enumerate()
        .map(|(i, name)| {
            let mut metadata = HashMap::new();
            metadata.insert("PARQUET:field_id".to_string(), (i + 1).to_string());
            Field::new(*name, DataType::Int64, true).with_metadata(metadata)
        })
        .collect();
    Arc::new(ArrowSchema::new(fields))
}

type Step<'a> =
    StoreStep<'a, u32, String, Arc<ArrowSchema>, Schema, String, Vec<String>, &'static str>;

fn writes(batches: &[u32]) -> Vec<TransactionWrite<'_, u32>> {
    batches
        .iter()
        .enumerate()
        .map(|(i, batch)| TransactionWrite {
            partition: 3,
            offset: 42 + i as i64,
            batch,
        })
        .collect()
}

/// Runs the steps: the result, the batches that were written, the files that were committed, and
/// the suffix of the files.
fn run<'a>(
    mut step: Step<'a>,
    schema_of: fn(u32) -> Arc<ArrowSchema>,
) -> (
    Result<(), LakeError<&'static str>>,
    Vec<String>,
    Vec<String>,
    String,
) {
    let mut written = vec![];
    let mut committed = vec![];
    let mut suffix = String::new();
    loop {
        step = match step {
            StoreStep::Convert(convert) => {
                let asked = convert.batches.conversion();
                assert_eq!(("topic", 3), (asked.topic, asked.partition));
                assert_eq!(LakeHouseType::Iceberg, asked.lake_type);
                let batch = *asked.batch;
                first_batch(convert, Ok((format!("b{batch}"), schema_of(batch))))
            }
            StoreStep::Table(need) => {
                let table = need.batches.topic().to_string();
                need.found(Ok(table))
            }
            StoreStep::Open(open) => {
                let names = open.file_names();
                assert_eq!("topic", names.prefix);
                assert_eq!(FileFormat::Parquet, names.format);
                suffix = names.suffix;
                open.opened(Ok(()))
            }
            StoreStep::Write(write) => {
                written.push(write.batch.clone());
                write.progress.written(Ok(()))
            }
            StoreStep::Next(next) => {
                let batch = *next.progress.batches.write().batch;
                next_batch(next, Ok((format!("b{batch}"), schema_of(batch))))
            }
            StoreStep::Close(close) => close_writer(close, Ok(written.clone())),
            StoreStep::Commit(commit) => {
                assert_eq!("topic", commit.table);
                committed = commit.files.clone();
                commit.committed(Ok(()))
            }
            StoreStep::Finished(result) => return (result, written, committed, suffix),
        }
    }
}

fn one_schema(_batch: u32) -> Arc<ArrowSchema> {
    arrow(&["x", "y"])
}

fn odd_schema(batch: u32) -> Arc<ArrowSchema> {
    if batch == 9 {
        arrow(&["x"])
    } else {
        arrow(&["x", "y"])
    }
}

#[test]
fn create_namespace() {
    let catalog = memory_catalog();
    let (ident, created) = namespace_of(&lake(&catalog, "abcde"));
    assert_eq!("abcde", ident.unwrap().to_url_string());
    assert_eq!(1, created);
}

#[test]
fn create_duplicate_namespace() {
    let catalog = memory_catalog();
    let (ident, created) = namespace_of(&lake(&catalog, "abcde"));
    assert_eq!("abcde", ident.unwrap().to_url_string());
    assert_eq!(1, created);

    let (ident, created) = namespace_of(&lake(&catalog, "abcde"));
    assert_eq!("abcde", ident.unwrap().to_url_string());
    assert_eq!(0, created);
}

#[test]
fn namespace_steps_hand_errors_on() {
    let step: NamespaceStep<&str> = bring_about("n".to_string());
    match step {
        NamespaceStep::Check(check) => match check.checked(Err("down")) {
            NamespaceStep::Finished(result) => assert!(matches!(result, Err("down"))),
            other => panic!("{other:?}"),
        },
        other => panic!("{other:?}"),
    }
    let step: NamespaceStep<&str> = bring_about("n".to_string());
    match step {
        NamespaceStep::Check(check) => match check.checked::<&str>(Ok(false)) {
            NamespaceStep::Create(create) => match create.created(Err("full")) {
                NamespaceStep::Finished(result) => assert!(matches!(result, Err("full"))),
                other => panic!("{other:?}"),
            },
            other => panic!("{other:?}"),
        },
        other => panic!("{other:?}"),
    }
}

#[test]
fn create_table() {
    let catalog = memory_catalog();
    let mut lake = lake(&catalog, "abcde");
    let (table, trace) = table_of(&mut lake, "fghij", schema());
    let table = table.unwrap();
    assert_eq!("fghij", table.identifier().name());
    assert_eq!("abcde", table.identifier().namespace().to_url_string());
    assert_eq!(
        vec!["find namespace", "make namespace", "check", "create", "remember"],
        trace
    );
}

#[test]
fn create_duplicate_table() {
    let catalog = memory_catalog();

    {
        let mut lake = lake(&catalog, "abcde");
        let (table, _) = table_of(&mut lake, "fghij", schema());
        let table = table.unwrap();
        assert_eq!("fghij", table.identifier().name());
        assert_eq!("abcde", table.identifier().namespace().to_url_string());
    }

    {
        let mut lake = lake(&catalog, "abcde");
        let (table, trace) = table_of(&mut lake, "fghij", schema());
        let table = table.unwrap();
        assert_eq!("fghij", table.identifier().name());
        assert_eq!("abcde", table.identifier().namespace().to_url_string());
        assert_eq!(vec!["find namespace", "check", "load", "evolve", "remember"], trace);
    }
}

#[test]
fn known_table_is_not_asked_for() {
    let catalog = memory_catalog();
    let mut lake = lake(&catalog, "abcde");
    table_of(&mut lake, "fghij", schema()).0.unwrap();
    let (table, trace) = table_of(&mut lake, "fghij", wider_schema());
    assert_eq!("fghij", table.unwrap().identifier().name());
    assert!(trace.is_empty());
}

#[test]
fn table_with_its_schema_is_taken_as_it_is() {
    let catalog = memory_catalog();
    let made = table_of(&mut lake(&catalog, "abcde"), "fghij", schema()).0.unwrap();
    let current = made.metadata().current_schema().as_ref().clone();
    let (_, trace) = table_of(&mut lake(&catalog, "abcde"), "fghij", current);
    assert_eq!(vec!["find namespace", "check", "load", "remember"], trace);
}

#[test]
fn table_with_another_schema_evolves() {
    let catalog = memory_catalog();
    let made = table_of(&mut lake(&catalog, "abcde"), "fghij", schema()).0.unwrap();
    let (table, trace) =
        table_of(&mut lake(&catalog, "abcde"), "fghij", wider_schema());
    assert_eq!(vec!["find namespace", "check", "load", "evolve", "remember"], trace);
    assert_eq!(
        made.metadata().current_schema(),
        table.unwrap().metadata().current_schema()
    );
}

#[test]
fn table_steps_hand_errors_on() {
    let ident = || TableIdent {
        namespace: NamespaceIdent::new("n".to_string()),
        name: "t".to_string(),
    };
    let load = LoadTable { ident: ident(), schema: 1 };
    let step: TableStep<(), i32, &str> = load.loaded(Err("gone"), true);
    assert!(matches!(step, TableStep::Finished(Err("gone"))));
    let evolve = EvolveTable { ident: ident(), table: 5, schema: 1 };
    let step: TableStep<i32, i32, &str> = evolve.evolved(Err("bad"));
    assert!(matches!(step, TableStep::Finished(Err("bad"))));
}

#[test]
fn writes_are_stored_and_committed_together() {
    let batches = [4, 5, 6];
    let writes = writes(&batches);
    let (result, written, committed, suffix) = run(store_transaction("topic", &writes), one_schema);
    assert!(result.is_ok());
    assert_eq!(vec!["b4", "b5", "b6"], written);
    assert_eq!(written, committed);
    assert_eq!("txn-0000000003-00000000000000000042", suffix);
}

#[test]
fn nothing_to_store() {
    let step: Step<'_> = store_transaction("topic", &[]);
    assert!(matches!(step, StoreStep::Finished(Ok(()))));
}

#[test]
fn other_schema_rejects_the_transaction() {
    let batches = [4, 9, 6];
    let writes = writes(&batches);
    let (result, written, committed, _) = run(store_transaction("topic", &writes), odd_schema);
    match result {
        Err(LakeError::Message(message)) => assert_eq!(
            "schema mismatch in transactional write for topic=topic, partition=3, offset=43",
            message
        ),
        other => panic!("{other:?}"),
    }
    assert_eq!(vec!["b4"], written);
    assert!(committed.is_empty());
}

#[test]
fn file_suffix_of_negative_numbers() {
    let write = TransactionWrite { partition: i32::MIN, offset: i64::MIN, batch: &1u32 };
    let writes = [write];
    let step: Step<'_> = store_transaction("topic", &writes);
    match step {
        StoreStep::Convert(convert) => assert_eq!(
            format!(
                "txn-{partition:0>10}-{offset:0>20}",
                partition = i32::MIN,
                offset = i64::MIN
            ),
            convert.batches.file_suffix()
        ),
        other => panic!("{other:?}"),
    }
    let write = TransactionWrite { partition: -5, offset: -7, batch: &1u32 };
    let writes = [write];
    let step: Step<'_> = store_transaction("topic", &writes);
    match step {
        StoreStep::Convert(convert) => assert_eq!(
            "txn-00000000-5-000000000000000000-7",
            convert.batches.file_suffix()
        ),
        other => panic!("{other:?}"),
    }
}

#[test]
fn schema_of_the_first_batch_goes_to_the_table() {
    let batches = [4];
    let writes = writes(&batches);
    let step: Step<'_> = store_transaction("topic", &writes);
    match step {
        StoreStep::Convert(convert) => {
            let next: Step<'_> = first_batch(convert, Ok(("b".to_string(), arrow(&["x", "y"]))));
            match next {
                StoreStep::Table(need) => {
                    let fields = need.schema.as_struct().fields();
                    assert_eq!(2, fields.len());
                    assert_eq!(("x", 1), (fields[0].name.as_str(), fields[0].id));
                    assert_eq!(("y", 2), (fields[1].name.as_str(), fields[1].id));
                }
                other => panic!("{other:?}"),
            }
        }
        other => panic!("{other:?}"),
    }
}

#[test]
fn first_batch_without_field_ids_is_refused() {
    let batches = [4];
    let writes = writes(&batches);
    let step: Step<'_> = store_transaction("topic", &writes);
    match step {
        StoreStep::Convert(convert) => {
            let bare = Arc::new(ArrowSchema::new(vec![Field::new("x", DataType::Int64, true)]));
            let next: Step<'_> = first_batch(convert, Ok(("b".to_string(), bare)));
            assert!(matches!(next, StoreStep::Finished(Err(LakeError::Iceberg(_)))));
        }
        other => panic!("{other:?}"),
    }
}

#[test]
fn registry_error_ends_the_store() {
    let batches = [4];
    let writes = writes(&batches);
    let step: Step<'_> = store_transaction("topic", &writes);
    match step {
        StoreStep::Convert(convert) => {
            let next: Step<'_> = first_batch(convert, Err(LakeError::Registry("unknown")));
            assert!(matches!(
                next,
                StoreStep::Finished(Err(LakeError::Registry("unknown")))
            ));
        }
        other => panic!("{other:?}"),
    }
}

#[test]
fn commit_uuid_is_time_ordered() {
    let batches = [4];
    let writes = writes(&batches);
    let mut step: Step<'_> = store_transaction("topic", &writes);
    loop {
        step = match step {
            StoreStep::Convert(convert) => {
                first_batch(convert, Ok(("b".to_string(), arrow(&["x"]))))
            }
            StoreStep::Table(need) => need.found(Ok("topic".to_string())),
            StoreStep::Open(open) => open.opened(Ok(())),
            StoreStep::Write(write) => write.progress.written(Ok(())),
            StoreStep::Close(close) => close_writer(close, Ok(vec![])),
            StoreStep::Commit(commit) => {
                let commit_uuid = uuid::Uuid::from_u128(commit.commit_uuid);
                assert_eq!(7, commit_uuid.get_version_num());
                assert_eq!(uuid::Variant::RFC4122, commit_uuid.get_variant());
                let failed: Step<'_> = commit.committed(Err(LakeError::Registry("late")));
                assert!(matches!(
                    failed,
                    StoreStep::Finished(Err(LakeError::Registry("late")))
                ));
                return;
            }
            other => panic!("{other:?}"),
        }
    }
}

#[test]
fn failed_write_ends_the_store() {
    let batches = [4, 5];
    let writes = writes(&batches);
    let mut step: Step<'_> = store_transaction("topic", &writes);
    loop {
        step = match step {
            StoreStep::Convert(convert) => {
                first_batch(convert, Ok(("b".to_string(), arrow(&["x"]))))
            }
            StoreStep::Table(need) => need.found(Ok("topic".to_string())),
            StoreStep::Open(open) => open.opened(Ok(())),
            StoreStep::Write(write) => write
                .progress
                .written(Err(LakeError::Message("disk".to_string()))),
            StoreStep::Finished(result) => {
                assert!(matches!(result, Err(LakeError::Message(m)) if m == "disk"));
                return;
            }
            other => panic!("{other:?}"),
        }
    }
}

#[test]
fn files_are_named_by_the_first_write() {
    let batch = 1u32;
    let writes = [
        TransactionWrite { partition: 7, offset: 42, batch: &batch },
        TransactionWrite { partition: 8, offset: 43, batch: &batch },
    ];
    let mut step: Step<'_> = store_transaction("topic-a", &writes);
    loop {
        step = match step {
            StoreStep::Convert(convert) => {
                first_batch(convert, Ok(("b".to_string(), arrow(&["x"]))))
            }
            StoreStep::Table(need) => need.found(Ok("topic-a".to_string())),
            StoreStep::Open(open) => {
                let names = open.file_names();
                assert_eq!("topic-a", names.prefix);
                assert_eq!("txn-0000000007-00000000000000000042", names.suffix);
                assert_eq!(FileFormat::Parquet, names.format);
                return;
            }
            other => panic!("{other:?}"),
        }
    }
}
