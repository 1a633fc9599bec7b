use iceberg::io::FileIOBuilder;
use iceberg::memory::MemoryCatalogBuilder;
use iceberg::spec::{
    DataContentType, DataFile, DataFileBuilder, DataFileFormat, NestedField, PrimitiveType, Schema,
    TableMetadata, Type,
};
use iceberg::table::Table;
use iceberg::writer::file_writer::location_generator::LocationGenerator;
use iceberg::{Catalog, CatalogBuilder, TableCreation};
use lake_berg::engine::{
    append_files, close_writer, data_location, evolve_table, writer_schema, EARLIEST_LOGGED_MS,
};
use lake_berg::error::LakeError;
use lake_berg::namespace::NamespaceIdent;
use lake_berg::store::{store_transaction, CloseWriter, CommitFiles, FirstBatch, StoreStep};
use lake_berg::table::{EvolveTable, TableIdent, TableStep};
use lake_berg::write::TransactionWrite;
use std::collections::HashMap;
use std::future::Future;
use std::sync::Arc;
use std::task::{Context, Poll, Wake, Waker};

struct Idle;

impl Wake for Idle {
    fn wake(self: Arc<Self>) {}
}

fn block_on<F: Future>(future: F) -> F::Output {
    let waker = Waker::from(Arc::new(Idle));
    let mut context = Context::from_waker(&waker);
    let mut future = Box::pin(future);
    loop {
        if let Poll::Ready(value) = future.as_mut().poll(&mut context) {
            return value;
        }
    }
}

const METADATA: &str = r#"{
    "format-version": 2,
    "table-uuid": "0197c7a4-9c5b-7c3e-8d2f-2f6f5a7f9e10",
    "location": "memory://lake/orders",
    "last-sequence-number": 0,
    "last-updated-ms": UPDATED,
    "last-column-id": 2,
    "current-schema-id": SCHEMA_ID,
    "schemas": [{
        "type": "struct",
        "schema-id": SCHEMA_ID,
        "fields": [
            {"id": 1, "name": "id", "required": true, "type": "long"},
            {"id": 2, "name": "day", "required": false, "type": "string"}
        ]
    }],
    "default-spec-id": 0,
    "partition-specs": [{
        "spec-id": 0,
        "fields": [{"name": "by_day", "transform": "identity", "source-id": 2, "field-id": 1000}]
    }],
    "last-partition-id": 1000,
    "default-sort-order-id": 0,
    "sort-orders": [{"order-id": 0, "fields": []}],
    "metadata-log": METADATA_LOG
}"#;

/// A table, last updated at a time and with a log of its metadata files.
fn table(schema_id: i32, updated: i64, metadata_log: &str) -> Table {
    let text = METADATA
        .replace("SCHEMA_ID", &schema_id.to_string())
        .replace("UPDATED", &updated.to_string())
        .replace("METADATA_LOG", metadata_log);
    let file_io = FileIOBuilder::new("memory").build().unwrap();
    let path = "memory://lake/orders/metadata.json";
    block_on(file_io.new_output(path).unwrap().write(text.into())).unwrap();
    let metadata = block_on(TableMetadata::read_from(&file_io, path)).unwrap();
    Table::builder()
        .file_io(file_io)
        .metadata(metadata)
        .identifier(iceberg::TableIdent::new(
            iceberg::NamespaceIdent::new("sales".to_string()),
            "orders".to_string(),
        ))
        .build()
        .unwrap()
}

fn logged_at(timestamp_ms: i64) -> String {
    format!(
        r#"[{{"metadata-file": "memory://lake/orders/0.json", "timestamp-ms": {timestamp_ms}}}]"#
    )
}

fn schema(names: &[(i32, &str)]) -> Schema {
    Schema::builder()
        .with_schema_id(7)
        .with_fields(names.iter().map(|(id, name)| {
            NestedField::optional(*id, *name, Type::Primitive(PrimitiveType::String)).into()
        }))
        .build()
        .unwrap()
}

fn evolve(
    table: Table,
    schema: Schema,
) -> Result<TableStep<Table, Schema, LakeError<()>>, EvolveTable<Table, Schema>> {
    evolve_table(EvolveTable {
        ident: TableIdent {
            namespace: NamespaceIdent::new("sales".to_string()),
            name: "orders".to_string(),
        },
        table,
        schema,
    })
}

#[test]
fn schema_is_added_to_the_metadata() {
    let table = table(0, 1_000, "[]");
    match evolve(table, schema(&[(1, "id"), (2, "day"), (3, "more")])).unwrap() {
        TableStep::Remember(remember) => {
            assert_eq!("orders", remember.ident.name);
            assert_eq!(0, remember.table.metadata().current_schema_id());
        }
        other => panic!("{other:?}"),
    }
}

#[test]
fn schema_with_the_name_of_a_partition_is_refused() {
    let table = table(0, 1_000, "[]");
    match evolve(table, schema(&[(1, "id"), (2, "day"), (3, "by_day")])).unwrap() {
        TableStep::Finished(Err(LakeError::Iceberg(err))) => {
            assert!(err.message().contains("conflicts with existing partition field name"))
        }
        other => panic!("{other:?}"),
    }
}

#[test]
fn schema_without_the_field_of_a_partition_is_refused() {
    let table = table(0, 1_000, "[]");
    let step = evolve(table, schema(&[(1, "id")])).unwrap();
    assert!(matches!(
        step,
        TableStep::Finished(Err(LakeError::Iceberg(_)))
    ));
}

#[test]
fn table_without_a_free_schema_id_is_handed_back() {
    let back = evolve(table(i32::MAX, 1_000, "[]"), schema(&[(2, "day")])).unwrap_err();
    assert_eq!("orders", back.ident.name);
    assert_eq!(i32::MAX, back.table.metadata().current_schema_id());
    assert_eq!(7, back.schema.schema_id());
}

#[test]
fn schema_that_the_table_holds_needs_no_new_id() {
    let alike = Schema::builder()
        .with_schema_id(7)
        .with_fields(vec![
            NestedField::required(1, "id", Type::Primitive(PrimitiveType::Long)).into(),
            NestedField::optional(2, "day", Type::Primitive(PrimitiveType::String)).into(),
        ])
        .build()
        .unwrap();
    let step = evolve(table(i32::MAX, 1_000, "[]"), alike.clone()).unwrap();
    assert!(matches!(step, TableStep::Remember(_)));

    let identified = alike.into_builder().with_identifier_field_ids([1]).build().unwrap();
    assert!(evolve(table(i32::MAX, 1_000, "[]"), identified).is_err());
}

#[test]
fn table_logged_long_before_its_time_is_handed_back() {
    let early = EARLIEST_LOGGED_MS - 1;
    assert!(evolve(table(0, early, &logged_at(early)), schema(&[(2, "day")])).is_err());
    let first = EARLIEST_LOGGED_MS;
    let step = evolve(table(0, first, &logged_at(first)), schema(&[(2, "day")])).unwrap();
    assert!(matches!(step, TableStep::Remember(_)));
}

#[test]
fn table_logged_in_time_to_come_is_refused() {
    let late = 8_000_000_000_000_000;
    let step = evolve(table(0, late, &logged_at(late)), schema(&[(2, "day")])).unwrap();
    match step {
        TableStep::Finished(Err(LakeError::Iceberg(err))) => {
            assert!(err.message().contains("before last metadata log entry"))
        }
        other => panic!("{other:?}"),
    }
}

#[test]
fn data_files_lie_below_the_table() {
    let batch = 5u32;
    let writes = [TransactionWrite { partition: 0, offset: 0, batch: &batch }];
    let mut step: StoreStep<'_, u32, u32, u32, u32, Table, Vec<DataFile>, ()> =
        store_transaction("orders", &writes);
    loop {
        step = match step {
            StoreStep::Convert(convert) => {
                convert.converted(Ok(FirstBatch { batch: 5, arrow: 1, schema: 2 }))
            }
            StoreStep::Table(need) => need.found(Ok(table(0, 1_000, "[]"))),
            StoreStep::Open(open) => {
                let location = data_location::<_, _, _, ()>(&open).unwrap();
                assert_eq!(table(0, 1_000, "[]").metadata().current_schema(), &writer_schema(&open));
                assert_eq!(
                    "memory://lake/orders/data/a.parquet",
                    location.generate_location(None, "a.parquet")
                );
                return;
            }
            other => panic!("{other:?}"),
        }
    }
}

#[test]
fn files_are_appended_under_the_uuid() {
    let mut props = HashMap::new();
    props.insert("warehouse".to_string(), "memory://warehouse".to_string());
    let catalog = block_on(MemoryCatalogBuilder::default().load("memory", props)).unwrap();
    let namespace = iceberg::NamespaceIdent::new("sales".to_string());
    block_on(catalog.create_namespace(&namespace, HashMap::new())).unwrap();
    let creation = TableCreation::builder()
        .name("orders".to_string())
        .schema(schema(&[(1, "id")]))
        .build();
    let table = block_on(catalog.create_table(&namespace, creation)).unwrap();
    let ident = table.identifier().clone();

    let file = DataFileBuilder::default()
        .content(DataContentType::Data)
        .file_path("memory://lake/orders/data/a.parquet".to_string())
        .file_format(DataFileFormat::Parquet)
        .file_size_in_bytes(100)
        .record_count(3)
        .partition_spec_id(table.metadata().default_partition_spec_id())
        .build()
        .unwrap();
    let commit_uuid = 0x0197c7a4_9c5b_7c3e_8d2f_2f6f5a7f9e10;
    let step = CommitFiles { table, commit_uuid, files: vec![file] };
    let append = append_files::<()>(&step).unwrap();
    block_on(append.commit(&catalog)).unwrap();

    let table = block_on(catalog.load_table(&ident)).unwrap();
    let snapshot = table.metadata().current_snapshot().unwrap();
    assert!(snapshot
        .manifest_list()
        .contains("0197c7a4-9c5b-7c3e-8d2f-2f6f5a7f9e10"));
    let properties = &snapshot.summary().additional_properties;
    assert_eq!(Some("1"), properties.get("added-data-files").map(|n| n.as_str()));
    assert_eq!(Some("3"), properties.get("added-records").map(|n| n.as_str()));
}

#[test]
fn failed_close_ends_the_store() {
    let close = CloseWriter { table: "orders" };
    let step: StoreStep<'_, u32, u32, u32, u32, &str, Vec<u32>, &str> =
        close_writer(close, Err(LakeError::Registry("full")));
    assert!(matches!(
        step,
        StoreStep::Finished(Err(LakeError::Registry("full")))
    ));
}
