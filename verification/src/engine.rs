//! The steps that need the iceberg, arrow and uuid crates: the schemas of batches and tables, the
//! metadata and the files of a table, and the commit of files under a UUID.

use crate::error::{outcome, LakeError, LakeErrorView};
use crate::store::{
    first_converted, next_converted, writer_closed, CloseWriter, CommitFiles, ConvertFirst,
    ConvertNext, FirstBatch, OpenWriter, StoreStep, StoreView,
};
use crate::table::{
    table_evolved, table_loaded, EvolveTable, LoadTable, RememberTable, TableCache, TableStep,
    TableView,
};
use iceberg::transaction::ApplyTransactionAction;
use std::sync::Arc;
use vstd::prelude::*;

verus! {

/// A schema of the arrow crates. Two values are the same where the crate's own `==` says so.
#[verifier::external_type_specification]
#[verifier::external_body]
pub struct ExArrowSchema(arrow_schema::Schema);

/// A schema of the iceberg crate. Two values are the same where the crate's own `==` says so.
#[verifier::external_type_specification]
#[verifier::external_body]
pub struct ExTableSchema(iceberg::spec::Schema);

/// A table of the iceberg crate.
#[verifier::external_type_specification]
#[verifier::external_body]
pub struct ExTable(iceberg::table::Table);

/// What `iceberg::spec::Schema::try_from` makes of an arrow schema: the schema of a table, if the
/// arrow schema can be converted.
pub uninterp spec fn table_schema_of(arrow: arrow_schema::Schema) -> Option<iceberg::spec::Schema>;

/// Calls `iceberg::spec::Schema::try_from`. The contract claims that it depends on nothing but the
/// arrow schema whether there is a schema of a table for it, and which. Nothing is said of the
/// error.
#[verifier::external_body]
fn convert_schema(arrow: &arrow_schema::Schema) -> (schema: Result<
    iceberg::spec::Schema,
    iceberg::Error,
>)
    ensures
        match schema {
            Ok(schema) => table_schema_of(*arrow) == Some(schema),
            Err(_) => table_schema_of(*arrow) is None,
        },
{
    iceberg::spec::Schema::try_from(arrow)
}

/// Compares two arrow schemas by the `==` of `arrow_schema::Schema`. The contract claims that it is
/// the equality of the two.
#[verifier::external_body]
fn same_schema(a: &arrow_schema::Schema, b: &arrow_schema::Schema) -> (same: bool)
    ensures
        same == (*a == *b),
{
    a == b
}

/// What `iceberg::spec::TableMetadata::current_schema` gives for the metadata of a table.
pub uninterp spec fn current_schema_of(table: iceberg::table::Table) -> iceberg::spec::Schema;

/// Takes the schema of a table by `iceberg::table::Table::metadata` and
/// `iceberg::spec::TableMetadata::current_schema`. The contract claims that it depends on nothing but
/// the table. That the metadata of a table holds the table's current schema, without which the call
/// would panic, the iceberg crate checks where it makes or reads metadata.
#[verifier::external_body]
fn current_schema(table: &iceberg::table::Table) -> (schema: Arc<iceberg::spec::Schema>)
    ensures
        *schema == current_schema_of(*table),
{
    table.metadata().current_schema().clone()
}

/// Compares two schemas of tables by the `==` of `iceberg::spec::Schema`. The contract claims that it
/// is the equality of the two.
#[verifier::external_body]
fn same_table_schema(a: &iceberg::spec::Schema, b: &iceberg::spec::Schema) -> (same: bool)
    ensures
        same == (*a == *b),
{
    a == b
}

/// Clones a table by `iceberg::table::Table::clone`, which clones what the table is made of. The
/// contract claims that the clone is the table.
pub assume_specification[ <iceberg::table::Table as Clone>::clone ](
    table: &iceberg::table::Table,
) -> (copy: iceberg::table::Table)
    ensures
        copy == *table,
;

/// The fields of a schema. Two values are the same where the crate's own `==` says so.
#[verifier::external_type_specification]
#[verifier::external_body]
pub struct ExStructType(iceberg::spec::StructType);

/// What `iceberg::spec::Schema::as_struct` gives for a schema.
pub uninterp spec fn fields_of(schema: iceberg::spec::Schema) -> iceberg::spec::StructType;

/// Compares what `iceberg::spec::Schema::as_struct` gives for two schemas, by the `==` of
/// `iceberg::spec::StructType`. The contract claims that the fields depend on nothing but the
/// schema, and that the comparison is their equality.
#[verifier::external_body]
fn same_fields(a: &iceberg::spec::Schema, b: &iceberg::spec::Schema) -> (same: bool)
    ensures
        same == (fields_of(*a) == fields_of(*b)),
{
    a.as_struct() == b.as_struct()
}

/// The ids that `iceberg::spec::Schema::identifier_field_ids` gives for a schema.
pub uninterp spec fn identifier_ids_of(schema: iceberg::spec::Schema) -> Set<i32>;

/// Collects the ids that `iceberg::spec::Schema::identifier_field_ids` gives. The contract claims
/// that it gives no id twice, and that it depends on nothing but the schema which ids these are.
/// Their order is that of a hash set, and nothing is said of it.
#[verifier::external_body]
fn identifier_ids(schema: &iceberg::spec::Schema) -> (ids: Vec<i32>)
    ensures
        ids@.no_duplicates(),
        ids@.to_set() == identifier_ids_of(*schema),
{
    schema.identifier_field_ids().collect()
}

/// Whether a schema is among those that `iceberg::spec::TableMetadata::schemas_iter` gives for the
/// metadata of a table.
pub uninterp spec fn holds_schema(
    table: iceberg::table::Table,
    schema: iceberg::spec::Schema,
) -> bool;

/// Collects the schemas that `iceberg::spec::TableMetadata::schemas_iter` gives for the metadata of
/// `table`. The contract claims that it depends on nothing but the table which schemas these are.
/// Their order is that of a hash map, and nothing is said of it.
#[verifier::external_body]
fn held_schemas(table: &iceberg::table::Table) -> (schemas: Vec<iceberg::spec::Schema>)
    ensures
        forall|schema: iceberg::spec::Schema| #[trigger]
            holds_schema(*table, schema) <==> schemas@.contains(schema),
{
    table.metadata().schemas_iter().map(|schema| schema.as_ref().clone()).collect()
}

/// Whether `iceberg::spec::TableMetadata::schema_by_id` finds a schema of the id in the metadata of a
/// table.
pub uninterp spec fn schema_id_taken(table: iceberg::table::Table, schema_id: i32) -> bool;

/// Calls `iceberg::spec::TableMetadata::schema_by_id` on the metadata of `table`. The contract claims
/// that it depends on nothing but the table and the id whether there is a schema.
#[verifier::external_body]
fn has_schema_id(table: &iceberg::table::Table, schema_id: i32) -> (taken: bool)
    ensures
        taken == schema_id_taken(*table, schema_id),
{
    table.metadata().schema_by_id(schema_id).is_some()
}

/// The time of the last entry of `iceberg::spec::TableMetadata::history` of a table, if any.
pub uninterp spec fn last_snapshot_ms(table: iceberg::table::Table) -> Option<i64>;

/// Takes the time of the last entry of `iceberg::spec::TableMetadata::history`, the log of the
/// snapshots of `table`. The contract claims that it depends on nothing but the table.
#[verifier::external_body]
fn last_snapshot(table: &iceberg::table::Table) -> (timestamp_ms: Option<i64>)
    ensures
        timestamp_ms == last_snapshot_ms(*table),
{
    table.metadata().history().last().map(|entry| entry.timestamp_ms)
}

/// The time of the last entry of `iceberg::spec::TableMetadata::metadata_log` of a table, if any.
pub uninterp spec fn last_metadata_ms(table: iceberg::table::Table) -> Option<i64>;

/// Takes the time of the last entry of `iceberg::spec::TableMetadata::metadata_log`, the log of the
/// metadata files of `table`. The contract claims that it depends on nothing but the table.
#[verifier::external_body]
fn last_metadata(table: &iceberg::table::Table) -> (timestamp_ms: Option<i64>)
    ensures
        timestamp_ms == last_metadata_ms(*table),
{
    table.metadata().metadata_log().last().map(|entry| entry.timestamp_ms)
}

/// A builder of the metadata of a table.
#[verifier::external_type_specification]
#[verifier::external_body]
pub struct ExMetadataBuilder(iceberg::spec::TableMetadataBuilder);

/// Whether `builder` may come of adding `schema` to the metadata of `table`, as the current schema,
/// by `iceberg::spec::TableMetadataBuilder::add_current_schema`.
pub uninterp spec fn is_evolution(
    table: iceberg::table::Table,
    schema: iceberg::spec::Schema,
    builder: iceberg::spec::TableMetadataBuilder,
) -> bool;

/// Starts from the metadata of `table` by `iceberg::spec::TableMetadataBuilder::new_from_metadata`,
/// and calls `add_current_schema`, which is `add_schema` and then `set_current_schema` for the
/// schema that was added last. The contract claims that it depends on nothing but the table and the
/// schema whether that succeeds, and that a builder that is returned is one that may come of it.
/// Which id the schema gets is not said: of several schemas alike, any may lend its own. A schema
/// that is new gets the id above the highest of the table, so there has to be one, or a schema that
/// is found to be alike.
#[verifier::external_body]
fn with_current_schema(
    table: &iceberg::table::Table,
    schema: &iceberg::spec::Schema,
) -> (builder: Result<iceberg::spec::TableMetadataBuilder, iceberg::Error>)
    requires
        has_room(*table, *schema),
    ensures
        match builder {
            Ok(builder) => is_evolution(*table, *schema, builder),
            Err(_) => forall|none: iceberg::spec::TableMetadataBuilder|
                !is_evolution(*table, *schema, none),
        },
{
    iceberg::spec::TableMetadataBuilder::new_from_metadata(
        table.metadata().to_owned(),
        table.metadata_location().map(|location| location.to_owned()),
    ).add_current_schema(schema.clone())
}

/// Whether there is a time at which `iceberg::spec::TableMetadataBuilder::build` succeeds.
pub uninterp spec fn can_be_built(builder: iceberg::spec::TableMetadataBuilder) -> bool;

/// Calls `iceberg::spec::TableMetadataBuilder::build`, and leaves the metadata. `build` stamps the
/// metadata with the time, and refuses it where that lies before the logs of the table; nothing else
/// in it rests on the time. The contract claims that it succeeds on no builder on which it can succeed
/// at no time, and, where the logs lie before all times of the clock, that it succeeds on the others.
/// Where a log is later, it is not said whether the clock has come that far. `build` takes the last
/// times of the logs from the time, so these have to be in range.
#[verifier::external_body]
fn build_metadata(builder: iceberg::spec::TableMetadataBuilder) -> (built: Result<
    (),
    iceberg::Error,
>)
    requires
        logs_in_range(builder),
    ensures
        built is Ok ==> can_be_built(builder),
        logs_are_past(builder) ==> built is Ok == can_be_built(builder),
{
    builder.build().map(|_| ())
}

/// The earliest time that every time of the clock is at most `i64::MAX` milliseconds after. The
/// clock gives no time behind the end of the year 262142.
pub const EARLIEST_LOGGED_MS: i64 = -9215161769977975808;

/// Whether a time of a log, if there is one, can be taken from the time of the clock.
pub open spec fn in_range(timestamp_ms: Option<i64>) -> bool {
    timestamp_ms matches Some(ms) ==> ms >= EARLIEST_LOGGED_MS
}

/// Whether two schemas are found to be alike, whatever their ids are: they have the same fields and
/// the same identifier field, if any. Several identifier fields are compared in the order of a hash
/// set, and may be found to differ though they are the same.
pub open spec fn alike(a: iceberg::spec::Schema, b: iceberg::spec::Schema) -> bool {
    &&& fields_of(a) == fields_of(b)
    &&& identifier_ids_of(a) == identifier_ids_of(b)
    &&& identifier_ids_of(a).len() <= 1
}

/// Whether one of the schemas of a table is found to be like the schema.
pub open spec fn holds_alike(
    table: iceberg::table::Table,
    schema: iceberg::spec::Schema,
) -> bool {
    exists|held: iceberg::spec::Schema| #[trigger] holds_schema(table, held) && alike(schema, held)
}

/// Whether there is an id for the schema in the metadata of a table: one that no schema has, or
/// that of a schema alike.
pub open spec fn has_room(table: iceberg::table::Table, schema: iceberg::spec::Schema) -> bool {
    !schema_id_taken(table, i32::MAX) || holds_alike(table, schema)
}

/// Whether the metadata of a table can be built anew with the schema, whatever the time is: there is
/// an id for the schema, and the times of the table's logs are in range.
pub open spec fn can_evolve(table: iceberg::table::Table, schema: iceberg::spec::Schema) -> bool {
    &&& has_room(table, schema)
    &&& in_range(last_snapshot_ms(table))
    &&& in_range(last_metadata_ms(table))
}

/// Whether the builder is one for a table whose logs are in range.
pub open spec fn logs_in_range(builder: iceberg::spec::TableMetadataBuilder) -> bool {
    exists|table: iceberg::table::Table, schema: iceberg::spec::Schema| #[trigger]
        is_evolution(table, schema, builder) && can_evolve(table, schema)
}

/// Whether a time of a log, if there is one, lies before all times of the clock, which gives none
/// before 1970.
pub open spec fn in_past(timestamp_ms: Option<i64>) -> bool {
    timestamp_ms matches Some(ms) ==> ms <= 0
}

/// Whether the logs of a table, if there are any, lie before all times of the clock.
pub open spec fn is_past(table: iceberg::table::Table) -> bool {
    in_past(last_snapshot_ms(table)) && in_past(last_metadata_ms(table))
}

/// Whether the builder is one for a table whose logs lie before all times of the clock.
pub open spec fn logs_are_past(builder: iceberg::spec::TableMetadataBuilder) -> bool {
    exists|table: iceberg::table::Table, schema: iceberg::spec::Schema| #[trigger]
        is_evolution(table, schema, builder) && is_past(table)
}

/// Whether the schema can be added to the metadata of the table, as the current one.
pub open spec fn schema_addable(
    table: iceberg::table::Table,
    schema: iceberg::spec::Schema,
) -> bool {
    exists|builder: iceberg::spec::TableMetadataBuilder| is_evolution(table, schema, builder)
}

/// Whether the metadata of the table can be built, with the schema as the current one and under
/// whatever id.
pub open spec fn schema_always_fits(
    table: iceberg::table::Table,
    schema: iceberg::spec::Schema,
) -> bool {
    &&& schema_addable(table, schema)
    &&& forall|builder: iceberg::spec::TableMetadataBuilder| #[trigger]
        is_evolution(table, schema, builder) ==> can_be_built(builder)
}

/// Whether the metadata of the table, with the schema as the current one, can be built.
pub open spec fn schema_fits(table: iceberg::table::Table, schema: iceberg::spec::Schema) -> bool {
    exists|builder: iceberg::spec::TableMetadataBuilder| #[trigger]
        is_evolution(table, schema, builder) && can_be_built(builder)
}

/// What generates the locations of the data files of a table.
#[verifier::external_type_specification]
#[verifier::external_body]
pub struct ExLocationGenerator(
    iceberg::writer::file_writer::location_generator::DefaultLocationGenerator,
);

/// What `DefaultLocationGenerator::new` makes of the metadata of a table.
pub uninterp spec fn location_of(
    table: iceberg::table::Table,
) -> iceberg::writer::file_writer::location_generator::DefaultLocationGenerator;

/// Calls `iceberg::writer::file_writer::location_generator::DefaultLocationGenerator::new` on the
/// metadata of `table`. The contract claims that it succeeds, and depends on nothing but the table.
#[verifier::external_body]
fn new_location_generator(table: &iceberg::table::Table) -> (location: Result<
    iceberg::writer::file_writer::location_generator::DefaultLocationGenerator,
    iceberg::Error,
>)
    ensures
        location is Ok,
        location->Ok_0 == location_of(*table),
{
    iceberg::writer::file_writer::location_generator::DefaultLocationGenerator::new(
        table.metadata().clone(),
    )
}

/// A data file of a table.
#[verifier::external_type_specification]
#[verifier::external_body]
pub struct ExDataFile(iceberg::spec::DataFile);

/// A change of a table that is to be committed.
#[verifier::external_type_specification]
#[verifier::external_body]
pub struct ExTransaction(iceberg::transaction::Transaction);

/// The transaction that appends data files to a table, as one commit under a UUID.
pub uninterp spec fn append_of(
    table: iceberg::table::Table,
    commit_uuid: u128,
    files: Seq<iceberg::spec::DataFile>,
) -> iceberg::transaction::Transaction;

/// Makes a transaction on `table` by `iceberg::transaction::Transaction::new`, and puts into it, by
/// `apply`, the `fast_append` of the files under the UUID. Nothing is committed by that. The
/// contract claims that it succeeds, and depends on nothing but the table, the UUID and the files.
#[verifier::external_body]
fn fast_append(
    table: &iceberg::table::Table,
    commit_uuid: u128,
    files: &Vec<iceberg::spec::DataFile>,
) -> (tx: Result<iceberg::transaction::Transaction, iceberg::Error>)
    ensures
        tx is Ok,
        tx->Ok_0 == append_of(*table, commit_uuid, files@),
{
    let tx = iceberg::transaction::Transaction::new(table);
    let action = tx.fast_append()
        .set_commit_uuid(uuid::Uuid::from_u128(commit_uuid))
        .add_data_files(files.clone());
    action.apply(tx)
}

/// Whether `uuid` has the version and the variant of a UUID that begins with the time.
pub open spec fn is_time_ordered(uuid: u128) -> bool {
    &&& (uuid >> 76) & 0xf == 7
    &&& (uuid >> 62) & 0x3 == 2
}

/// Calls `uuid::Uuid::now_v7`. The contract claims the version and the variant of the UUID, which
/// every outcome has; the rest of it is the time and chance. The call needs a clock that stands after
/// the start of 1970, and a source of random numbers.
#[verifier::external_body]
fn new_commit_uuid() -> (commit_uuid: u128)
    ensures
        is_time_ordered(commit_uuid),
{
    uuid::Uuid::now_v7().as_u128()
}

/// The first batch with its schemas: `reply` is what the schema registry answered, and `schema` what
/// the conversion of the batch's schema gave.
pub open spec fn with_table_schema<R, E>(
    reply: Result<(R, Arc<arrow_schema::Schema>), LakeErrorView<E>>,
    schema: Result<iceberg::spec::Schema, iceberg::Error>,
) -> Result<FirstBatch<R, Arc<arrow_schema::Schema>, iceberg::spec::Schema>, LakeErrorView<E>> {
    match reply {
        Ok((batch, arrow)) => match schema {
            Ok(schema) => Ok(FirstBatch { batch, arrow, schema }),
            Err(err) => Err(LakeErrorView::Iceberg(err)),
        },
        Err(err) => Err(err),
    }
}

/// Goes on when the schema registry has converted the first batch: `reply` gives the batch in the
/// form of the table, and its schema.
pub fn first_batch<'a, B, R, T, F, E>(
    step: ConvertFirst<'a, B>,
    reply: Result<(R, Arc<arrow_schema::Schema>), LakeError<E>>,
) -> (next: StoreStep<
    'a,
    B,
    R,
    Arc<arrow_schema::Schema>,
    iceberg::spec::Schema,
    T,
    F,
    E,
>)
    ensures
        exists|schema: Result<iceberg::spec::Schema, iceberg::Error>|
            (reply matches Ok((_, arrow)) ==> match schema {
                Ok(schema) => table_schema_of(*arrow) == Some(schema),
                Err(_) => table_schema_of(*arrow) is None,
            }) && next@ == first_converted::<
                B,
                R,
                Arc<arrow_schema::Schema>,
                iceberg::spec::Schema,
                T,
                F,
                E,
            >(step.batches@, #[trigger] with_table_schema(outcome(reply), schema)),
{
    match reply {
        Ok((batch, arrow)) => {
            let schema = convert_schema(&arrow);
            let ghost converted = with_table_schema(outcome(reply), schema);
            match schema {
                Ok(schema) => step.converted(Ok(FirstBatch { batch, arrow, schema })),
                Err(err) => step.converted(Err(LakeError::Iceberg(err))),
            }
        },
        Err(err) => {
            let ghost converted = with_table_schema(outcome(reply), arbitrary());
            step.converted(Err(err))
        },
    }
}

/// The batch of an answer that also gives the schema of the batch.
pub open spec fn batch_of<R, E>(
    reply: Result<(R, Arc<arrow_schema::Schema>), LakeErrorView<E>>,
) -> Result<R, LakeErrorView<E>> {
    match reply {
        Ok((batch, arrow)) => Ok(batch),
        Err(err) => Err(err),
    }
}

/// Goes on when the schema registry has converted a later batch: `reply` gives the batch in the
/// form of the table, and its schema.
pub fn next_batch<'a, B, R, S, T, F, E>(
    step: ConvertNext<'a, B, Arc<arrow_schema::Schema>, T>,
    reply: Result<(R, Arc<arrow_schema::Schema>), LakeError<E>>,
) -> (next: StoreStep<'a, B, R, Arc<arrow_schema::Schema>, S, T, F, E>)
    ensures
        next@ == next_converted::<B, R, Arc<arrow_schema::Schema>, S, T, F, E>(
            step.progress.batches@,
            step.progress.arrow,
            step.progress.table,
            batch_of(outcome(reply)),
            reply matches Ok((_, arrow)) && *arrow == *step.progress.arrow,
        ),
{
    match reply {
        Ok((batch, arrow)) => {
            let same: bool = same_schema(&arrow, &step.progress.arrow);
            step.converted(Ok(batch), same)
        },
        Err(err) => step.converted(Err(err), false),
    }
}

/// What generates the locations of the data files of the table that was found.
pub fn data_location<'a, B, R, A, E>(step: &OpenWriter<'a, B, R, A, iceberg::table::Table>) -> (
location: Result<
    iceberg::writer::file_writer::location_generator::DefaultLocationGenerator,
    LakeError<E>,
>)
    ensures
        location == Ok::<
            iceberg::writer::file_writer::location_generator::DefaultLocationGenerator,
            LakeError<E>,
        >(location_of(step.table)),
{
    match new_location_generator(&step.table) {
        Ok(generator) => Ok(generator),
        Err(err) => Err(LakeError::Iceberg(err)),
    }
}

/// The schema that the writer of data files writes: that of the table that was found.
pub fn writer_schema<'a, B, R, A>(step: &OpenWriter<'a, B, R, A, iceberg::table::Table>) -> (
schema: Arc<iceberg::spec::Schema>)
    ensures
        *schema == current_schema_of(step.table),
{
    current_schema(&step.table)
}

/// The transaction that appends the data files to the table, under the UUID of the commit.
pub fn append_files<E>(
    step: &CommitFiles<iceberg::table::Table, Vec<iceberg::spec::DataFile>>,
) -> (tx: Result<iceberg::transaction::Transaction, LakeError<E>>)
    ensures
        tx == Ok::<iceberg::transaction::Transaction, LakeError<E>>(
            append_of(step.table, step.commit_uuid, step.files@),
        ),
{
    match fast_append(&step.table, step.commit_uuid, &step.files) {
        Ok(append) => Ok(append),
        Err(err) => Err(LakeError::Iceberg(err)),
    }
}

/// Goes on when the writer was closed: the commit of the data files gets a UUID of its own.
pub fn close_writer<'a, B, R, A, S, T, F, E>(
    step: CloseWriter<T>,
    reply: Result<F, LakeError<E>>,
) -> (next: StoreStep<'a, B, R, A, S, T, F, E>)
    ensures
        match reply {
            Ok(files) => exists|commit_uuid: u128| #[trigger]
                is_time_ordered(commit_uuid) && next@ == writer_closed::<B, R, A, S, T, F, E>(
                    step.table,
                    Ok((files, commit_uuid)),
                ),
            Err(err) => next@ == writer_closed::<B, R, A, S, T, F, E>(step.table, Err(err@)),
        },
{
    match reply {
        Ok(files) => {
            let commit_uuid: u128 = new_commit_uuid();
            step.closed(Ok((files, commit_uuid)))
        },
        Err(err) => step.closed(Err(err)),
    }
}

/// Goes on when the catalog has loaded a table: the table is taken as it is where it has the schema
/// that is asked for.
pub fn load_table<E>(
    step: LoadTable<iceberg::spec::Schema>,
    reply: Result<iceberg::table::Table, E>,
) -> (next: TableStep<iceberg::table::Table, iceberg::spec::Schema, E>)
    ensures
        next@ == table_loaded::<iceberg::table::Table, iceberg::spec::Schema, E>(
            step.ident@,
            step.schema,
            reply,
            reply matches Ok(table) && current_schema_of(table) == step.schema,
        ),
{
    match reply {
        Ok(table) => {
            let same: bool = same_table_schema(&current_schema(&table), &step.schema);
            step.loaded(Ok(table), same)
        },
        Err(err) => step.loaded(Err(err), false),
    }
}

fn is_in_range(timestamp_ms: Option<i64>) -> (yes: bool)
    ensures
        yes == in_range(timestamp_ms),
{
    match timestamp_ms {
        Some(ms) => ms >= EARLIEST_LOGGED_MS,
        None => true,
    }
}

/// Whether the two schemas are found to be alike.
fn are_alike(a: &iceberg::spec::Schema, b: &iceberg::spec::Schema) -> (yes: bool)
    ensures
        yes == alike(*a, *b),
{
    if !same_fields(a, b) {
        return false;
    }
    let x: Vec<i32> = identifier_ids(a);
    let y: Vec<i32> = identifier_ids(b);
    proof {
        x@.unique_seq_to_set();
        y@.unique_seq_to_set();
    }
    if x.len() == 0 && y.len() == 0 {
        assert(x@.to_set() =~= y@.to_set());
        true
    } else if x.len() == 1 && y.len() == 1 {
        proof {
            assert(x@.to_set().contains(x@[0]));
            if x@.to_set() == y@.to_set() {
                assert(y@.contains(x@[0]));
            }
            if x@[0] == y@[0] {
                assert(x@ =~= y@);
            }
        }
        x[0] == y[0]
    } else {
        false
    }
}

/// Whether there is an id for the schema in the metadata of the table.
fn finds_room(table: &iceberg::table::Table, schema: &iceberg::spec::Schema) -> (found: bool)
    ensures
        found == has_room(*table, *schema),
{
    if !has_schema_id(table, i32::MAX) {
        return true;
    }
    let held: Vec<iceberg::spec::Schema> = held_schemas(table);
    let mut i: usize = 0;
    while i < held.len()
        invariant
            i <= held@.len(),
            forall|k: int| 0 <= k < i ==> !alike(*schema, #[trigger] held@[k]),
            forall|one: iceberg::spec::Schema| #[trigger]
                holds_schema(*table, one) <==> held@.contains(one),
        decreases held@.len() - i,
    {
        if are_alike(schema, &held[i]) {
            assert(held@.contains(held@[i as int]));
            assert(holds_schema(*table, held@[i as int]));
            return true;
        }
        i = i + 1;
    }
    false
}

/// Adds the schema that is asked for to the metadata of a table, as the current one. The metadata is
/// checked and then left: the table goes on as it is. It depends on the clock whether a schema that
/// fits is taken for a table with later logs than 1970. A table is handed back where the order of a
/// hash set decides whether there is an id for the schema, or the clock whether the time since its
/// logs can be told, or where there is no id.
pub fn evolve_table<E>(
    step: EvolveTable<iceberg::table::Table, iceberg::spec::Schema>,
) -> (next: Result<
    TableStep<iceberg::table::Table, iceberg::spec::Schema, LakeError<E>>,
    EvolveTable<iceberg::table::Table, iceberg::spec::Schema>,
>)
    ensures
        match next {
            Ok(next) => can_evolve(step.table, step.schema) && exists|reply: Result<(), LakeError<E>>|
                {
                    &&& next@ == #[trigger] table_evolved::<
                        iceberg::table::Table,
                        iceberg::spec::Schema,
                        LakeError<E>,
                    >(step.ident@, step.table, reply)
                    &&& reply matches Err(err) ==> err is Iceberg
                    &&& !schema_addable(step.table, step.schema) ==> reply is Err
                    &&& !schema_fits(step.table, step.schema) ==> reply is Err
                    &&& is_past(step.table) && schema_always_fits(step.table, step.schema)
                        ==> reply is Ok
                },
            Err(back) => !can_evolve(step.table, step.schema) && back == step,
        },
{
    if !finds_room(&step.table, &step.schema) || !is_in_range(last_snapshot(&step.table))
        || !is_in_range(last_metadata(&step.table)) {
        return Err(step);
    }
    let reply: Result<(), LakeError<E>> = match with_current_schema(&step.table, &step.schema) {
        Ok(builder) => {
            proof {
                assert(is_evolution(step.table, step.schema, builder));
            }
            match build_metadata(builder) {
                Ok(()) => Ok(()),
                Err(err) => Err(LakeError::Iceberg(err)),
            }
        },
        Err(err) => Err(LakeError::Iceberg(err)),
    };
    Ok(step.evolved(reply))
}

/// Remembers a table under its name, and hands it out.
pub fn remember_table(
    step: RememberTable<iceberg::table::Table>,
    cache: &mut TableCache<iceberg::table::Table>,
) -> (table: iceberg::table::Table)
    ensures
        table == step.table,
        final(cache)@ == old(cache)@.insert(step.ident@.name, step.table),
{
    step.remember(cache)
}

/// The table of a first batch is asked for with the schema that its arrow schema converts to. Where
/// there is none, the storing fails with an error of the iceberg crate; an error of the registry is
/// handed on.
pub proof fn law_first_batch_gives_the_table_its_schema<'a, B, R, T, F, E>(
    step: ConvertFirst<'a, B>,
    reply: Result<(R, Arc<arrow_schema::Schema>), LakeError<E>>,
    next: StoreStep<'a, B, R, Arc<arrow_schema::Schema>, iceberg::spec::Schema, T, F, E>,
)
    requires
        call_ensures(first_batch::<B, R, T, F, E>, (step, reply), next),
    ensures
        match reply {
            Ok((batch, arrow)) => match table_schema_of(*arrow) {
                Some(schema) => next@ == (StoreView::<
                    B,
                    R,
                    Arc<arrow_schema::Schema>,
                    iceberg::spec::Schema,
                    T,
                    F,
                    E,
                >::Table { batches: step.batches@, batch, arrow, schema }),
                None => next@ matches StoreView::Finished(Err(err)) && err is Iceberg,
            },
            Err(err) => next@ == StoreView::<
                B,
                R,
                Arc<arrow_schema::Schema>,
                iceberg::spec::Schema,
                T,
                F,
                E,
            >::Finished(Err(err@)),
        },
{
}

/// A later batch is written just where its arrow schema is that of the first one, whatever write it
/// comes from. Otherwise the storing fails with a message; an error of the registry is handed on.
pub proof fn law_later_batch_has_the_first_schema<'a, B, R, S, T, F, E>(
    step: ConvertNext<'a, B, Arc<arrow_schema::Schema>, T>,
    reply: Result<(R, Arc<arrow_schema::Schema>), LakeError<E>>,
    next: StoreStep<'a, B, R, Arc<arrow_schema::Schema>, S, T, F, E>,
)
    requires
        call_ensures(next_batch::<B, R, S, T, F, E>, (step, reply), next),
    ensures
        match reply {
            Ok((batch, arrow)) => if *arrow == *step.progress.arrow {
                next@ == (StoreView::<B, R, Arc<arrow_schema::Schema>, S, T, F, E>::Write {
                    batches: step.progress.batches@,
                    batch,
                    arrow: step.progress.arrow,
                    table: step.progress.table,
                })
            } else {
                next@ matches StoreView::Finished(Err(err)) && err is Message
            },
            Err(err) => next@ == StoreView::<
                B,
                R,
                Arc<arrow_schema::Schema>,
                S,
                T,
                F,
                E,
            >::Finished(Err(err@)),
        },
{
}

/// Closed files are committed to the table that they were written for, under a UUID; an error is
/// handed on.
pub proof fn law_closed_files_are_committed<'a, B, R, A, S, T, F, E>(
    step: CloseWriter<T>,
    reply: Result<F, LakeError<E>>,
    next: StoreStep<'a, B, R, A, S, T, F, E>,
)
    requires
        call_ensures(close_writer::<B, R, A, S, T, F, E>, (step, reply), next),
    ensures
        match reply {
            Ok(files) => next matches StoreStep::Commit(commit) && commit.table == step.table
                && commit.files == files && is_time_ordered(commit.commit_uuid),
            Err(err) => next@ == StoreView::<B, R, A, S, T, F, E>::Finished(Err(err@)),
        },
{
    match reply {
        Ok(files) => {
            let commit_uuid = choose|commit_uuid: u128| #[trigger]
                is_time_ordered(commit_uuid) && next@ == writer_closed::<B, R, A, S, T, F, E>(
                    step.table,
                    Ok((files, commit_uuid)),
                );
            assert(next@ == (StoreView::<B, R, A, S, T, F, E>::Commit {
                table: step.table,
                commit_uuid,
                files,
            }));
        },
        Err(_) => {},
    }
}

/// A table that was loaded goes on as it is where its schema is the one that is asked for; otherwise
/// the schema is to be added. An error is handed on.
pub proof fn law_loaded_table_goes_by_its_schema<E>(
    step: LoadTable<iceberg::spec::Schema>,
    reply: Result<iceberg::table::Table, E>,
    next: TableStep<iceberg::table::Table, iceberg::spec::Schema, E>,
)
    requires
        call_ensures(load_table::<E>, (step, reply), next),
    ensures
        match reply {
            Ok(table) => if current_schema_of(table) == step.schema {
                next@ == (TableView::<
                    iceberg::table::Table,
                    iceberg::spec::Schema,
                    E,
                >::Remember { ident: step.ident@, table })
            } else {
                next@ == (TableView::<
                    iceberg::table::Table,
                    iceberg::spec::Schema,
                    E,
                >::Evolve { ident: step.ident@, table, schema: step.schema })
            },
            Err(err) => next@ == TableView::<
                iceberg::table::Table,
                iceberg::spec::Schema,
                E,
            >::Finished(Err(err)),
        },
{
}

/// A table that is evolved is the same table afterwards, or the search fails with an error of the
/// iceberg crate. It is not handed back where it has a free schema id, or a schema alike, and the last
/// time of the clock can be told from its logs. It is never taken where the schema cannot be added.
pub proof fn law_evolved_table_is_the_same<E>(
    step: EvolveTable<iceberg::table::Table, iceberg::spec::Schema>,
    next: Result<
        TableStep<iceberg::table::Table, iceberg::spec::Schema, LakeError<E>>,
        EvolveTable<iceberg::table::Table, iceberg::spec::Schema>,
    >,
)
    requires
        call_ensures(evolve_table::<E>, (step,), next),
    ensures
        next is Ok <==> {
            &&& !schema_id_taken(step.table, i32::MAX) || exists|held: iceberg::spec::Schema|
                {
                    &&& #[trigger] holds_schema(step.table, held)
                    &&& fields_of(step.schema) == fields_of(held)
                    &&& identifier_ids_of(step.schema) == identifier_ids_of(held)
                    &&& identifier_ids_of(step.schema).len() <= 1
                }
            &&& last_snapshot_ms(step.table) matches Some(ms) ==> 8210266876799999 - ms <= i64::MAX
            &&& last_metadata_ms(step.table) matches Some(ms) ==> 8210266876799999 - ms <= i64::MAX
        },
        next matches Err(back) ==> back == step,
        next matches Ok(next) ==> {
            ||| next@ == (TableView::<
                iceberg::table::Table,
                iceberg::spec::Schema,
                LakeError<E>,
            >::Remember { ident: step.ident@, table: step.table }) && exists|
                builder: iceberg::spec::TableMetadataBuilder,
            | #[trigger]
                is_evolution(step.table, step.schema, builder) && can_be_built(builder)
            ||| next@ matches TableView::Finished(Err(err)) && err is Iceberg
        },
        next is Ok && last_snapshot_ms(step.table) is None && last_metadata_ms(step.table) is None
            && (exists|builder: iceberg::spec::TableMetadataBuilder| #[trigger]
            is_evolution(step.table, step.schema, builder)) && (forall|
            builder: iceberg::spec::TableMetadataBuilder,
        | #[trigger]
            is_evolution(step.table, step.schema, builder) ==> can_be_built(builder))
            ==> next->Ok_0@ is Remember,
{
}

} // verus!
