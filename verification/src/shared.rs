//! A catalog that lakes share: what the steps for a table make of it.

use crate::table::{table_after, table_started, TableEvent, TableIdentView, TableView};
use vstd::prelude::*;

verus! {

/// What a catalog holds, and the tables that it was told to create, in the order of the requests.
pub struct SharedCatalog<T> {
    pub namespaces: Set<Seq<char>>,
    pub tables: Map<TableIdentView, T>,
    pub creations: Seq<TableIdentView>,
}

/// What is fixed of a catalog whose requests succeed: the table that it makes of an identifier and a
/// schema, whether the schema of a table is the one that is asked for, and how it ends to add
/// a schema to the metadata of a table.
#[verifier::reject_recursive_types(T)]
#[verifier::reject_recursive_types(S)]
pub struct Tables<T, S, E> {
    pub made: spec_fn(TableIdentView, S) -> T,
    pub same: spec_fn(T, S) -> bool,
    pub evolved: spec_fn(T, S) -> Result<(), E>,
}

/// How the catalog answers a step, if it asks anything.
pub open spec fn answer<T, S, E>(
    catalog: SharedCatalog<T>,
    tables: Tables<T, S, E>,
    step: TableView<T, S, E>,
) -> Option<TableEvent<T, E>> {
    match step {
        TableView::FindNamespace { ident, .. } => Some(
            TableEvent::NamespaceChecked(Ok(catalog.namespaces.contains(ident.namespace))),
        ),
        TableView::MakeNamespace { .. } => Some(TableEvent::NamespaceCreated(Ok(()))),
        TableView::Check { ident, .. } => Some(
            TableEvent::Checked(Ok(catalog.tables.contains_key(ident))),
        ),
        TableView::Load { ident, schema } => Some(
            TableEvent::Loaded {
                reply: Ok(catalog.tables[ident]),
                same: (tables.same)(catalog.tables[ident], schema),
            },
        ),
        TableView::Evolve { table, schema, .. } => Some(
            TableEvent::Evolved((tables.evolved)(table, schema)),
        ),
        TableView::Create { ident, schema } => Some(
            TableEvent::Created(Ok((tables.made)(ident, schema))),
        ),
        _ => None,
    }
}

/// What the catalog holds when it has answered a step.
pub open spec fn catalog_after<T, S, E>(
    catalog: SharedCatalog<T>,
    tables: Tables<T, S, E>,
    step: TableView<T, S, E>,
) -> SharedCatalog<T> {
    match step {
        TableView::MakeNamespace { ident, .. } => SharedCatalog {
            namespaces: catalog.namespaces.insert(ident.namespace),
            ..catalog
        },
        TableView::Create { ident, schema } => SharedCatalog {
            tables: catalog.tables.insert(ident, (tables.made)(ident, schema)),
            creations: catalog.creations.push(ident),
            ..catalog
        },
        _ => catalog,
    }
}

/// How many steps are left at most.
pub open spec fn steps_left<T, S, E>(step: TableView<T, S, E>) -> nat {
    match step {
        TableView::FindNamespace { .. } => 5,
        TableView::MakeNamespace { .. } => 4,
        TableView::Check { .. } => 3,
        TableView::Load { .. } => 2,
        TableView::Create { .. } => 2,
        TableView::Evolve { .. } => 1,
        _ => 0,
    }
}

/// What the catalog holds, and where the steps end, when the catalog answers them all from `step`
/// on.
pub open spec fn table_end<T, S, E>(
    catalog: SharedCatalog<T>,
    tables: Tables<T, S, E>,
    step: TableView<T, S, E>,
) -> (SharedCatalog<T>, TableView<T, S, E>)
    decreases steps_left(step),
{
    match answer(catalog, tables, step) {
        Some(event) => table_end(
            catalog_after(catalog, tables, step),
            tables,
            table_after(step, event),
        ),
        None => (catalog, step),
    }
}

/// What a lake that does not know the table `name` makes of a catalog whose requests succeed. A
/// table that the catalog lacks is created, once, and remembered. One that it has is not created, and
/// is remembered where its schema is the one that is asked for or could be added to its metadata.
/// The namespace is there from then on, and no other table is touched.
pub proof fn law_table_is_brought_about<T, S, E>(
    catalog: SharedCatalog<T>,
    tables: Tables<T, S, E>,
    namespace: Seq<char>,
    name: Seq<char>,
    schema: S,
)
    ensures
        ({
            let ident = TableIdentView { namespace, name };
            let (after, end) = table_end(catalog, tables, table_started(namespace, name, schema));
            &&& after.namespaces == catalog.namespaces.insert(namespace)
            &&& if catalog.tables.contains_key(ident) {
                let table = catalog.tables[ident];
                &&& after.tables == catalog.tables
                &&& after.creations == catalog.creations
                &&& end == if (tables.same)(table, schema) || (tables.evolved)(table, schema) is Ok {
                    TableView::<T, S, E>::Remember { ident, table }
                } else {
                    TableView::<T, S, E>::Finished(
                        Err((tables.evolved)(table, schema)->Err_0),
                    )
                }
            } else {
                let table = (tables.made)(ident, schema);
                &&& after.tables == catalog.tables.insert(ident, table)
                &&& after.creations == catalog.creations.push(ident)
                &&& end == TableView::<T, S, E>::Remember { ident, table }
            }
        }),
{
    reveal_with_fuel(table_end, 6);
    if catalog.namespaces.contains(namespace) {
        assert(catalog.namespaces.insert(namespace) =~= catalog.namespaces);
    }
}

/// Two lakes on one catalog and namespace share their tables: once one lake has found or created a
/// table, another, which does not know the table, is handed the same one where its schema is the one
/// that is asked for or could be added to its metadata. The catalog stays as it was: nothing is
/// created again.
pub proof fn law_lakes_share_a_table<T, S, E>(
    catalog: SharedCatalog<T>,
    tables: Tables<T, S, E>,
    namespace: Seq<char>,
    name: Seq<char>,
    schema: S,
    again: S,
)
    requires
        table_end(catalog, tables, table_started(namespace, name, schema)).1 is Remember,
    ensures
        ({
            let ident = TableIdentView { namespace, name };
            let (after, end) = table_end(catalog, tables, table_started(namespace, name, schema));
            let table = end->Remember_table;
            let (later, second) = table_end(after, tables, table_started(namespace, name, again));
            &&& end == TableView::<T, S, E>::Remember { ident, table }
            &&& after.tables.contains_key(ident) && after.tables[ident] == table
            &&& later == after
            &&& (tables.same)(table, again) || (tables.evolved)(table, again) is Ok ==> second
                == TableView::<T, S, E>::Remember { ident, table }
        }),
{
    let (after, end) = table_end(catalog, tables, table_started(namespace, name, schema));
    law_table_is_brought_about(catalog, tables, namespace, name, schema);
    law_table_is_brought_about(after, tables, namespace, name, again);
    assert(after.namespaces.insert(namespace) =~= after.namespaces);
}

} // verus!
