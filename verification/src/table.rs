//! The tables of the lake, and how a table is found or brought about.

use crate::keyed::KeyedMap;
use crate::namespace::{
    create_namespace, namespace_checked, namespace_created, CheckNamespace, CreateNamespace,
    NamespaceIdent, NamespaceStep, NamespaceView,
};
use vstd::prelude::*;

verus! {

/// The tables that were found so far, by name.
#[derive(Debug)]
pub struct TableCache<T> {
    pub tables: KeyedMap<String, T>,
}

impl<T> View for TableCache<T> {
    type V = Map<Seq<char>, T>;

    open spec fn view(&self) -> Map<Seq<char>, T> {
        self.tables@
    }
}

/// The name of a table, and the namespace that the table is in.
#[derive(Debug)]
pub struct TableIdent {
    pub namespace: NamespaceIdent,
    pub name: String,
}

/// The mathematical value of a [`TableIdent`].
pub struct TableIdentView {
    pub namespace: Seq<char>,
    pub name: Seq<char>,
}

impl View for TableIdent {
    type V = TableIdentView;

    open spec fn view(&self) -> TableIdentView {
        TableIdentView { namespace: self.namespace@, name: self.name@ }
    }
}

/// The steps that find a table or bring it about. `T` is a table, `S` the schema of one, and `E` an
/// error of the catalog.
#[derive(Debug)]
pub enum TableStep<T, S, E> {
    /// The catalog is to be asked whether it has the namespace.
    FindNamespace(FindNamespace<S>),
    /// The catalog is to create the namespace, without properties.
    MakeNamespace(MakeNamespace<S>),
    /// The catalog is to be asked whether it has the table.
    Check(CheckTable<S>),
    /// The catalog is to load the table.
    Load(LoadTable<S>),
    /// The schema is to be added to the metadata of the table, as the current one.
    Evolve(EvolveTable<T, S>),
    /// The catalog is to create the table.
    Create(CreateTable<S>),
    /// The table is found, and to be remembered.
    Remember(RememberTable<T>),
    /// The table was known, or a step failed.
    Finished(Result<T, E>),
}

/// A table whose namespace the catalog may have.
#[derive(Debug)]
pub struct FindNamespace<S> {
    pub namespace: CheckNamespace,
    pub name: String,
    pub schema: S,
}

/// A table whose namespace the catalog lacks.
#[derive(Debug)]
pub struct MakeNamespace<S> {
    pub namespace: CreateNamespace,
    pub name: String,
    pub schema: S,
}

/// A table that the catalog may have.
#[derive(Debug)]
pub struct CheckTable<S> {
    pub ident: TableIdent,
    pub schema: S,
}

/// A table that the catalog has.
#[derive(Debug)]
pub struct LoadTable<S> {
    pub ident: TableIdent,
    pub schema: S,
}

/// A table with another schema.
#[derive(Debug)]
pub struct EvolveTable<T, S> {
    pub ident: TableIdent,
    pub table: T,
    pub schema: S,
}

/// A table that the catalog lacks.
#[derive(Debug)]
pub struct CreateTable<S> {
    pub ident: TableIdent,
    pub schema: S,
}

/// A table that was found.
#[derive(Debug)]
pub struct RememberTable<T> {
    pub ident: TableIdent,
    pub table: T,
}

/// The mathematical value of a [`TableStep`].
pub enum TableView<T, S, E> {
    FindNamespace { ident: TableIdentView, schema: S },
    MakeNamespace { ident: TableIdentView, schema: S },
    Check { ident: TableIdentView, schema: S },
    Load { ident: TableIdentView, schema: S },
    Evolve { ident: TableIdentView, table: T, schema: S },
    Create { ident: TableIdentView, schema: S },
    Remember { ident: TableIdentView, table: T },
    Finished(Result<T, E>),
}

impl<T, S, E> View for TableStep<T, S, E> {
    type V = TableView<T, S, E>;

    open spec fn view(&self) -> TableView<T, S, E> {
        match *self {
            TableStep::FindNamespace(step) => TableView::FindNamespace {
                ident: TableIdentView { namespace: step.namespace.ident@, name: step.name@ },
                schema: step.schema,
            },
            TableStep::MakeNamespace(step) => TableView::MakeNamespace {
                ident: TableIdentView { namespace: step.namespace.ident@, name: step.name@ },
                schema: step.schema,
            },
            TableStep::Check(step) => TableView::Check { ident: step.ident@, schema: step.schema },
            TableStep::Load(step) => TableView::Load { ident: step.ident@, schema: step.schema },
            TableStep::Evolve(step) => TableView::Evolve {
                ident: step.ident@,
                table: step.table,
                schema: step.schema,
            },
            TableStep::Create(step) => TableView::Create {
                ident: step.ident@,
                schema: step.schema,
            },
            TableStep::Remember(step) => TableView::Remember {
                ident: step.ident@,
                table: step.table,
            },
            TableStep::Finished(result) => TableView::Finished(result),
        }
    }
}

/// The step for the table `name` while its namespace is at `step`: the catalog is asked for the
/// table when the namespace is there.
pub open spec fn in_namespace<T, S, E>(
    step: NamespaceView<E>,
    name: Seq<char>,
    schema: S,
) -> TableView<T, S, E> {
    match step {
        NamespaceView::Check(namespace) => TableView::FindNamespace {
            ident: TableIdentView { namespace, name },
            schema,
        },
        NamespaceView::Create(namespace) => TableView::MakeNamespace {
            ident: TableIdentView { namespace, name },
            schema,
        },
        NamespaceView::Finished(Ok(namespace)) => TableView::Check {
            ident: TableIdentView { namespace, name },
            schema,
        },
        NamespaceView::Finished(Err(err)) => TableView::Finished(Err(err)),
    }
}

/// The first step for the table `name` of `namespace`, which is not known.
pub open spec fn table_started<T, S, E>(
    namespace: Seq<char>,
    name: Seq<char>,
    schema: S,
) -> TableView<T, S, E> {
    TableView::FindNamespace { ident: TableIdentView { namespace, name }, schema }
}

/// What follows when the catalog has said whether it has the table.
pub open spec fn table_checked<T, S, E>(
    ident: TableIdentView,
    schema: S,
    reply: Result<bool, E>,
) -> TableView<T, S, E> {
    match reply {
        Ok(true) => TableView::Load { ident, schema },
        Ok(false) => TableView::Create { ident, schema },
        Err(err) => TableView::Finished(Err(err)),
    }
}

/// What follows when the catalog has loaded the table: `same` says whether the schema of the table
/// is the one that is asked for.
pub open spec fn table_loaded<T, S, E>(
    ident: TableIdentView,
    schema: S,
    reply: Result<T, E>,
    same: bool,
) -> TableView<T, S, E> {
    match reply {
        Ok(table) => if same {
            TableView::Remember { ident, table }
        } else {
            TableView::Evolve { ident, table, schema }
        },
        Err(err) => TableView::Finished(Err(err)),
    }
}

/// What follows when the schema was added to the metadata of the table.
pub open spec fn table_evolved<T, S, E>(
    ident: TableIdentView,
    table: T,
    reply: Result<(), E>,
) -> TableView<T, S, E> {
    match reply {
        Ok(()) => TableView::Remember { ident, table },
        Err(err) => TableView::Finished(Err(err)),
    }
}

/// What follows when the catalog has answered the request to create the table.
pub open spec fn table_created<T, S, E>(
    ident: TableIdentView,
    reply: Result<T, E>,
) -> TableView<T, S, E> {
    match reply {
        Ok(table) => TableView::Remember { ident, table },
        Err(err) => TableView::Finished(Err(err)),
    }
}

impl<T> TableCache<T> {
    /// No table.
    pub fn new() -> (cache: Self)
        ensures
            cache@ == Map::<Seq<char>, T>::empty(),
    {
        TableCache { tables: KeyedMap::new() }
    }

    /// Starts to find the table `name` of `namespace`, or to bring it about with `schema`. A table
    /// that is known is handed out without asking the catalog.
    pub fn load_or_create_table<S, E>(&self, namespace: &str, name: &str, schema: S) -> (step:
        TableStep<T, S, E>) where T: Clone
        ensures
            if self@.contains_key(name@) {
                step@ matches TableView::Finished(Ok(table)) && cloned(self@[name@], table)
            } else {
                step@ == table_started::<T, S, E>(namespace@, name@, schema)
            },
    {
        let name: String = name.to_owned();
        match self.tables.get(&name) {
            Some(table) => {
                let table: T = table.clone();
                TableStep::Finished(Ok(table))
            },
            None => with_namespace(create_namespace(namespace.to_owned()), name, schema),
        }
    }
}

/// The step for the table `name` while its namespace is at `step`.
fn with_namespace<T, S, E>(step: NamespaceStep<E>, name: String, schema: S) -> (next: TableStep<
    T,
    S,
    E,
>)
    ensures
        next@ == in_namespace::<T, S, E>(step@, name@, schema),
{
    match step {
        NamespaceStep::Check(namespace) => TableStep::FindNamespace(
            FindNamespace { namespace, name, schema },
        ),
        NamespaceStep::Create(namespace) => TableStep::MakeNamespace(
            MakeNamespace { namespace, name, schema },
        ),
        NamespaceStep::Finished(Ok(namespace)) => TableStep::Check(
            CheckTable { ident: TableIdent { namespace, name }, schema },
        ),
        NamespaceStep::Finished(Err(err)) => TableStep::Finished(Err(err)),
    }
}

impl<S> FindNamespace<S> {
    /// What follows when the catalog has said whether it has the namespace.
    pub fn checked<T, E>(self, reply: Result<bool, E>) -> (step: TableStep<T, S, E>)
        ensures
            step@ == in_namespace::<T, S, E>(
                namespace_checked(self.namespace.ident@, reply),
                self.name@,
                self.schema,
            ),
    {
        with_namespace(self.namespace.checked(reply), self.name, self.schema)
    }
}

impl<S> MakeNamespace<S> {
    /// What follows when the catalog has answered the request to create the namespace.
    pub fn created<T, E>(self, reply: Result<(), E>) -> (step: TableStep<T, S, E>)
        ensures
            step@ == in_namespace::<T, S, E>(
                namespace_created(self.namespace.ident@, reply),
                self.name@,
                self.schema,
            ),
    {
        with_namespace(self.namespace.created(reply), self.name, self.schema)
    }
}

impl<S> CheckTable<S> {
    /// What follows when the catalog has said whether it has the table.
    pub fn checked<T, E>(self, reply: Result<bool, E>) -> (step: TableStep<T, S, E>)
        ensures
            step@ == table_checked::<T, S, E>(self.ident@, self.schema, reply),
    {
        match reply {
            Ok(exists) => if exists {
                TableStep::Load(LoadTable { ident: self.ident, schema: self.schema })
            } else {
                TableStep::Create(CreateTable { ident: self.ident, schema: self.schema })
            },
            Err(err) => TableStep::Finished(Err(err)),
        }
    }
}

impl<S> LoadTable<S> {
    /// What follows when the catalog has loaded the table: `same` says whether the schema of the
    /// table is the one that is asked for.
    pub fn loaded<T, E>(self, reply: Result<T, E>, same: bool) -> (step: TableStep<T, S, E>)
        ensures
            step@ == table_loaded::<T, S, E>(self.ident@, self.schema, reply, same),
    {
        match reply {
            Ok(table) => if same {
                TableStep::Remember(RememberTable { ident: self.ident, table })
            } else {
                TableStep::Evolve(EvolveTable { ident: self.ident, table, schema: self.schema })
            },
            Err(err) => TableStep::Finished(Err(err)),
        }
    }
}

impl<T, S> EvolveTable<T, S> {
    /// What follows when the schema was added to the metadata of the table.
    pub fn evolved<E>(self, reply: Result<(), E>) -> (step: TableStep<T, S, E>)
        ensures
            step@ == table_evolved::<T, S, E>(self.ident@, self.table, reply),
    {
        match reply {
            Ok(()) => TableStep::Remember(RememberTable { ident: self.ident, table: self.table }),
            Err(err) => TableStep::Finished(Err(err)),
        }
    }
}

impl<S> CreateTable<S> {
    /// What follows when the catalog has answered the request to create the table.
    pub fn created<T, E>(self, reply: Result<T, E>) -> (step: TableStep<T, S, E>)
        ensures
            step@ == table_created::<T, S, E>(self.ident@, reply),
    {
        match reply {
            Ok(table) => TableStep::Remember(RememberTable { ident: self.ident, table }),
            Err(err) => TableStep::Finished(Err(err)),
        }
    }
}

impl<T> RememberTable<T> {
    /// Remembers the table under its name, and hands it out.
    pub fn remember(self, cache: &mut TableCache<T>) -> (table: T) where T: Clone
        ensures
            table == self.table,
            exists|known: T|
                #[trigger] cloned(self.table, known) && final(cache)@ == old(cache)@.insert(
                    self.ident@.name,
                    known,
                ),
    {
        let known: T = self.table.clone();
        let previous = cache.tables.insert(self.ident.name, known);
        assert(cloned(self.table, known));
        self.table
    }
}

/// An answer to a step.
pub enum TableEvent<T, E> {
    NamespaceChecked(Result<bool, E>),
    NamespaceCreated(Result<(), E>),
    Checked(Result<bool, E>),
    Loaded { reply: Result<T, E>, same: bool },
    Evolved(Result<(), E>),
    Created(Result<T, E>),
}

/// The step that follows `step` when it was answered by `event`. An answer to another step is not
/// heard.
pub open spec fn table_after<T, S, E>(
    step: TableView<T, S, E>,
    event: TableEvent<T, E>,
) -> TableView<T, S, E> {
    match (step, event) {
        (
            TableView::FindNamespace { ident, schema },
            TableEvent::NamespaceChecked(reply),
        ) => in_namespace(namespace_checked(ident.namespace, reply), ident.name, schema),
        (
            TableView::MakeNamespace { ident, schema },
            TableEvent::NamespaceCreated(reply),
        ) => in_namespace(namespace_created(ident.namespace, reply), ident.name, schema),
        (TableView::Check { ident, schema }, TableEvent::Checked(reply)) => table_checked(
            ident,
            schema,
            reply,
        ),
        (
            TableView::Load { ident, schema },
            TableEvent::Loaded { reply, same },
        ) => table_loaded(ident, schema, reply, same),
        (
            TableView::Evolve { ident, table, schema },
            TableEvent::Evolved(reply),
        ) => table_evolved(ident, table, reply),
        (TableView::Create { ident, schema }, TableEvent::Created(reply)) => table_created(
            ident,
            reply,
        ),
        _ => step,
    }
}

/// Where the search for the table `name` of `namespace`, which is not known, stands after the
/// answers `events`.
pub open spec fn table_run<T, S, E>(
    namespace: Seq<char>,
    name: Seq<char>,
    schema: S,
    events: Seq<TableEvent<T, E>>,
) -> TableView<T, S, E>
    decreases events.len(),
{
    if events.len() == 0 {
        table_started(namespace, name, schema)
    } else {
        table_after(table_run(namespace, name, schema, events.drop_last()), events.last())
    }
}

/// The table that is asked of the catalog, and the one that is remembered, is the one that was asked
/// for: it has the name and the namespace that were asked for, and what is created or added is the
/// schema that was asked for. Answers of the catalog lead to no result but an error, or to a table
/// that is remembered.
pub proof fn law_table_is_the_one_asked_for<T, S, E>(
    namespace: Seq<char>,
    name: Seq<char>,
    schema: S,
    events: Seq<TableEvent<T, E>>,
)
    ensures
        ({
            let asked = TableIdentView { namespace, name };
            match table_run(namespace, name, schema, events) {
                TableView::FindNamespace { ident, schema: s } => ident == asked && s == schema,
                TableView::MakeNamespace { ident, schema: s } => ident == asked && s == schema,
                TableView::Check { ident, schema: s } => ident == asked && s == schema,
                TableView::Load { ident, schema: s } => ident == asked && s == schema,
                TableView::Create { ident, schema: s } => ident == asked && s == schema,
                TableView::Evolve { ident, schema: s, .. } => ident == asked && s == schema,
                TableView::Remember { ident, .. } => ident == asked,
                TableView::Finished(result) => result is Err,
            }
        }),
    decreases events.len(),
{
    if events.len() > 0 {
        law_table_is_the_one_asked_for(namespace, name, schema, events.drop_last());
    }
}

/// A table that the catalog has is never created: once the catalog has said so, no answers lead to
/// a step that creates it.
pub proof fn law_existing_table_is_not_created<T, S, E>(
    namespace: Seq<char>,
    name: Seq<char>,
    schema: S,
    events: Seq<TableEvent<T, E>>,
    n: int,
)
    requires
        0 <= n <= events.len(),
        table_run(namespace, name, schema, events.take(n)) is Load,
    ensures
        match table_run(namespace, name, schema, events) {
            TableView::Load { .. } => true,
            TableView::Evolve { .. } => true,
            TableView::Remember { .. } => true,
            TableView::Finished(_) => true,
            _ => false,
        },
    decreases events.len(),
{
    if n == events.len() {
        assert(events.take(n) =~= events);
    } else {
        assert(events.drop_last().take(n) =~= events.take(n));
        law_existing_table_is_not_created(namespace, name, schema, events.drop_last(), n);
    }
}

/// A table that the catalog has is handed out as it was loaded, where its schema is the one that is
/// asked for, and where the schema could be added to its metadata. Adding the schema does not
/// replace the table. Where it could not be added, the error is handed out.
pub proof fn law_existing_table_is_handed_out<T, S, E>(
    ident: TableIdentView,
    schema: S,
    table: T,
    same: bool,
    evolved: Result<(), E>,
)
    ensures
        table_after(
            table_after(
                (TableView::<T, S, E>::Load { ident, schema }),
                (TableEvent::Loaded { reply: Ok(table), same }),
            ),
            TableEvent::Evolved(evolved),
        ) == (match (same, evolved) {
            (false, Err(err)) => TableView::<T, S, E>::Finished(Err(err)),
            _ => TableView::<T, S, E>::Remember { ident, table },
        }),
{
}

/// Whether each of the tables stands under its name, in the namespace. `is_at` says whether a table
/// has an identifier.
pub open spec fn tables_in_place<T>(
    tables: Map<Seq<char>, T>,
    namespace: Seq<char>,
    is_at: spec_fn(T, TableIdentView) -> bool,
) -> bool {
    forall|name: Seq<char>| #[trigger]
        tables.contains_key(name) ==> is_at(tables[name], TableIdentView { namespace, name })
}

/// Whether the tables that a catalog answered with are those that were asked for.
pub open spec fn answers_in_place<T, E>(
    events: Seq<TableEvent<T, E>>,
    ident: TableIdentView,
    is_at: spec_fn(T, TableIdentView) -> bool,
) -> bool {
    forall|i: int|
        0 <= i < events.len() ==> match #[trigger] events[i] {
            TableEvent::Loaded { reply: Ok(table), .. } => is_at(table, ident),
            TableEvent::Created(Ok(table)) => is_at(table, ident),
            _ => true,
        }
}

/// A request for a table, and the answers of the catalog, if it was asked.
pub struct Lookup<T, S, E> {
    pub name: Seq<char>,
    pub schema: S,
    pub events: Seq<TableEvent<T, E>>,
}

/// The tables that are known when the request was answered, where they were `tables` before: the
/// table that was found is one of them. A table that was known is not asked of the catalog.
pub open spec fn known_after<T, S, E>(
    tables: Map<Seq<char>, T>,
    namespace: Seq<char>,
    lookup: Lookup<T, S, E>,
) -> Map<Seq<char>, T> {
    if tables.contains_key(lookup.name) {
        tables
    } else {
        match table_run(namespace, lookup.name, lookup.schema, lookup.events) {
            TableView::Remember { ident, table } => tables.insert(ident.name, table),
            _ => tables,
        }
    }
}

/// The tables that are known when the requests were answered, one after the other. At first there is
/// none.
pub open spec fn known_run<T, S, E>(
    namespace: Seq<char>,
    lookups: Seq<Lookup<T, S, E>>,
) -> Map<Seq<char>, T>
    decreases lookups.len(),
{
    if lookups.len() == 0 {
        Map::empty()
    } else {
        known_after(known_run(namespace, lookups.drop_last()), namespace, lookups.last())
    }
}

/// A request keeps the known tables in place, with a catalog that answers with the tables that it is
/// asked for. The tables that were known stay as they were, and a table that is found is known from
/// then on.
pub proof fn law_found_table_is_known<T, S, E>(
    tables: Map<Seq<char>, T>,
    namespace: Seq<char>,
    lookup: Lookup<T, S, E>,
    is_at: spec_fn(T, TableIdentView) -> bool,
)
    requires
        tables_in_place(tables, namespace, is_at),
        answers_in_place(lookup.events, TableIdentView { namespace, name: lookup.name }, is_at),
    ensures
        tables_in_place(known_after(tables, namespace, lookup), namespace, is_at),
        tables.submap_of(known_after(tables, namespace, lookup)),
        !tables.contains_key(lookup.name) ==> (table_run(
            namespace,
            lookup.name,
            lookup.schema,
            lookup.events,
        ) matches TableView::Remember { table, .. } ==> known_after(tables, namespace, lookup)
            == tables.insert(lookup.name, table)),
{
    law_table_is_the_one_asked_for(namespace, lookup.name, lookup.schema, lookup.events);
    lemma_found_table_is_in_place(
        namespace,
        lookup.name,
        lookup.schema,
        lookup.events,
        is_at,
    );
}

/// Each table that is known stands under its name, in the namespace of the lake, whatever was asked
/// for, with a catalog that answers with the tables that it is asked for. A table that was known
/// after the first `n` requests is never taken out or replaced.
pub proof fn law_known_tables_are_in_place<T, S, E>(
    namespace: Seq<char>,
    lookups: Seq<Lookup<T, S, E>>,
    is_at: spec_fn(T, TableIdentView) -> bool,
    n: int,
)
    requires
        0 <= n <= lookups.len(),
        forall|i: int|
            0 <= i < lookups.len() ==> answers_in_place(
                (#[trigger] lookups[i]).events,
                TableIdentView { namespace, name: lookups[i].name },
                is_at,
            ),
    ensures
        tables_in_place(known_run(namespace, lookups), namespace, is_at),
        known_run(namespace, lookups.take(n)).submap_of(known_run(namespace, lookups)),
    decreases lookups.len(),
{
    if lookups.len() > 0 {
        let fewer = lookups.drop_last();
        let last = lookups[lookups.len() - 1];
        assert forall|i: int| 0 <= i < fewer.len() implies answers_in_place(
            (#[trigger] fewer[i]).events,
            TableIdentView { namespace, name: fewer[i].name },
            is_at,
        ) by {
            assert(fewer[i] == lookups[i]);
        }
        if n == lookups.len() {
            law_known_tables_are_in_place(namespace, fewer, is_at, 0);
            assert(lookups.take(n) =~= lookups);
        } else {
            law_known_tables_are_in_place(namespace, fewer, is_at, n);
            assert(fewer.take(n) =~= lookups.take(n));
        }
        law_found_table_is_known(known_run(namespace, fewer), namespace, last, is_at);
    } else {
        assert(lookups.take(n) =~= lookups);
    }
}

/// With a catalog that answers with the tables that it is asked for, the table that goes on is the
/// one that was asked for.
proof fn lemma_found_table_is_in_place<T, S, E>(
    namespace: Seq<char>,
    name: Seq<char>,
    schema: S,
    events: Seq<TableEvent<T, E>>,
    is_at: spec_fn(T, TableIdentView) -> bool,
)
    requires
        answers_in_place(events, TableIdentView { namespace, name }, is_at),
    ensures
        match table_run(namespace, name, schema, events) {
            TableView::Evolve { table, .. } => is_at(table, TableIdentView { namespace, name }),
            TableView::Remember { table, .. } => is_at(table, TableIdentView { namespace, name }),
            _ => true,
        },
    decreases events.len(),
{
    if events.len() > 0 {
        assert forall|i: int| 0 <= i < events.drop_last().len() implies match
            #[trigger] events.drop_last()[i] {
            TableEvent::Loaded { reply: Ok(table), .. } => is_at(
                table,
                TableIdentView { namespace, name },
            ),
            TableEvent::Created(Ok(table)) => is_at(table, TableIdentView { namespace, name }),
            _ => true,
        } by {
            assert(events[i] == events.drop_last()[i]);
        }
        lemma_found_table_is_in_place(namespace, name, schema, events.drop_last(), is_at);
        assert(events[events.len() - 1] == events.last());
    }
}

/// Each answer of the catalog leads on as it should. The table is asked for when the namespace is
/// there, which is created where it is lacking. A table that is there is loaded, and its schema added
/// where it is another one; a table that is lacking is created. An error ends the search.
pub proof fn law_search_goes_by_its_answers<T, S, E>(
    ident: TableIdentView,
    schema: S,
    table: T,
    err: E,
    same: bool,
)
    ensures
        ({
            let failed = TableView::<T, S, E>::Finished(Err(err));
            let find = TableView::<T, S, E>::FindNamespace { ident, schema };
            let make = TableView::<T, S, E>::MakeNamespace { ident, schema };
            let check = TableView::<T, S, E>::Check { ident, schema };
            let load = TableView::<T, S, E>::Load { ident, schema };
            let evolve = TableView::<T, S, E>::Evolve { ident, table, schema };
            let create = TableView::<T, S, E>::Create { ident, schema };
            let found = TableView::<T, S, E>::Remember { ident, table };
            &&& table_started::<T, S, E>(ident.namespace, ident.name, schema) == find
            &&& table_after(find, TableEvent::NamespaceChecked(Ok(true))) == check
            &&& table_after(find, TableEvent::NamespaceChecked(Ok(false))) == make
            &&& table_after(find, TableEvent::NamespaceChecked(Err(err))) == failed
            &&& table_after(make, TableEvent::NamespaceCreated(Ok(()))) == check
            &&& table_after(make, TableEvent::NamespaceCreated(Err(err))) == failed
            &&& table_after(check, TableEvent::Checked(Ok(true))) == load
            &&& table_after(check, TableEvent::Checked(Ok(false))) == create
            &&& table_after(check, TableEvent::Checked(Err(err))) == failed
            &&& table_after(load, (TableEvent::Loaded { reply: Ok(table), same: true })) == found
            &&& table_after(load, (TableEvent::Loaded { reply: Ok(table), same: false })) == evolve
            &&& table_after(load, (TableEvent::Loaded { reply: Err(err), same })) == failed
            &&& table_after(evolve, TableEvent::Evolved(Ok(()))) == found
            &&& table_after(evolve, TableEvent::Evolved(Err(err))) == failed
            &&& table_after(create, TableEvent::Created(Ok(table))) == found
            &&& table_after(create, TableEvent::Created(Err(err))) == failed
        }),
{
}

/// A search fails only by an answer, with the error that the answer carries.
pub proof fn law_search_fails_only_by_an_answer<T, S, E>(
    namespace: Seq<char>,
    name: Seq<char>,
    schema: S,
    events: Seq<TableEvent<T, E>>,
    err: E,
)
    requires
        table_run(namespace, name, schema, events) == TableView::<T, S, E>::Finished(Err(err)),
    ensures
        exists|i: int|
            0 <= i < events.len() && match #[trigger] events[i] {
                TableEvent::NamespaceChecked(reply) => reply == Err::<bool, E>(err),
                TableEvent::NamespaceCreated(reply) => reply == Err::<(), E>(err),
                TableEvent::Checked(reply) => reply == Err::<bool, E>(err),
                TableEvent::Loaded { reply, .. } => reply == Err::<T, E>(err),
                TableEvent::Evolved(reply) => reply == Err::<(), E>(err),
                TableEvent::Created(reply) => reply == Err::<T, E>(err),
            },
    decreases events.len(),
{
    if events.len() > 0 {
        let fewer = events.drop_last();
        assert(events[events.len() - 1] == events.last());
        if table_run(namespace, name, schema, fewer) is Finished {
            law_search_fails_only_by_an_answer(namespace, name, schema, fewer, err);
            let i = choose|i: int|
                0 <= i < fewer.len() && match #[trigger] fewer[i] {
                    TableEvent::NamespaceChecked(reply) => reply == Err::<bool, E>(err),
                    TableEvent::NamespaceCreated(reply) => reply == Err::<(), E>(err),
                    TableEvent::Checked(reply) => reply == Err::<bool, E>(err),
                    TableEvent::Loaded { reply, .. } => reply == Err::<T, E>(err),
                    TableEvent::Evolved(reply) => reply == Err::<(), E>(err),
                    TableEvent::Created(reply) => reply == Err::<T, E>(err),
                };
            assert(events[i] == fewer[i]);
        }
    }
}

/// A table that is known is handed out, whatever schema is asked for. For one that is not known the
/// catalog is asked, first for the namespace.
pub proof fn law_unknown_table_is_searched_for<T: Clone, S, E>(
    cache: &TableCache<T>,
    namespace: &str,
    name: &str,
    schema: S,
    step: TableStep<T, S, E>,
)
    requires
        call_ensures(
            TableCache::<T>::load_or_create_table::<S, E>,
            (cache, namespace, name, schema),
            step,
        ),
    ensures
        cache@.contains_key(name@) ==> (step matches TableStep::Finished(Ok(table)) && cloned(
            cache@[name@],
            table,
        )),
        !cache@.contains_key(name@) ==> {
            &&& step@ == table_run(namespace@, name@, schema, Seq::<TableEvent<T, E>>::empty())
            &&& step matches TableStep::FindNamespace(find) && find.namespace.ident.name@
                == namespace@ && find.name@ == name@ && find.schema == schema
        },
{
    if !cache@.contains_key(name@) {
        assert(step@ == TableView::<T, S, E>::FindNamespace {
            ident: TableIdentView { namespace: namespace@, name: name@ },
            schema,
        });
    }
}

/// The methods of the steps for a namespace take the step that their answer leads to.
pub proof fn law_namespace_answers_take_the_step<T, S, E>(
    find: FindNamespace<S>,
    exists: Result<bool, E>,
    checked: TableStep<T, S, E>,
    make: MakeNamespace<S>,
    made: Result<(), E>,
    created: TableStep<T, S, E>,
)
    requires
        call_ensures(FindNamespace::<S>::checked::<T, E>, (find, exists), checked),
        call_ensures(MakeNamespace::<S>::created::<T, E>, (make, made), created),
    ensures
        checked@ == table_after(
            (TableView::<T, S, E>::FindNamespace {
                ident: TableIdentView {
                    namespace: find.namespace.ident.name@,
                    name: find.name@,
                },
                schema: find.schema,
            }),
            TableEvent::NamespaceChecked(exists),
        ),
        created@ == table_after(
            (TableView::<T, S, E>::MakeNamespace {
                ident: TableIdentView {
                    namespace: make.namespace.ident.name@,
                    name: make.name@,
                },
                schema: make.schema,
            }),
            TableEvent::NamespaceCreated(made),
        ),
{
}

/// The methods of the steps for a table take the step that their answer leads to.
pub proof fn law_table_answers_take_the_step<T, S, E>(
    check: CheckTable<S>,
    exists: Result<bool, E>,
    checked: TableStep<T, S, E>,
    load: LoadTable<S>,
    reply: Result<T, E>,
    same: bool,
    loaded: TableStep<T, S, E>,
    evolve: EvolveTable<T, S>,
    added: Result<(), E>,
    evolved: TableStep<T, S, E>,
    create: CreateTable<S>,
    created: TableStep<T, S, E>,
)
    requires
        call_ensures(CheckTable::<S>::checked::<T, E>, (check, exists), checked),
        call_ensures(LoadTable::<S>::loaded::<T, E>, (load, reply, same), loaded),
        call_ensures(EvolveTable::<T, S>::evolved::<E>, (evolve, added), evolved),
        call_ensures(CreateTable::<S>::created::<T, E>, (create, reply), created),
    ensures
        checked@ == table_after(
            (TableView::<T, S, E>::Check { ident: check.ident@, schema: check.schema }),
            TableEvent::Checked(exists),
        ),
        loaded@ == table_after(
            (TableView::<T, S, E>::Load { ident: load.ident@, schema: load.schema }),
            (TableEvent::Loaded { reply, same }),
        ),
        evolved@ == table_after(
            (TableView::<T, S, E>::Evolve {
                ident: evolve.ident@,
                table: evolve.table,
                schema: evolve.schema,
            }),
            TableEvent::Evolved(added),
        ),
        created@ == table_after(
            (TableView::<T, S, E>::Create { ident: create.ident@, schema: create.schema }),
            TableEvent::Created(reply),
        ),
{
}

/// A table that is remembered is handed out, and its clone is known under its name from then on. No
/// other known table is touched.
pub proof fn law_remembered_table_is_known<T: Clone>(
    step: RememberTable<T>,
    cache: &mut TableCache<T>,
    table: T,
    name: Seq<char>,
)
    requires
        call_ensures(RememberTable::<T>::remember, (step, cache), table),
    ensures
        table == step.table,
        if name == step.ident.name@ {
            final(cache)@.contains_key(name) && cloned(step.table, final(cache)@[name])
        } else {
            &&& final(cache)@.contains_key(name) == old(cache)@.contains_key(name)
            &&& old(cache)@.contains_key(name) ==> final(cache)@[name] == old(cache)@[name]
        },
{
}

/// A step shows what it is, and what is in it.
pub proof fn law_table_step_is_its_parts<T, S, E>(step: TableStep<T, S, E>)
    ensures
        match step {
            TableStep::FindNamespace(s) => step@ == (TableView::<T, S, E>::FindNamespace {
                ident: TableIdentView { namespace: s.namespace.ident.name@, name: s.name@ },
                schema: s.schema,
            }),
            TableStep::MakeNamespace(s) => step@ == (TableView::<T, S, E>::MakeNamespace {
                ident: TableIdentView { namespace: s.namespace.ident.name@, name: s.name@ },
                schema: s.schema,
            }),
            TableStep::Check(s) => step@ == (TableView::<T, S, E>::Check {
                ident: TableIdentView { namespace: s.ident.namespace.name@, name: s.ident.name@ },
                schema: s.schema,
            }),
            TableStep::Load(s) => step@ == (TableView::<T, S, E>::Load {
                ident: TableIdentView { namespace: s.ident.namespace.name@, name: s.ident.name@ },
                schema: s.schema,
            }),
            TableStep::Evolve(s) => step@ == (TableView::<T, S, E>::Evolve {
                ident: TableIdentView { namespace: s.ident.namespace.name@, name: s.ident.name@ },
                table: s.table,
                schema: s.schema,
            }),
            TableStep::Create(s) => step@ == (TableView::<T, S, E>::Create {
                ident: TableIdentView { namespace: s.ident.namespace.name@, name: s.ident.name@ },
                schema: s.schema,
            }),
            TableStep::Remember(s) => step@ == (TableView::<T, S, E>::Remember {
                ident: TableIdentView { namespace: s.ident.namespace.name@, name: s.ident.name@ },
                table: s.table,
            }),
            TableStep::Finished(result) => step@ == TableView::<T, S, E>::Finished(result),
        },
{
}

} // verus!
