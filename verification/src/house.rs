//! The lake: its catalog and its tables, and the writes that wait for their transactions.

use crate::builder::LoadCatalog;
use crate::error::LakeError;
use crate::namespace::{create_namespace, NamespaceStep, NamespaceView};
use crate::staging::{
    each_has_writes, finalized, law_end_gives_back_what_is_staged, law_staging_adds_one_write,
    staged_with, Finalized, FinalizedView, StagedWrites,
};
use crate::store::{store_run, store_started, store_transaction, StoreEvent, StoreStep};
use crate::table::{table_started, TableCache, TableIdentView, TableStep, TableView};
use crate::write::{
    pending_views, write_views, FinalizeTransactionRequest, LakeHouseType, LakeWriteRequest,
    PendingWriteView, StageTransactionalRequest, TransactionWrite, TransactionWriteView, TxnKeyView,
};
use vstd::prelude::*;

verus! {

/// A lake of iceberg tables. `C` is its catalog, `K` holds the tables that it knows, `W` the writes
/// that are staged, and `R` is the schema registry.
#[derive(Debug)]
pub struct Iceberg<C, K, W, R> {
    pub catalog: C,
    pub namespace: String,
    pub tables: K,
    pub staged_writes: W,
    pub schema_registry: R,
}

impl<C: Clone, K: Clone, W: Clone, R: Clone> Clone for Iceberg<C, K, W, R> {
    fn clone(&self) -> (lake: Self)
        ensures
            cloned(self.catalog, lake.catalog),
            lake.namespace@ == self.namespace@,
            cloned(self.tables, lake.tables),
            cloned(self.staged_writes, lake.staged_writes),
            cloned(self.schema_registry, lake.schema_registry),
    {
        Iceberg {
            catalog: self.catalog.clone(),
            namespace: self.namespace.clone(),
            tables: self.tables.clone(),
            staged_writes: self.staged_writes.clone(),
            schema_registry: self.schema_registry.clone(),
        }
    }
}

impl<C, T, B, R> Iceberg<C, TableCache<T>, StagedWrites<B>, R> {
    /// The lake of the settings, when its catalog was loaded: no table is known, and nothing is
    /// staged.
    pub fn new<E>(value: LoadCatalog<R>, reply: Result<C, LakeError<E>>) -> (lake: Result<
        Self,
        LakeError<E>,
    >)
        ensures
            match reply {
                Ok(catalog) => {
                    &&& lake matches Ok(lake)
                    &&& lake.catalog == catalog
                    &&& lake.namespace == value.namespace
                    &&& lake.tables@ == Map::<Seq<char>, T>::empty()
                    &&& lake.staged_writes@ == Map::<TxnKeyView, Seq<PendingWriteView<B>>>::empty()
                    &&& lake.schema_registry == value.schema_registry
                },
                Err(err) => lake == Err::<Self, LakeError<E>>(err),
            },
    {
        match reply {
            Ok(catalog) => Ok(
                Iceberg {
                    catalog,
                    namespace: value.namespace,
                    tables: TableCache::new(),
                    staged_writes: StagedWrites::new(),
                    schema_registry: value.schema_registry,
                },
            ),
            Err(err) => Err(err),
        }
    }

    /// Starts to find the table `name` of the lake's namespace, or to bring it about with `schema`. A
    /// table that is known is handed out without asking the catalog.
    pub fn load_or_create_table<S, E>(&self, name: &str, schema: S) -> (step: TableStep<
        T,
        S,
        E,
    >) where T: Clone
        ensures
            if self.tables@.contains_key(name@) {
                step@ matches TableView::Finished(Ok(table)) && cloned(self.tables@[name@], table)
            } else {
                step@ == table_started::<T, S, E>(self.namespace@, name@, schema)
            },
    {
        self.tables.load_or_create_table(self.namespace.as_str(), name, schema)
    }

    /// Keeps the write of the request back until its transaction ends.
    pub fn stage_transactional<D>(&mut self, request: StageTransactionalRequest<'_, B, D>) where
        B: Clone,

        ensures
            exists|batch: B| #[trigger]
                cloned(*request.write.inflated, batch) && final(self).staged_writes@ == staged_with(
                    old(self).staged_writes@,
                    request.transaction.key(),
                    (PendingWriteView {
                        topic: request.write.topic@,
                        partition: request.write.partition,
                        offset: request.write.offset,
                        batch,
                    }),
                ),
            each_has_writes(final(self).staged_writes@),
            final(self).catalog == old(self).catalog,
            final(self).namespace == old(self).namespace,
            final(self).tables == old(self).tables,
            final(self).schema_registry == old(self).schema_registry,
    {
        self.staged_writes.stage_transactional(request);
    }

    /// Ends the transaction of the request: whatever is staged for it is taken out, and it is to
    /// be stored where the transaction commits.
    pub fn finalize_transaction(&mut self, request: FinalizeTransactionRequest<'_>) -> (ended:
        Finalized<B>)
        ensures
            final(self).staged_writes@ == old(self).staged_writes@.remove(
                request.transaction.key(),
            ),
            ended@ == finalized(
                old(self).staged_writes@,
                request.transaction.key(),
                request.committed,
            ),
            ended@ matches FinalizedView::Committed(writes) ==> writes.len() > 0,
            each_has_writes(final(self).staged_writes@),
            final(self).catalog == old(self).catalog,
            final(self).namespace == old(self).namespace,
            final(self).tables == old(self).tables,
            final(self).schema_registry == old(self).schema_registry,
    {
        self.staged_writes.finalize_transaction(request)
    }
}

impl<C, K, W, R> Iceberg<C, K, W, R> {
    /// Starts to bring the namespace of the lake about.
    pub fn create_namespace<E>(&self) -> (step: NamespaceStep<E>)
        ensures
            step@ == NamespaceView::<E>::Check(self.namespace@),
    {
        create_namespace(self.namespace.clone())
    }

    /// Starts to store the writes `writes` in the table of `topic`.
    pub fn store_transaction<'a, B, Q, A, S, T, F, E>(
        &self,
        topic: &'a str,
        writes: &'a [TransactionWrite<'a, B>],
    ) -> (step: StoreStep<'a, B, Q, A, S, T, F, E>)
        ensures
            step@ == store_started::<B, Q, A, S, T, F, E>(topic@, write_views(writes@)),
    {
        store_transaction(topic, writes)
    }

    /// The topic and the one write of a request, which is stored like the writes of a transaction.
    pub fn store<'a, B, D>(&self, write: LakeWriteRequest<'a, B, D>) -> (stored: (
        &'a str,
        [TransactionWrite<'a, B>; 1],
    ))
        ensures
            stored.0@ == write.topic@,
            write_views(stored.1@) == seq![
                (TransactionWriteView {
                    partition: write.partition,
                    offset: write.offset,
                    batch: *write.inflated,
                }),
            ],
    {
        let writes: [TransactionWrite<'a, B>; 1] = [
            TransactionWrite {
                partition: write.partition,
                offset: write.offset,
                batch: write.inflated,
            },
        ];
        assert(write_views(writes@) =~= seq![writes@[0]@]);
        (write.topic, writes)
    }

    /// Does nothing: tables need no upkeep.
    pub fn maintain<E>(&self) -> (done: Result<(), E>)
        ensures
            done == Ok::<(), E>(()),
    {
        Ok(())
    }

    /// The kind of this lake.
    pub fn lake_type<E>(&self) -> (kind: Result<LakeHouseType, E>)
        ensures
            kind == Ok::<LakeHouseType, E>(LakeHouseType::Iceberg),
    {
        Ok(LakeHouseType::Iceberg)
    }
}

/// A lake starts with the catalog that was loaded, in its namespace, with no table known and nothing
/// staged. Where the catalog could not be loaded, the error is handed on.
pub proof fn law_lake_starts_empty<C, T, B, R, E>(
    value: LoadCatalog<R>,
    reply: Result<C, LakeError<E>>,
    lake: Result<Iceberg<C, TableCache<T>, StagedWrites<B>, R>, LakeError<E>>,
    name: Seq<char>,
    key: TxnKeyView,
)
    requires
        call_ensures(
            Iceberg::<C, TableCache<T>, StagedWrites<B>, R>::new::<E>,
            (value, reply),
            lake,
        ),
    ensures
        reply is Ok <==> lake is Ok,
        reply is Err ==> lake->Err_0 == reply->Err_0,
        reply is Ok ==> {
            let lake = lake->Ok_0;
            &&& lake.catalog == reply->Ok_0
            &&& lake.namespace@ == value.namespace@
            &&& lake.schema_registry == value.schema_registry
            &&& !lake.tables@.contains_key(name)
            &&& !lake.staged_writes@.contains_key(key)
        },
{
}

/// The table of a lake is searched for in the namespace of the lake, unless it is known.
pub proof fn law_lake_searches_in_its_namespace<C, T: Clone, B, R, S, E>(
    lake: &Iceberg<C, TableCache<T>, StagedWrites<B>, R>,
    name: &str,
    schema: S,
    step: TableStep<T, S, E>,
)
    requires
        call_ensures(
            Iceberg::<C, TableCache<T>, StagedWrites<B>, R>::load_or_create_table::<S, E>,
            (lake, name, schema),
            step,
        ),
    ensures
        lake.tables@.contains_key(name@) ==> (step matches TableStep::Finished(Ok(table))
            && cloned(lake.tables@[name@], table)),
        !lake.tables@.contains_key(name@) ==> (step matches TableStep::FindNamespace(find)
            && find.namespace.ident.name@ == lake.namespace@ && find.name@ == name@ && find.schema
            == schema),
{
    if !lake.tables@.contains_key(name@) {
        assert(step@ == TableView::<T, S, E>::FindNamespace {
            ident: TableIdentView { namespace: lake.namespace@, name: name@ },
            schema,
        });
    }
}

/// The namespace of a lake is asked for by its name.
pub proof fn law_lake_asks_for_its_namespace<C, K, W, R, E>(
    lake: &Iceberg<C, K, W, R>,
    step: NamespaceStep<E>,
)
    requires
        call_ensures(Iceberg::<C, K, W, R>::create_namespace::<E>, (lake,), step),
    ensures
        step matches NamespaceStep::Check(check) && check.ident.name@ == lake.namespace@,
{
}

/// A single write is stored as a transaction of one write: that of the request, in its topic.
pub proof fn law_single_write_is_stored_as_it_is<'a, C, K, W, R, B, D>(
    lake: &Iceberg<C, K, W, R>,
    write: LakeWriteRequest<'a, B, D>,
    stored: (&'a str, [TransactionWrite<'a, B>; 1]),
)
    requires
        call_ensures(Iceberg::<C, K, W, R>::store::<B, D>, (lake, write), stored),
    ensures
        stored.0@ == write.topic@,
        stored.1@.len() == 1,
        stored.1@[0].partition == write.partition,
        stored.1@[0].offset == write.offset,
        *stored.1@[0].batch == *write.inflated,
{
    let views = write_views(stored.1@);
    assert(views.len() == 1);
    assert(views[0] == stored.1@[0]@);
}

/// A request to a lake is staged for its own transaction, and ends its own transaction alone: what is
/// staged for another one is not touched, and neither is anything else of the lake.
pub proof fn law_lake_stages_for_the_transaction<C, T, B: Clone, R, D>(
    lake: &mut Iceberg<C, TableCache<T>, StagedWrites<B>, R>,
    request: StageTransactionalRequest<'_, B, D>,
    key: TxnKeyView,
)
    requires
        call_ensures(
            Iceberg::<C, TableCache<T>, StagedWrites<B>, R>::stage_transactional::<D>,
            (lake, request),
            (),
        ),
    ensures
        final(lake).tables == old(lake).tables,
        final(lake).namespace == old(lake).namespace,
        if key.transaction_id == request.transaction.transaction_id@ && key.producer_id
            == request.transaction.producer_id && key.producer_epoch
            == request.transaction.producer_epoch {
            let before = old(lake).staged_writes@;
            let after = final(lake).staged_writes@;
            &&& after.contains_key(key)
            &&& after[key].len() > 0
            &&& after[key].last().topic == request.write.topic@
            &&& after[key].last().partition == request.write.partition
            &&& after[key].last().offset == request.write.offset
            &&& cloned(*request.write.inflated, after[key].last().batch)
            &&& before.contains_key(key) ==> after[key].drop_last() == before[key]
            &&& !before.contains_key(key) ==> after[key].len() == 1
        } else {
            let before = old(lake).staged_writes@;
            let after = final(lake).staged_writes@;
            &&& after.contains_key(key) == before.contains_key(key)
            &&& before.contains_key(key) ==> after[key] == before[key]
        },
{
    let own = request.transaction.key();
    let batch = choose|batch: B| #[trigger]
        cloned(*request.write.inflated, batch) && final(lake).staged_writes@ == staged_with(
            old(lake).staged_writes@,
            own,
            PendingWriteView {
                topic: request.write.topic@,
                partition: request.write.partition,
                offset: request.write.offset,
                batch,
            },
        );
    law_staging_adds_one_write(
        old(lake).staged_writes@,
        own,
        PendingWriteView {
            topic: request.write.topic@,
            partition: request.write.partition,
            offset: request.write.offset,
            batch,
        },
        key,
    );
}

/// The end of a transaction takes out what a lake has staged for it and nothing else. On a commit all
/// of it is given back, on an abort nothing.
pub proof fn law_lake_ends_the_transaction<C, T, B, R>(
    lake: &mut Iceberg<C, TableCache<T>, StagedWrites<B>, R>,
    request: FinalizeTransactionRequest<'_>,
    ended: Finalized<B>,
    key: TxnKeyView,
)
    requires
        call_ensures(
            Iceberg::<C, TableCache<T>, StagedWrites<B>, R>::finalize_transaction,
            (lake, request),
            ended,
        ),
    ensures
        final(lake).tables == old(lake).tables,
        final(lake).namespace == old(lake).namespace,
        if key.transaction_id == request.transaction.transaction_id@ && key.producer_id
            == request.transaction.producer_id && key.producer_epoch
            == request.transaction.producer_epoch {
            &&& !final(lake).staged_writes@.contains_key(key)
            &&& ended is Aborted <==> !request.committed
            &&& ended is Committed <==> request.committed && old(
                lake,
            ).staged_writes@.contains_key(key)
            &&& ended matches Finalized::Committed(writes) ==> pending_views(writes@) == old(
                lake,
            ).staged_writes@[key]
        } else {
            &&& final(lake).staged_writes@.contains_key(key) == old(
                lake,
            ).staged_writes@.contains_key(key)
            &&& old(lake).staged_writes@.contains_key(key) ==> final(lake).staged_writes@[key]
                == old(lake).staged_writes@[key]
        },
{
    law_end_gives_back_what_is_staged(old(lake).staged_writes@, request.transaction.key());
}

/// A lake is one of iceberg tables, and needs no upkeep.
pub proof fn law_lake_is_of_iceberg_tables<C, K, W, R, E>(
    lake: &Iceberg<C, K, W, R>,
    kind: Result<LakeHouseType, E>,
    done: Result<(), E>,
)
    requires
        call_ensures(Iceberg::<C, K, W, R>::lake_type::<E>, (lake,), kind),
        call_ensures(Iceberg::<C, K, W, R>::maintain::<E>, (lake,), done),
    ensures
        kind matches Ok(LakeHouseType::Iceberg),
        done is Ok,
{
}

/// The writes of a transaction are stored in the table of the topic by the steps of
/// [`store_transaction`].
pub proof fn law_lake_stores_by_the_steps<'a, C, K, W, R, B, Q, A, S, T, F, E>(
    lake: &Iceberg<C, K, W, R>,
    topic: &'a str,
    writes: &'a [TransactionWrite<'a, B>],
    step: StoreStep<'a, B, Q, A, S, T, F, E>,
)
    requires
        call_ensures(
            Iceberg::<C, K, W, R>::store_transaction::<B, Q, A, S, T, F, E>,
            (lake, topic, writes),
            step,
        ),
    ensures
        step@ == store_run(
            topic@,
            write_views(writes@),
            Seq::<StoreEvent<Q, A, S, T, F, E>>::empty(),
        ),
{
}

} // verus!
