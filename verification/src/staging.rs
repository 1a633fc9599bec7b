//! The writes that wait for their transactions to end, and what ending a transaction does.

use crate::keyed::KeyedMap;
use crate::plan::{
    by_topic, flatten, is_plan, law_plan_keeps_commit_order, law_plan_stores_all_in_order,
    law_plan_stores_each_write_once, stores_all_in_order, write_before,
};
use crate::write::{
    pending_views, topic_views, FinalizeTransactionRequest, PendingWrite, PendingWriteView,
    StageTransactionalRequest, TopicWrites, TopicWritesView, TxnKey, TxnKeyView,
};
use vstd::prelude::*;

verus! {

/// The writes staged so far, by transaction, in the order of staging.
#[derive(Debug)]
pub struct StagedWrites<B> {
    staged: KeyedMap<TxnKey, Vec<PendingWrite<B>>>,
}

impl<B> View for StagedWrites<B> {
    type V = Map<TxnKeyView, Seq<PendingWriteView<B>>>;

    closed spec fn view(&self) -> Map<TxnKeyView, Seq<PendingWriteView<B>>> {
        self.staged@.map_values(|writes: Vec<PendingWrite<B>>| pending_views(writes@))
    }
}

impl<B> StagedWrites<B> {
    #[verifier::type_invariant]
    spec fn holds_writes(self) -> bool {
        no_empty_lists(self.staged@)
    }
}

/// Whether there is a write under each key.
spec fn no_empty_lists<B>(staged: Map<TxnKeyView, Vec<PendingWrite<B>>>) -> bool {
    forall|key: TxnKeyView| #[trigger] staged.contains_key(key) ==> staged[key]@.len() > 0
}

/// Whether each transaction that is staged has a write.
pub open spec fn each_has_writes<B>(staged: Map<TxnKeyView, Seq<PendingWriteView<B>>>) -> bool {
    forall|key: TxnKeyView| #[trigger] staged.contains_key(key) ==> staged[key].len() > 0
}

/// The writes staged for a transaction: none where nothing was.
pub open spec fn staged_under<B>(
    staged: Map<TxnKeyView, Seq<PendingWriteView<B>>>,
    key: TxnKeyView,
) -> Seq<PendingWriteView<B>> {
    if staged.contains_key(key) {
        staged[key]
    } else {
        Seq::empty()
    }
}

/// `staged` with one more write for the transaction `key`, behind those that it has.
pub open spec fn staged_with<B>(
    staged: Map<TxnKeyView, Seq<PendingWriteView<B>>>,
    key: TxnKeyView,
    write: PendingWriteView<B>,
) -> Map<TxnKeyView, Seq<PendingWriteView<B>>> {
    staged.insert(key, staged_under(staged, key).push(write))
}

/// What the end of a transaction asks for.
#[derive(Debug)]
pub enum Finalized<B> {
    /// The transaction was aborted: nothing is stored.
    Aborted,
    /// The transaction was committed, but nothing is staged for it: nothing is stored. So it is
    /// where the transaction was ended before.
    Missing,
    /// The transaction was committed: the writes that were staged for it are to be stored.
    Committed(Vec<PendingWrite<B>>),
}

/// The mathematical value of a [`Finalized`].
pub enum FinalizedView<B> {
    Aborted,
    Missing,
    Committed(Seq<PendingWriteView<B>>),
}

impl<B> View for Finalized<B> {
    type V = FinalizedView<B>;

    open spec fn view(&self) -> FinalizedView<B> {
        match *self {
            Finalized::Aborted => FinalizedView::Aborted,
            Finalized::Missing => FinalizedView::Missing,
            Finalized::Committed(writes) => FinalizedView::Committed(pending_views(writes@)),
        }
    }
}

/// What the end of the transaction `key` asks for.
pub open spec fn finalized<B>(
    staged: Map<TxnKeyView, Seq<PendingWriteView<B>>>,
    key: TxnKeyView,
    committed: bool,
) -> FinalizedView<B> {
    if !committed {
        FinalizedView::Aborted
    } else if !staged.contains_key(key) {
        FinalizedView::Missing
    } else {
        FinalizedView::Committed(staged[key])
    }
}

impl<B> StagedWrites<B> {
    /// Nothing staged.
    pub fn new() -> (staged: Self)
        ensures
            staged@ == Map::<TxnKeyView, Seq<PendingWriteView<B>>>::empty(),
    {
        let staged = StagedWrites { staged: KeyedMap::new() };
        assert(staged@ =~= Map::empty());
        staged
    }

    /// Whether writes are staged for the transaction `key`.
    pub fn contains_key(&self, key: &TxnKey) -> (found: bool)
        ensures
            found == self@.contains_key(key@),
            each_has_writes(self@),
    {
        proof {
            use_type_invariant(self);
        }
        self.staged.contains_key(key)
    }

    /// Puts `write` behind the writes that are staged for the transaction `key`.
    pub fn push(&mut self, key: TxnKey, write: PendingWrite<B>)
        ensures
            final(self)@ == staged_with(old(self)@, key@, write@),
            each_has_writes(final(self)@),
    {
        proof {
            use_type_invariant(&*self);
        }
        let mut staged: KeyedMap<TxnKey, Vec<PendingWrite<B>>> = KeyedMap::new();
        std::mem::swap(&mut self.staged, &mut staged);
        let mut writes: Vec<PendingWrite<B>> = match staged.remove(&key) {
            Some(writes) => writes,
            None => Vec::new(),
        };
        let ghost before = pending_views(writes@);
        proof {
            assert(before =~= staged_under(old(self)@, key@));
        }
        writes.push(write);
        assert(pending_views(writes@) =~= before.push(write@));
        let previous = staged.insert(key, writes);
        self.staged = staged;
        assert(self@ =~= staged_with(old(self)@, key@, write@));
    }

    /// Takes out the writes that are staged for the transaction `key`.
    pub fn remove(&mut self, key: &TxnKey) -> (writes: Option<Vec<PendingWrite<B>>>)
        ensures
            final(self)@ == old(self)@.remove(key@),
            match writes {
                Some(writes) => old(self)@.contains_key(key@) && pending_views(writes@) == old(
                    self,
                )@[key@],
                None => !old(self)@.contains_key(key@),
            },
            each_has_writes(old(self)@),
            each_has_writes(final(self)@),
    {
        proof {
            use_type_invariant(&*self);
        }
        let mut staged: KeyedMap<TxnKey, Vec<PendingWrite<B>>> = KeyedMap::new();
        std::mem::swap(&mut self.staged, &mut staged);
        let writes = staged.remove(key);
        self.staged = staged;
        assert(self@ =~= old(self)@.remove(key@));
        writes
    }

    /// Keeps the write of the request back until its transaction ends.
    pub fn stage_transactional<C>(&mut self, request: StageTransactionalRequest<'_, B, C>) where
        B: Clone,

        ensures
            exists|batch: B|
                #[trigger] cloned(*request.write.inflated, batch) && final(self)@ == staged_with(
                    old(self)@,
                    request.transaction.key(),
                    (PendingWriteView {
                        topic: request.write.topic@,
                        partition: request.write.partition,
                        offset: request.write.offset,
                        batch,
                    }),
                ),
            each_has_writes(final(self)@),
    {
        let key = TxnKey::new(
            request.transaction.transaction_id,
            request.transaction.producer_id,
            request.transaction.producer_epoch,
        );
        let batch: B = request.write.inflated.clone();
        let write: PendingWrite<B> = PendingWrite {
            topic: request.write.topic.to_owned(),
            partition: request.write.partition,
            offset: request.write.offset,
            batch,
        };
        assert(cloned(*request.write.inflated, write.batch));
        self.push(key, write);
    }

    /// Ends the transaction of the request: whatever is staged for it is taken out, and it is to
    /// be stored where the transaction commits.
    pub fn finalize_transaction(&mut self, request: FinalizeTransactionRequest<'_>) -> (ended:
        Finalized<B>)
        ensures
            final(self)@ == old(self)@.remove(request.transaction.key()),
            ended@ == finalized(old(self)@, request.transaction.key(), request.committed),
            ended@ matches FinalizedView::Committed(writes) ==> writes.len() > 0,
            each_has_writes(final(self)@),
    {
        let key = TxnKey::new(
            request.transaction.transaction_id,
            request.transaction.producer_id,
            request.transaction.producer_epoch,
        );
        let writes = self.remove(&key);
        if !request.committed {
            return Finalized::Aborted;
        }
        match writes {
            Some(writes) => Finalized::Committed(writes),
            None => Finalized::Missing,
        }
    }
}

/// The storing of a committed transaction, one topic after the other.
#[derive(Debug)]
pub enum CommitStep<'a, B, F> {
    /// The writes of a topic are to be stored.
    Store(StoreTopics<'a, B>),
    /// The transaction is stored, or the storing of a topic failed.
    Finished(Result<(), F>),
}

/// The topic to store, and the topics behind it.
#[derive(Debug)]
pub struct StoreTopics<'a, B> {
    pub topic: TopicWrites<'a, B>,
    pub rest: Vec<TopicWrites<'a, B>>,
}

impl<'a, B> View for StoreTopics<'a, B> {
    type V = Seq<TopicWritesView<B>>;

    open spec fn view(&self) -> Seq<TopicWritesView<B>> {
        seq![self.topic@] + topic_views(self.rest@)
    }
}

/// The mathematical value of a [`CommitStep`].
pub enum CommitView<B, F> {
    /// These topics are to be stored, the first one next.
    Store(Seq<TopicWritesView<B>>),
    Finished(Result<(), F>),
}

impl<'a, B, F> View for CommitStep<'a, B, F> {
    type V = CommitView<B, F>;

    open spec fn view(&self) -> CommitView<B, F> {
        match *self {
            CommitStep::Store(topics) => CommitView::Store(topics@),
            CommitStep::Finished(result) => CommitView::Finished(result),
        }
    }
}

/// The storing of `topics`.
pub open spec fn commit_of<B, F>(topics: Seq<TopicWritesView<B>>) -> CommitView<B, F> {
    if topics.len() > 0 {
        CommitView::Store(topics)
    } else {
        CommitView::Finished(Ok(()))
    }
}

/// What follows when the store of the first of `topics` was answered by `reply`.
pub open spec fn commit_after<B, F>(
    topics: Seq<TopicWritesView<B>>,
    reply: Result<(), F>,
) -> CommitView<B, F> {
    match reply {
        Ok(()) => commit_of(topics.drop_first()),
        Err(err) => CommitView::Finished(Err(err)),
    }
}

fn store_topics<'a, B, F>(topics: Vec<TopicWrites<'a, B>>) -> (step: CommitStep<'a, B, F>)
    ensures
        step@ == commit_of::<B, F>(topic_views(topics@)),
{
    if topics.len() > 0 {
        let mut rest: Vec<TopicWrites<'a, B>> = topics;
        let topic: TopicWrites<'a, B> = rest.remove(0);
        let step: StoreTopics<'a, B> = StoreTopics { topic, rest };
        assert(step@ =~= topic_views(topics@));
        CommitStep::Store(step)
    } else {
        CommitStep::Finished(Ok(()))
    }
}

/// Starts to store the writes of a committed transaction.
pub fn commit<'a, B, F>(writes: &'a Vec<PendingWrite<B>>) -> (step: CommitStep<'a, B, F>)
    ensures
        exists|topics: Seq<TopicWritesView<B>>|
            #[trigger] is_plan(pending_views(writes@), topics) && step@ == commit_of::<B, F>(
                topics,
            ),
{
    let topics: Vec<TopicWrites<'a, B>> = by_topic(writes);
    assert(is_plan(pending_views(writes@), topic_views(topics@)));
    store_topics(topics)
}

impl<B> Finalized<B> {
    /// Starts to store what the end of a transaction asks for. An abort, and a commit that found
    /// nothing, are done at once.
    pub fn start<'a, F>(&'a self) -> (step: CommitStep<'a, B, F>)
        ensures
            match self@ {
                FinalizedView::Committed(writes) => exists|topics: Seq<TopicWritesView<B>>|
                    #[trigger] is_plan(writes, topics) && step@ == commit_of::<B, F>(topics),
                _ => step@ == CommitView::<B, F>::Finished(Ok(())),
            },
    {
        match self {
            Finalized::Committed(writes) => {
                let step: CommitStep<'a, B, F> = commit(writes);
                proof {
                    let topics = choose|topics: Seq<TopicWritesView<B>>|
                        #[trigger] is_plan(pending_views(writes@), topics) && step@ == commit_of::<
                            B,
                            F,
                        >(topics);
                    assert(self@ == FinalizedView::Committed(pending_views(writes@)));
                    assert(is_plan(self@->Committed_0, topics));
                }
                step
            },
            Finalized::Aborted => CommitStep::Finished(Ok(())),
            Finalized::Missing => CommitStep::Finished(Ok(())),
        }
    }
}

impl<'a, B> StoreTopics<'a, B> {
    /// What follows when the store of the topic was answered by `reply`.
    pub fn stored<F>(self, reply: Result<(), F>) -> (step: CommitStep<'a, B, F>)
        ensures
            step@ == commit_after(self@, reply),
    {
        match reply {
            Ok(()) => {
                assert(self@.drop_first() =~= topic_views(self.rest@));
                store_topics(self.rest)
            },
            Err(err) => CommitStep::Finished(Err(err)),
        }
    }
}

/// Where the storing of `topics` stands after the answers `replies`.
pub open spec fn commit_run<B, F>(
    topics: Seq<TopicWritesView<B>>,
    replies: Seq<Result<(), F>>,
) -> CommitView<B, F>
    decreases replies.len(),
{
    if replies.len() == 0 {
        commit_of(topics)
    } else {
        match commit_run(topics, replies.drop_last()) {
            CommitView::Store(rest) => commit_after(rest, replies.last()),
            CommitView::Finished(result) => CommitView::Finished(result),
        }
    }
}

/// While every store succeeds, the topics are stored one after the other, each once; the commit
/// succeeds when all of them are stored.
pub proof fn law_commit_stores_all_topics<B, F>(
    topics: Seq<TopicWritesView<B>>,
    replies: Seq<Result<(), F>>,
)
    requires
        replies.len() <= topics.len(),
        forall|i: int| 0 <= i < replies.len() ==> #[trigger] replies[i] is Ok,
    ensures
        commit_run(topics, replies) == (if replies.len() < topics.len() {
            CommitView::<B, F>::Store(topics.skip(replies.len() as int))
        } else {
            CommitView::<B, F>::Finished(Ok(()))
        }),
    decreases replies.len(),
{
    if replies.len() == 0 {
        assert(topics.skip(0) =~= topics);
    } else {
        let n = replies.len() - 1;
        assert forall|i: int| 0 <= i < n implies #[trigger] replies.drop_last()[i] is Ok by {
            assert(replies[i] is Ok);
        }
        law_commit_stores_all_topics(topics, replies.drop_last());
        assert(replies[n] is Ok);
        assert(topics.skip(n).drop_first() =~= topics.skip(n + 1));
    }
}

/// The first store that fails ends the commit with its error: no later topic is stored.
pub proof fn law_commit_stops_at_failure<B, F>(
    topics: Seq<TopicWritesView<B>>,
    replies: Seq<Result<(), F>>,
    failed: int,
)
    requires
        0 <= failed < replies.len(),
        failed < topics.len(),
        forall|i: int| 0 <= i < failed ==> #[trigger] replies[i] is Ok,
        replies[failed] is Err,
    ensures
        commit_run(topics, replies) == CommitView::<B, F>::Finished(replies[failed]),
    decreases replies.len(),
{
    let fewer = replies.drop_last();
    if failed < replies.len() - 1 {
        assert forall|i: int| 0 <= i < failed implies #[trigger] fewer[i] is Ok by {
            assert(replies[i] is Ok);
        }
        law_commit_stops_at_failure(topics, fewer, failed);
    } else {
        assert forall|i: int| 0 <= i < fewer.len() implies #[trigger] fewer[i] is Ok by {
            assert(replies[i] is Ok);
        }
        law_commit_stores_all_topics(topics, fewer);
    }
}

/// Ending a transaction takes out what was staged for it, on a commit and on an abort: after it,
/// nothing is staged for the transaction.
pub proof fn law_ended_transaction_is_cleared<B>(
    staged: Map<TxnKeyView, Seq<PendingWriteView<B>>>,
    key: TxnKeyView,
)
    ensures
        !staged.remove(key).contains_key(key),
{
}

/// Ending is idempotent: where a transaction was ended before and nothing was staged for it since,
/// a commit finds nothing, an abort is one as before, and neither stores or changes anything.
pub proof fn law_second_end_is_a_noop<B>(
    staged: Map<TxnKeyView, Seq<PendingWriteView<B>>>,
    key: TxnKeyView,
)
    ensures
        finalized(staged.remove(key), key, true) == FinalizedView::<B>::Missing,
        finalized(staged.remove(key), key, false) == FinalizedView::<B>::Aborted,
        staged.remove(key).remove(key) == staged.remove(key),
{
    assert(staged.remove(key).remove(key) =~= staged.remove(key));
}

/// Transactions do not touch each other: staging a write for one, or ending it, leaves what is
/// staged for another as it is.
pub proof fn law_transactions_are_isolated<B>(
    staged: Map<TxnKeyView, Seq<PendingWriteView<B>>>,
    key: TxnKeyView,
    other: TxnKeyView,
    write: PendingWriteView<B>,
    committed: bool,
)
    requires
        key != other,
    ensures
        staged_under(staged_with(staged, key, write), other) == staged_under(staged, other),
        staged_under(staged.remove(key), other) == staged_under(staged, other),
        finalized(staged_with(staged, key, write), other, committed) == finalized(
            staged,
            other,
            committed,
        ),
        finalized(staged.remove(key), other, committed) == finalized(staged, other, committed),
{
}

/// Each transaction that is staged has a write: so it is where nothing is staged, and staging a write
/// and ending a transaction keep it so. A commit that finds its transaction has something to store.
pub proof fn law_staged_transactions_have_writes<B>(
    staged: Map<TxnKeyView, Seq<PendingWriteView<B>>>,
    key: TxnKeyView,
    write: PendingWriteView<B>,
)
    requires
        each_has_writes(staged),
    ensures
        each_has_writes(Map::<TxnKeyView, Seq<PendingWriteView<B>>>::empty()),
        each_has_writes(staged_with(staged, key, write)),
        each_has_writes(staged.remove(key)),
        finalized(staged, key, true) matches FinalizedView::Committed(writes) ==> writes.len() > 0,
{
}

/// What is done to the staged writes of a lake, through whichever clone of it.
pub enum StagedOp<B> {
    Stage { key: TxnKeyView, write: PendingWriteView<B> },
    End { key: TxnKeyView, committed: bool },
}

/// What is staged when `op` was done.
pub open spec fn staged_after<B>(
    staged: Map<TxnKeyView, Seq<PendingWriteView<B>>>,
    op: StagedOp<B>,
) -> Map<TxnKeyView, Seq<PendingWriteView<B>>> {
    match op {
        StagedOp::Stage { key, write } => staged_with(staged, key, write),
        StagedOp::End { key, .. } => staged.remove(key),
    }
}

/// What is staged when `ops` were done, one after the other.
pub open spec fn staged_run<B>(
    staged: Map<TxnKeyView, Seq<PendingWriteView<B>>>,
    ops: Seq<StagedOp<B>>,
) -> Map<TxnKeyView, Seq<PendingWriteView<B>>>
    decreases ops.len(),
{
    if ops.len() == 0 {
        staged
    } else {
        staged_after(staged_run(staged, ops.drop_last()), ops.last())
    }
}

/// In every state that a lake gets into, each transaction that is staged has a write.
pub proof fn law_reached_states_have_writes<B>(ops: Seq<StagedOp<B>>)
    ensures
        each_has_writes(staged_run(Map::empty(), ops)),
    decreases ops.len(),
{
    if ops.len() > 0 {
        law_reached_states_have_writes(ops.drop_last());
    }
}

/// Whether `op` stages a write for the transaction `key`.
pub open spec fn stages_for<B>(op: StagedOp<B>, key: TxnKeyView) -> bool {
    op matches StagedOp::Stage { key: k, .. } && k == key
}

/// Of the ends of a transaction, in whatever order they come, one takes its writes: the first end
/// takes all that is staged, and another one, with nothing staged in between, finds nothing. So the
/// writes are stored at most once, and not at all where the first end was an abort.
pub proof fn law_one_end_takes_the_writes<B>(
    staged: Map<TxnKeyView, Seq<PendingWriteView<B>>>,
    ops: Seq<StagedOp<B>>,
    key: TxnKeyView,
    i: int,
    j: int,
    first: bool,
    second: bool,
)
    requires
        0 <= i < j < ops.len(),
        ops[i] == (StagedOp::<B>::End { key, committed: first }),
        ops[j] == (StagedOp::<B>::End { key, committed: second }),
        forall|k: int| i < k < j ==> !stages_for(#[trigger] ops[k], key),
    ensures
        finalized(staged_run(staged, ops.take(i)), key, first) == (if !first {
            FinalizedView::<B>::Aborted
        } else if staged_run(staged, ops.take(i)).contains_key(key) {
            FinalizedView::Committed(staged_run(staged, ops.take(i))[key])
        } else {
            FinalizedView::Missing
        }),
        staged_under(staged_run(staged, ops.take(j)), key).len() == 0,
        finalized(staged_run(staged, ops.take(j)), key, second) == (if second {
            FinalizedView::<B>::Missing
        } else {
            FinalizedView::Aborted
        }),
{
    lemma_ended_stays_cleared(staged, ops, key, i, j);
}

proof fn lemma_ended_stays_cleared<B>(
    staged: Map<TxnKeyView, Seq<PendingWriteView<B>>>,
    ops: Seq<StagedOp<B>>,
    key: TxnKeyView,
    i: int,
    j: int,
)
    requires
        0 <= i < j <= ops.len(),
        ops[i] matches StagedOp::End { key: k, .. } && k == key,
        forall|k: int| i < k < j ==> !stages_for(#[trigger] ops[k], key),
    ensures
        !staged_run(staged, ops.take(j)).contains_key(key),
    decreases j - i,
{
    assert(ops.take(j).drop_last() =~= ops.take(j - 1));
    assert(ops.take(j).last() == ops[j - 1]);
    if i < j - 1 {
        lemma_ended_stays_cleared(staged, ops, key, i, j - 1);
        assert(!stages_for(ops[j - 1], key));
    }
}

/// `staged` with the writes `writes` for the transaction `key`, one after the other.
pub open spec fn staged_with_all<B>(
    staged: Map<TxnKeyView, Seq<PendingWriteView<B>>>,
    key: TxnKeyView,
    writes: Seq<PendingWriteView<B>>,
) -> Map<TxnKeyView, Seq<PendingWriteView<B>>>
    decreases writes.len(),
{
    if writes.len() == 0 {
        staged
    } else {
        staged_with(staged_with_all(staged, key, writes.drop_last()), key, writes.last())
    }
}

/// A commit gives back what was staged: the writes of the transaction, all of them, in the order of
/// staging.
pub proof fn law_commit_returns_what_was_staged<B>(
    staged: Map<TxnKeyView, Seq<PendingWriteView<B>>>,
    key: TxnKeyView,
    writes: Seq<PendingWriteView<B>>,
)
    requires
        writes.len() > 0,
    ensures
        finalized(staged_with_all(staged, key, writes), key, true) == FinalizedView::Committed(
            staged_under(staged, key) + writes,
        ),
        staged_with_all(staged, key, writes).remove(key) == staged.remove(key),
    decreases writes.len(),
{
    let fewer = writes.drop_last();
    let before = staged_with_all(staged, key, fewer);
    if fewer.len() > 0 {
        law_commit_returns_what_was_staged(staged, key, fewer);
    } else {
        assert(staged_under(staged, key) =~= staged_under(staged, key) + fewer);
    }
    assert(staged_under(before, key) =~= staged_under(staged, key) + fewer);
    assert((staged_under(staged, key) + fewer).push(writes.last()) =~= staged_under(staged, key)
        + writes);
    assert(staged_with(before, key, writes.last()).remove(key) =~= before.remove(key));
}

/// What a commit stores is what was staged: every write of the transaction exactly once and nothing
/// else, by topic, partition and offset.
pub proof fn law_commit_stores_what_was_staged<B>(
    staged: Map<TxnKeyView, Seq<PendingWriteView<B>>>,
    key: TxnKeyView,
    writes: Seq<PendingWriteView<B>>,
    ended: Seq<PendingWriteView<B>>,
    topics: Seq<TopicWritesView<B>>,
)
    requires
        writes.len() > 0,
        finalized(staged_with_all(staged, key, writes), key, true) == FinalizedView::Committed(
            ended,
        ),
        is_plan(ended, topics),
    ensures
        flatten(topics).to_multiset() == (staged_under(staged, key) + writes).to_multiset(),
        forall|i: int, j: int|
            0 <= i < j < flatten(topics).len() ==> !write_before(
                #[trigger] flatten(topics)[j],
                #[trigger] flatten(topics)[i],
            ),
{
    law_commit_returns_what_was_staged(staged, key, writes);
    law_plan_stores_each_write_once(ended, topics);
    assert forall|i: int, j: int| 0 <= i < j < flatten(topics).len() implies !write_before(
        #[trigger] flatten(topics)[j],
        #[trigger] flatten(topics)[i],
    ) by {
        law_plan_keeps_commit_order(ended, topics, i, j);
    }
}

/// Staging puts one write behind those of its transaction, whatever they are, and leaves all other
/// transactions as they are.
pub proof fn law_staging_adds_one_write<B>(
    staged: Map<TxnKeyView, Seq<PendingWriteView<B>>>,
    key: TxnKeyView,
    write: PendingWriteView<B>,
    other: TxnKeyView,
)
    ensures
        ({
            let after = staged_with(staged, key, write);
            &&& after.contains_key(key)
            &&& after[key].last() == write
            &&& staged.contains_key(key) ==> after[key].drop_last() == staged[key]
            &&& !staged.contains_key(key) ==> after[key].len() == 1
            &&& other != key ==> after.contains_key(other) == staged.contains_key(other)
            &&& other != key && staged.contains_key(other) ==> after[other] == staged[other]
        }),
{
    let after = staged_with(staged, key, write);
    if staged.contains_key(key) {
        assert(after[key].drop_last() =~= staged[key]);
    }
}

/// An abort gives back nothing, whatever is staged. A commit gives back just what is staged for its
/// transaction, all of it, and finds nothing where nothing is.
pub proof fn law_end_gives_back_what_is_staged<B>(
    staged: Map<TxnKeyView, Seq<PendingWriteView<B>>>,
    key: TxnKeyView,
)
    ensures
        finalized(staged, key, false) == FinalizedView::<B>::Aborted,
        staged.contains_key(key) ==> finalized(staged, key, true) == FinalizedView::Committed(
            staged[key],
        ),
        !staged.contains_key(key) ==> finalized(staged, key, true) == FinalizedView::<B>::Missing,
{
}

/// Whether `step` asks for `topics` to be stored, the first of them next, and is the end, with
/// success, where there is none left.
pub open spec fn stores_next<'a, B, F>(
    step: CommitStep<'a, B, F>,
    topics: Seq<TopicWritesView<B>>,
) -> bool {
    match step {
        CommitStep::Store(store) => {
            &&& topics.len() > 0
            &&& store.topic@ == topics[0]
            &&& topic_views(store.rest@) == topics.skip(1)
        },
        CommitStep::Finished(result) => topics.len() == 0 && result == Ok::<(), F>(()),
    }
}

proof fn lemma_stores_next<'a, B, F>(step: CommitStep<'a, B, F>, topics: Seq<TopicWritesView<B>>)
    requires
        step@ == commit_of::<B, F>(topics),
    ensures
        stores_next(step, topics),
{
    match step {
        CommitStep::Store(store) => {
            assert(store@ == topics);
            assert(store@[0] == store.topic@);
            assert(store@.skip(1) =~= topic_views(store.rest@));
        },
        CommitStep::Finished(_) => {},
    }
}

/// [`commit`] starts to store all of the writes and nothing else, by topic, partition and offset.
pub proof fn law_commit_starts_to_store_all<'a, B, F>(
    writes: &'a Vec<PendingWrite<B>>,
    step: CommitStep<'a, B, F>,
)
    requires
        call_ensures(commit::<B, F>, (writes,), step),
    ensures
        exists|topics: Seq<TopicWritesView<B>>| #[trigger]
            stores_all_in_order(pending_views(writes@), topics) && stores_next(step, topics),
{
    let topics = choose|topics: Seq<TopicWritesView<B>>|
        #[trigger] is_plan(pending_views(writes@), topics) && step@ == commit_of::<B, F>(topics);
    law_plan_stores_all_in_order(pending_views(writes@), topics);
    lemma_stores_next(step, topics);
}

/// [`Finalized::start`] is done at once on an abort, and on a commit that found nothing. Otherwise it
/// starts to store all of the writes and nothing else, by topic, partition and offset.
pub proof fn law_end_starts_to_store_all<'a, B, F>(
    ended: &'a Finalized<B>,
    step: CommitStep<'a, B, F>,
)
    requires
        call_ensures(Finalized::<B>::start::<F>, (ended,), step),
    ensures
        match *ended {
            Finalized::Committed(writes) => exists|topics: Seq<TopicWritesView<B>>| #[trigger]
                stores_all_in_order(pending_views(writes@), topics) && stores_next(step, topics),
            _ => step == CommitStep::<'a, B, F>::Finished(Ok(())),
        },
{
    match *ended {
        Finalized::Committed(writes) => {
            let staged = pending_views(writes@);
            assert(ended@ == FinalizedView::Committed(staged));
            let topics = choose|topics: Seq<TopicWritesView<B>>|
                #[trigger] is_plan(staged, topics) && step@ == commit_of::<B, F>(topics);
            law_plan_stores_all_in_order(staged, topics);
            lemma_stores_next(step, topics);
        },
        _ => {},
    }
}

/// [`StoreTopics::stored`] goes on with the next topic where one was stored, ends with success when
/// all are, and ends with the error where one could not be stored.
pub proof fn law_topics_are_stored_in_turn<'a, B, F>(
    store: StoreTopics<'a, B>,
    reply: Result<(), F>,
    step: CommitStep<'a, B, F>,
)
    requires
        call_ensures(StoreTopics::<'a, B>::stored::<F>, (store, reply), step),
    ensures
        reply is Ok ==> stores_next(step, topic_views(store.rest@)),
        reply is Err ==> step == CommitStep::<'a, B, F>::Finished(reply),
{
    if reply is Ok {
        assert(store@.drop_first() =~= topic_views(store.rest@));
        lemma_stores_next(step, topic_views(store.rest@));
    }
}

/// What is staged is what a commit stores: the writes of a transaction, staged one after the other
/// where none was staged before, stand each in one place of what is stored, and nothing else does.
pub proof fn law_staged_writes_are_stored<B>(
    staged: Map<TxnKeyView, Seq<PendingWriteView<B>>>,
    key: TxnKeyView,
    writes: Seq<PendingWriteView<B>>,
    ended: Seq<PendingWriteView<B>>,
    topics: Seq<TopicWritesView<B>>,
)
    requires
        writes.len() > 0,
        !staged.contains_key(key),
        finalized(staged_with_all(staged, key, writes), key, true) == FinalizedView::Committed(
            ended,
        ),
        is_plan(ended, topics),
    ensures
        stores_all_in_order(writes, topics),
{
    law_commit_returns_what_was_staged(staged, key, writes);
    assert(staged_under(staged, key) + writes =~= writes);
    law_plan_stores_all_in_order(ended, topics);
}

/// [`StagedWrites::stage_transactional`] puts the write of the request, with its own topic, partition
/// and offset and a clone of its batch, behind those of the transaction that the request names, and
/// touches no other.
pub proof fn law_request_is_staged_for_its_transaction<B: Clone, C>(
    staged: &mut StagedWrites<B>,
    request: StageTransactionalRequest<'_, B, C>,
    key: TxnKeyView,
)
    requires
        call_ensures(StagedWrites::<B>::stage_transactional::<C>, (staged, request), ()),
    ensures
        if key.transaction_id == request.transaction.transaction_id@ && key.producer_id
            == request.transaction.producer_id && key.producer_epoch
            == request.transaction.producer_epoch {
            &&& final(staged)@.contains_key(key)
            &&& final(staged)@[key].len() > 0
            &&& final(staged)@[key].last().topic == request.write.topic@
            &&& final(staged)@[key].last().partition == request.write.partition
            &&& final(staged)@[key].last().offset == request.write.offset
            &&& cloned(*request.write.inflated, final(staged)@[key].last().batch)
            &&& old(staged)@.contains_key(key) ==> final(staged)@[key].drop_last() == old(
                staged,
            )@[key]
            &&& !old(staged)@.contains_key(key) ==> final(staged)@[key].len() == 1
        } else {
            &&& final(staged)@.contains_key(key) == old(staged)@.contains_key(key)
            &&& old(staged)@.contains_key(key) ==> final(staged)@[key] == old(staged)@[key]
        },
{
    let own = request.transaction.key();
    let batch = choose|batch: B|
        #[trigger] cloned(*request.write.inflated, batch) && final(staged)@ == staged_with(
            old(staged)@,
            own,
            PendingWriteView {
                topic: request.write.topic@,
                partition: request.write.partition,
                offset: request.write.offset,
                batch,
            },
        );
    law_staging_adds_one_write(
        old(staged)@,
        own,
        PendingWriteView {
            topic: request.write.topic@,
            partition: request.write.partition,
            offset: request.write.offset,
            batch,
        },
        key,
    );
}

/// [`StagedWrites::finalize_transaction`] takes out what is staged for the transaction of the request
/// and nothing else. On a commit it gives all of it back, on an abort nothing.
pub proof fn law_end_takes_its_transaction_out<B>(
    staged: &mut StagedWrites<B>,
    request: FinalizeTransactionRequest<'_>,
    ended: Finalized<B>,
    key: TxnKeyView,
)
    requires
        call_ensures(StagedWrites::<B>::finalize_transaction, (staged, request), ended),
    ensures
        if key.transaction_id == request.transaction.transaction_id@ && key.producer_id
            == request.transaction.producer_id && key.producer_epoch
            == request.transaction.producer_epoch {
            &&& !final(staged)@.contains_key(key)
            &&& ended is Aborted <==> !request.committed
            &&& ended is Committed <==> request.committed && old(staged)@.contains_key(key)
            &&& ended matches Finalized::Committed(writes) ==> pending_views(writes@) == old(
                staged,
            )@[key]
        } else {
            &&& final(staged)@.contains_key(key) == old(staged)@.contains_key(key)
            &&& old(staged)@.contains_key(key) ==> final(staged)@[key] == old(staged)@[key]
        },
{
    law_end_gives_back_what_is_staged(old(staged)@, request.transaction.key());
}

} // verus!
