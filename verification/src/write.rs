//! The writes of a transaction and the requests that carry them.

use crate::keyed::Key;
use crate::text::{
    law_text_order_is_by_bytes, lemma_text_before_asymmetric, lemma_text_before_total,
    lemma_text_before_transitive, precedes, spelled_before, text_before,
};
use std::cmp::Ordering;
use vstd::std_specs::cmp::{PartialEqSpecImpl, PartialOrdSpecImpl};
use vstd::prelude::*;

verus! {

/// The transaction that a request belongs to.
#[derive(Clone, Copy, Debug)]
pub struct TransactionRef<'a> {
    pub transaction_id: &'a str,
    pub producer_id: i64,
    pub producer_epoch: i16,
}

impl<'a> TransactionRef<'a> {
    /// The key of the transaction.
    pub open spec fn key(self) -> TxnKeyView {
        TxnKeyView {
            transaction_id: self.transaction_id@,
            producer_id: self.producer_id,
            producer_epoch: self.producer_epoch,
        }
    }
}

/// A request to write one batch of records of a topic partition into the lake.
#[derive(Debug)]
pub struct LakeWriteRequest<'a, B, C> {
    pub topic: &'a str,
    pub partition: i32,
    pub offset: i64,
    pub inflated: &'a B,
    pub config: C,
}

/// A request to keep a write back until its transaction ends.
#[derive(Debug)]
pub struct StageTransactionalRequest<'a, B, C> {
    pub transaction: TransactionRef<'a>,
    pub write: LakeWriteRequest<'a, B, C>,
}

/// A request to end a transaction, by a commit or by an abort.
#[derive(Clone, Copy, Debug)]
pub struct FinalizeTransactionRequest<'a> {
    pub transaction: TransactionRef<'a>,
    pub committed: bool,
}

/// The kinds of lakes.
#[derive(Clone, Copy, Debug, PartialEq, Eq, Structural)]
pub enum LakeHouseType {
    Iceberg,
}

/// What identifies a transaction: its id, and the producer and the epoch that it runs under.
#[derive(Debug, Eq, Hash, Ord)]
pub struct TxnKey {
    pub transaction_id: String,
    pub producer_id: i64,
    pub producer_epoch: i16,
}

/// The mathematical value of a [`TxnKey`].
pub struct TxnKeyView {
    pub transaction_id: Seq<char>,
    pub producer_id: i64,
    pub producer_epoch: i16,
}

impl View for TxnKey {
    type V = TxnKeyView;

    open spec fn view(&self) -> TxnKeyView {
        TxnKeyView {
            transaction_id: self.transaction_id@,
            producer_id: self.producer_id,
            producer_epoch: self.producer_epoch,
        }
    }
}

impl TxnKey {
    /// The key made of its three parts.
    pub fn new(transaction_id: &str, producer_id: i64, producer_epoch: i16) -> (key: Self)
        ensures
            key@ == (TxnKeyView { transaction_id: transaction_id@, producer_id, producer_epoch }),
    {
        TxnKey { transaction_id: transaction_id.to_owned(), producer_id, producer_epoch }
    }

    /// Whether this key comes before `other` in the order of keys.
    fn is_before(&self, other: &Self) -> (before: bool)
        ensures
            before == key_before(self@, other@),
    {
        if self.transaction_id != other.transaction_id {
            precedes(self.transaction_id.as_str(), other.transaction_id.as_str())
        } else if self.producer_id != other.producer_id {
            self.producer_id < other.producer_id
        } else {
            self.producer_epoch < other.producer_epoch
        }
    }
}

/// The order of keys: by the id of the transaction, then by the producer, then by the epoch.
pub open spec fn key_before(a: TxnKeyView, b: TxnKeyView) -> bool {
    if a.transaction_id != b.transaction_id {
        text_before(a.transaction_id, b.transaction_id)
    } else if a.producer_id != b.producer_id {
        a.producer_id < b.producer_id
    } else {
        a.producer_epoch < b.producer_epoch
    }
}

impl PartialEqSpecImpl for TxnKey {
    open spec fn obeys_eq_spec() -> bool {
        true
    }

    open spec fn eq_spec(&self, other: &Self) -> bool {
        self@ == other@
    }
}

impl PartialEq for TxnKey {
    fn eq(&self, other: &Self) -> (same: bool) {
        self.same(other)
    }
}

impl PartialOrdSpecImpl for TxnKey {
    open spec fn obeys_partial_cmp_spec() -> bool {
        true
    }

    open spec fn partial_cmp_spec(&self, other: &Self) -> Option<Ordering> {
        if self@ == other@ {
            Some(Ordering::Equal)
        } else if key_before(self@, other@) {
            Some(Ordering::Less)
        } else {
            Some(Ordering::Greater)
        }
    }
}

impl PartialOrd for TxnKey {
    fn partial_cmp(&self, other: &Self) -> (order: Option<Ordering>) {
        if self.same(other) {
            Some(Ordering::Equal)
        } else if self.is_before(other) {
            Some(Ordering::Less)
        } else {
            Some(Ordering::Greater)
        }
    }
}

/// Two keys are the same where each of their three parts is, and nowhere else.
pub proof fn law_keys_are_their_parts(a: TxnKeyView, b: TxnKeyView)
    ensures
        a == b <==> a.transaction_id == b.transaction_id && a.producer_id == b.producer_id
            && a.producer_epoch == b.producer_epoch,
{
}

/// Keys are in a total order: no key is before itself, of two keys that differ exactly one is before
/// the other, and what is before a key is before all that the key is before.
pub proof fn law_keys_are_ordered(a: TxnKeyView, b: TxnKeyView, c: TxnKeyView)
    ensures
        !key_before(a, a),
        a != b ==> key_before(a, b) != key_before(b, a),
        key_before(a, b) && key_before(b, c) ==> key_before(a, c),
{
    let (x, y, z) = (a.transaction_id, b.transaction_id, c.transaction_id);
    lemma_text_before_total(x, y);
    if text_before(x, y) {
        lemma_text_before_asymmetric(x, y);
    }
    if text_before(y, x) {
        lemma_text_before_asymmetric(y, x);
    }
    if text_before(x, y) && text_before(y, z) {
        lemma_text_before_transitive(x, y, z);
        lemma_text_before_asymmetric(x, z);
    }
}

impl Clone for TxnKey {
    fn clone(&self) -> (key: Self)
        ensures
            key@ == self@,
    {
        TxnKey::new(self.transaction_id.as_str(), self.producer_id, self.producer_epoch)
    }
}

impl Key for TxnKey {
    fn same(&self, other: &Self) -> (same: bool) {
        self.transaction_id == other.transaction_id && self.producer_id == other.producer_id
            && self.producer_epoch == other.producer_epoch
    }
}

/// A write that waits for its transaction to end.
#[derive(Debug)]
pub struct PendingWrite<B> {
    pub topic: String,
    pub partition: i32,
    pub offset: i64,
    pub batch: B,
}

/// The mathematical value of a [`PendingWrite`].
pub struct PendingWriteView<B> {
    pub topic: Seq<char>,
    pub partition: i32,
    pub offset: i64,
    pub batch: B,
}

impl<B> View for PendingWrite<B> {
    type V = PendingWriteView<B>;

    open spec fn view(&self) -> PendingWriteView<B> {
        PendingWriteView {
            topic: self.topic@,
            partition: self.partition,
            offset: self.offset,
            batch: self.batch,
        }
    }
}

/// The values of a sequence of pending writes.
pub open spec fn pending_views<B>(writes: Seq<PendingWrite<B>>) -> Seq<PendingWriteView<B>> {
    writes.map_values(|w: PendingWrite<B>| w@)
}

/// One batch to store in the table of a topic, with the partition and the offset that it comes from.
#[derive(Debug)]
pub struct TransactionWrite<'a, B> {
    pub partition: i32,
    pub offset: i64,
    pub batch: &'a B,
}

impl<'a, B> Clone for TransactionWrite<'a, B> {
    fn clone(&self) -> (write: Self)
        ensures
            write == *self,
    {
        TransactionWrite { partition: self.partition, offset: self.offset, batch: self.batch }
    }
}

impl<'a, B> Copy for TransactionWrite<'a, B> {

}

/// The mathematical value of a [`TransactionWrite`].
pub struct TransactionWriteView<B> {
    pub partition: i32,
    pub offset: i64,
    pub batch: B,
}

impl<'a, B> View for TransactionWrite<'a, B> {
    type V = TransactionWriteView<B>;

    open spec fn view(&self) -> TransactionWriteView<B> {
        TransactionWriteView { partition: self.partition, offset: self.offset, batch: *self.batch }
    }
}

/// The values of a sequence of writes.
pub open spec fn write_views<'a, B>(writes: Seq<TransactionWrite<'a, B>>) -> Seq<
    TransactionWriteView<B>,
> {
    writes.map_values(|w: TransactionWrite<'a, B>| w@)
}

/// The writes of a transaction that go into the table of one topic.
#[derive(Debug)]
pub struct TopicWrites<'a, B> {
    pub topic: String,
    pub writes: Vec<TransactionWrite<'a, B>>,
}

/// The mathematical value of a [`TopicWrites`].
pub struct TopicWritesView<B> {
    pub topic: Seq<char>,
    pub writes: Seq<TransactionWriteView<B>>,
}

impl<'a, B> View for TopicWrites<'a, B> {
    type V = TopicWritesView<B>;

    open spec fn view(&self) -> TopicWritesView<B> {
        TopicWritesView { topic: self.topic@, writes: write_views(self.writes@) }
    }
}

/// The values of a sequence of topics with their writes.
pub open spec fn topic_views<'a, B>(topics: Seq<TopicWrites<'a, B>>) -> Seq<TopicWritesView<B>> {
    topics.map_values(|t: TopicWrites<'a, B>| t@)
}

/// A key is made of the three parts that it is given, each as it is, and so is the key of a
/// transaction.
pub proof fn law_key_keeps_its_parts(
    transaction: TransactionRef<'_>,
    transaction_id: &str,
    producer_id: i64,
    producer_epoch: i16,
    key: TxnKey,
)
    requires
        call_ensures(TxnKey::new, (transaction_id, producer_id, producer_epoch), key),
    ensures
        key.transaction_id@ == transaction_id@,
        key.producer_id == producer_id,
        key.producer_epoch == producer_epoch,
        key@.transaction_id == transaction_id@,
        key@.producer_id == producer_id,
        key@.producer_epoch == producer_epoch,
        transaction.key().transaction_id == transaction.transaction_id@,
        transaction.key().producer_id == transaction.producer_id,
        transaction.key().producer_epoch == transaction.producer_epoch,
{
}

/// Two keys are equal just where each of their three parts is.
pub proof fn law_equal_keys_have_equal_parts(a: TxnKey, b: TxnKey, equal: bool)
    requires
        call_ensures(TxnKey::eq, (&a, &b), equal),
    ensures
        equal <==> a.transaction_id@ == b.transaction_id@ && a.producer_id == b.producer_id
            && a.producer_epoch == b.producer_epoch,
{
}

/// Keys are compared part by part: the bytes of the ids decide where they differ, then the numbers
/// of the producers, then those of the epochs.
pub proof fn law_keys_compare_part_by_part(a: TxnKey, b: TxnKey, order: Option<Ordering>)
    requires
        call_ensures(TxnKey::partial_cmp, (&a, &b), order),
    ensures
        order is Some,
        order == Some(Ordering::Less) <==> {
            ||| spelled_before(a.transaction_id@, b.transaction_id@)
            ||| a.transaction_id@ == b.transaction_id@ && a.producer_id < b.producer_id
            ||| a.transaction_id@ == b.transaction_id@ && a.producer_id == b.producer_id
                && a.producer_epoch < b.producer_epoch
        },
        order == Some(Ordering::Equal) <==> a.transaction_id@ == b.transaction_id@ && a.producer_id
            == b.producer_id && a.producer_epoch == b.producer_epoch,
{
    let (x, y) = (a.transaction_id@, b.transaction_id@);
    law_text_order_is_by_bytes(x, y);
    if text_before(x, y) {
        lemma_text_before_asymmetric(x, y);
    }
}

/// The writes of a topic carry their parts as they are.
pub proof fn law_writes_are_their_parts<'a, B>(
    pending: PendingWrite<B>,
    write: TransactionWrite<'a, B>,
    topic: TopicWrites<'a, B>,
    i: int,
)
    ensures
        pending@.topic == pending.topic@,
        pending@.partition == pending.partition,
        pending@.offset == pending.offset,
        pending@.batch == pending.batch,
        write@.partition == write.partition,
        write@.offset == write.offset,
        write@.batch == *write.batch,
        topic@.topic == topic.topic@,
        topic@.writes.len() == topic.writes@.len(),
        0 <= i < topic.writes@.len() ==> topic@.writes[i] == topic.writes@[i]@,
{
}

/// The values of a sequence are those of its items, one for one and in their order.
pub proof fn law_sequences_are_their_items<'a, B>(
    pending: Seq<PendingWrite<B>>,
    writes: Seq<TransactionWrite<'a, B>>,
    topics: Seq<TopicWrites<'a, B>>,
    i: int,
)
    ensures
        pending_views(pending).len() == pending.len(),
        0 <= i < pending.len() ==> pending_views(pending)[i] == pending[i]@,
        write_views(writes).len() == writes.len(),
        0 <= i < writes.len() ==> write_views(writes)[i] == writes[i]@,
        topic_views(topics).len() == topics.len(),
        0 <= i < topics.len() ==> topic_views(topics)[i] == topics[i]@,
{
}

} // verus!
