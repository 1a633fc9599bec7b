//! The order in which the writes of a committed transaction reach the lake.

use crate::text::{
    law_text_order_is_by_bytes, lemma_text_before_asymmetric, lemma_text_before_total,
    lemma_text_before_transitive, precedes, spelled_before, text_before,
};
use crate::write::{
    pending_views, topic_views, write_views, PendingWrite, PendingWriteView, TopicWrites,
    TopicWritesView, TransactionWrite, TransactionWriteView,
};
use vstd::prelude::*;

verus! {

/// The order of commit: by topic, within a topic by partition, within a partition by offset.
pub open spec fn write_before<B>(a: PendingWriteView<B>, b: PendingWriteView<B>) -> bool {
    ||| text_before(a.topic, b.topic)
    ||| a.topic == b.topic && a.partition < b.partition
    ||| a.topic == b.topic && a.partition == b.partition && a.offset < b.offset
}

/// Whether the write staged at `i` is stored before the one staged at `j`: by the order of
/// commit, and by the order of staging where that leaves the two level.
pub open spec fn stored_before<B>(writes: Seq<PendingWriteView<B>>, i: int, j: int) -> bool {
    ||| write_before(writes[i], writes[j])
    ||| !write_before(writes[j], writes[i]) && i < j
}

proof fn lemma_write_before_transitive<B>(
    a: PendingWriteView<B>,
    b: PendingWriteView<B>,
    c: PendingWriteView<B>,
)
    requires
        write_before(a, b),
        write_before(b, c),
    ensures
        write_before(a, c),
{
    if text_before(a.topic, b.topic) && text_before(b.topic, c.topic) {
        lemma_text_before_transitive(a.topic, b.topic, c.topic);
    }
}

proof fn lemma_write_before_asymmetric<B>(a: PendingWriteView<B>, b: PendingWriteView<B>)
    requires
        write_before(a, b),
    ensures
        !write_before(b, a),
{
    if text_before(a.topic, b.topic) {
        lemma_text_before_asymmetric(a.topic, b.topic);
    }
    if text_before(b.topic, a.topic) {
        lemma_text_before_asymmetric(b.topic, a.topic);
    }
}

/// Writes that the order of commit leaves level agree in topic, partition and offset.
proof fn lemma_level_writes<B>(a: PendingWriteView<B>, b: PendingWriteView<B>)
    ensures
        write_before(a, b) || write_before(b, a) || (a.topic == b.topic && a.partition
            == b.partition && a.offset == b.offset),
{
    lemma_text_before_total(a.topic, b.topic);
}

proof fn lemma_stored_before_transitive<B>(
    writes: Seq<PendingWriteView<B>>,
    i: int,
    j: int,
    k: int,
)
    requires
        stored_before(writes, i, j),
        stored_before(writes, j, k),
    ensures
        stored_before(writes, i, k),
{
    let (a, b, c) = (writes[i], writes[j], writes[k]);
    lemma_level_writes(a, b);
    lemma_level_writes(b, c);
    if write_before(a, b) && write_before(b, c) {
        lemma_write_before_transitive(a, b, c);
    }
    if write_before(a, b) {
        lemma_write_before_asymmetric(a, b);
    }
    if write_before(b, c) {
        lemma_write_before_asymmetric(b, c);
    }
    if !write_before(a, b) && !write_before(b, c) && write_before(c, a) {
        lemma_write_before_asymmetric(c, a);
    }
}

proof fn lemma_stored_before_total<B>(writes: Seq<PendingWriteView<B>>, i: int, j: int)
    requires
        i != j,
    ensures
        stored_before(writes, i, j) != stored_before(writes, j, i),
{
    let (a, b) = (writes[i], writes[j]);
    if write_before(a, b) {
        lemma_write_before_asymmetric(a, b);
    }
    if write_before(b, a) {
        lemma_write_before_asymmetric(b, a);
    }
}

/// `order` lists the positions `lo..hi` of `writes`, each once, in the order in which the writes
/// there are stored.
pub open spec fn is_order<B>(
    writes: Seq<PendingWriteView<B>>,
    lo: int,
    hi: int,
    order: Seq<int>,
) -> bool {
    &&& forall|i: int| 0 <= i < order.len() ==> lo <= #[trigger] order[i] < hi
    &&& forall|k: int| lo <= k < hi ==> #[trigger] order.contains(k)
    &&& forall|i: int, j: int|
        0 <= i < j < order.len() ==> stored_before(writes, #[trigger] order[i], #[trigger] order[j])
}

/// The positions that a vector of indices lists.
pub open spec fn positions(order: Seq<usize>) -> Seq<int> {
    order.map_values(|i: usize| i as int)
}

/// Whether `a` is stored before `b` by the order of commit.
fn comes_before<B>(a: &PendingWrite<B>, b: &PendingWrite<B>) -> (before: bool)
    ensures
        before == write_before(a@, b@),
{
    if precedes(a.topic.as_str(), b.topic.as_str()) {
        true
    } else if a.topic == b.topic {
        a.partition < b.partition || (a.partition == b.partition && a.offset < b.offset)
    } else {
        false
    }
}

/// Merges two runs of positions that are in order, the left one of the earlier positions.
fn merge<B>(
    writes: &Vec<PendingWrite<B>>,
    left: &Vec<usize>,
    right: &Vec<usize>,
    lo: usize,
    mid: usize,
    hi: usize,
) -> (order: Vec<usize>)
    requires
        lo <= mid <= hi <= writes@.len(),
        is_order(pending_views(writes@), lo as int, mid as int, positions(left@)),
        is_order(pending_views(writes@), mid as int, hi as int, positions(right@)),
    ensures
        is_order(pending_views(writes@), lo as int, hi as int, positions(order@)),
{
    let ghost ws = pending_views(writes@);
    let mut order: Vec<usize> = Vec::new();
    let mut i: usize = 0;
    let mut j: usize = 0;
    proof {
        assert forall|a: int| 0 <= a < left@.len() implies lo <= #[trigger] left@[a] < mid by {
            assert(positions(left@)[a] == left@[a]);
        }
        assert forall|b: int| 0 <= b < right@.len() implies mid <= #[trigger] right@[b] < hi by {
            assert(positions(right@)[b] == right@[b]);
        }
        assert forall|a: int, b: int| 0 <= a < b < left@.len() implies stored_before(
            ws,
            #[trigger] left@[a] as int,
            #[trigger] left@[b] as int,
        ) by {
            assert(stored_before(ws, positions(left@)[a], positions(left@)[b]));
        }
        assert forall|a: int, b: int| 0 <= a < b < right@.len() implies stored_before(
            ws,
            #[trigger] right@[a] as int,
            #[trigger] right@[b] as int,
        ) by {
            assert(stored_before(ws, positions(right@)[a], positions(right@)[b]));
        }
    }
    while i < left.len() || j < right.len()
        invariant
            lo <= mid <= hi <= writes@.len(),
            ws == pending_views(writes@),
            i <= left@.len(),
            j <= right@.len(),
            forall|a: int| 0 <= a < left@.len() ==> lo <= #[trigger] left@[a] < mid,
            forall|b: int| 0 <= b < right@.len() ==> mid <= #[trigger] right@[b] < hi,
            forall|a: int, b: int|
                0 <= a < b < left@.len() ==> stored_before(
                    ws,
                    #[trigger] left@[a] as int,
                    #[trigger] left@[b] as int,
                ),
            forall|a: int, b: int|
                0 <= a < b < right@.len() ==> stored_before(
                    ws,
                    #[trigger] right@[a] as int,
                    #[trigger] right@[b] as int,
                ),
            forall|c: int| 0 <= c < order@.len() ==> lo <= #[trigger] order@[c] < hi,
            forall|c: int, d: int|
                0 <= c < d < order@.len() ==> stored_before(
                    ws,
                    #[trigger] order@[c] as int,
                    #[trigger] order@[d] as int,
                ),
            forall|c: int, a: int|
                0 <= c < order@.len() && i <= a < left@.len() ==> stored_before(
                    ws,
                    #[trigger] order@[c] as int,
                    #[trigger] left@[a] as int,
                ),
            forall|c: int, b: int|
                0 <= c < order@.len() && j <= b < right@.len() ==> stored_before(
                    ws,
                    #[trigger] order@[c] as int,
                    #[trigger] right@[b] as int,
                ),
            forall|a: int| 0 <= a < i ==> order@.contains(#[trigger] left@[a]),
            forall|b: int| 0 <= b < j ==> order@.contains(#[trigger] right@[b]),
        decreases left@.len() - i + right@.len() - j,
    {
        let take_right: bool = if i == left.len() {
            true
        } else if j == right.len() {
            false
        } else {
            comes_before(&writes[right[j]], &writes[left[i]])
        };
        let ghost before = order@;
        if take_right {
            let next: usize = right[j];
            order.push(next);
            proof {
                assert forall|a: int| i <= a < left@.len() implies stored_before(
                    ws,
                    next as int,
                    #[trigger] left@[a] as int,
                ) by {
                    assert(stored_before(ws, next as int, left@[i as int] as int));
                    if a > i {
                        lemma_stored_before_transitive(
                            ws,
                            next as int,
                            left@[i as int] as int,
                            left@[a] as int,
                        );
                    }
                }
            }
            j = j + 1;
        } else {
            let next: usize = left[i];
            order.push(next);
            proof {
                assert forall|b: int| j <= b < right@.len() implies stored_before(
                    ws,
                    next as int,
                    #[trigger] right@[b] as int,
                ) by {
                    assert(stored_before(ws, next as int, right@[j as int] as int));
                    if b > j {
                        lemma_stored_before_transitive(
                            ws,
                            next as int,
                            right@[j as int] as int,
                            right@[b] as int,
                        );
                    }
                }
            }
            i = i + 1;
        }
        proof {
            let last = before.len() as int;
            assert(order@[last] == order@.last());
            assert forall|v: usize| before.contains(v) implies order@.contains(v) by {
                let c = choose|c: int| 0 <= c < before.len() && before[c] == v;
                assert(order@[c] == v);
            }
        }
    }
    proof {
        let all = positions(order@);
        assert forall|k: int| lo <= k < hi implies #[trigger] all.contains(k) by {
            if k < mid {
                assert(positions(left@).contains(k));
                let a = choose|a: int| 0 <= a < positions(left@).len() && positions(left@)[a] == k;
                assert(order@.contains(left@[a]));
                let c = choose|c: int| 0 <= c < order@.len() && order@[c] == left@[a];
                assert(all[c] == k);
            } else {
                assert(positions(right@).contains(k));
                let b = choose|b: int|
                    0 <= b < positions(right@).len() && positions(right@)[b] == k;
                assert(order@.contains(right@[b]));
                let c = choose|c: int| 0 <= c < order@.len() && order@[c] == right@[b];
                assert(all[c] == k);
            }
        }
    }
    order
}

/// The positions `lo..hi` of `writes` in the order in which the writes there are stored.
fn order_of<B>(writes: &Vec<PendingWrite<B>>, lo: usize, hi: usize) -> (order: Vec<usize>)
    requires
        lo <= hi <= writes@.len(),
    ensures
        is_order(pending_views(writes@), lo as int, hi as int, positions(order@)),
    decreases hi - lo,
{
    if lo == hi {
        Vec::new()
    } else if hi - lo == 1 {
        let mut order: Vec<usize> = Vec::new();
        order.push(lo);
        assert(positions(order@)[0] == lo);
        order
    } else {
        let mid: usize = lo + (hi - lo) / 2;
        let left: Vec<usize> = order_of(writes, lo, mid);
        let right: Vec<usize> = order_of(writes, mid, hi);
        merge(writes, &left, &right, lo, mid, hi)
    }
}

/// The pending write that a write of `topic` came from.
pub open spec fn with_topic<B>(topic: Seq<char>, write: TransactionWriteView<B>) -> PendingWriteView<
    B,
> {
    PendingWriteView {
        topic,
        partition: write.partition,
        offset: write.offset,
        batch: write.batch,
    }
}

/// The writes of one topic, each with the topic.
pub open spec fn writes_of<B>(group: TopicWritesView<B>) -> Seq<PendingWriteView<B>> {
    group.writes.map_values(|w: TransactionWriteView<B>| with_topic(group.topic, w))
}

/// The writes of all the groups, one after the other.
pub open spec fn flatten<B>(groups: Seq<TopicWritesView<B>>) -> Seq<PendingWriteView<B>>
    decreases groups.len(),
{
    if groups.len() == 0 {
        Seq::empty()
    } else {
        flatten(groups.drop_last()) + writes_of(groups.last())
    }
}

/// `writes` in the order that `order` gives.
pub open spec fn arranged<B>(writes: Seq<PendingWriteView<B>>, order: Seq<int>) -> Seq<
    PendingWriteView<B>,
> {
    order.map_values(|i: int| writes[i])
}

/// Each group holds a write, and the topics of the groups ascend.
pub open spec fn topics_ascend<B>(groups: Seq<TopicWritesView<B>>) -> bool {
    &&& forall|i: int| 0 <= i < groups.len() ==> (#[trigger] groups[i]).writes.len() > 0
    &&& forall|i: int, j: int|
        0 <= i < j < groups.len() ==> text_before(
            (#[trigger] groups[i]).topic,
            (#[trigger] groups[j]).topic,
        )
}

/// `groups` is how the staged `writes` are stored on commit: one group for each topic, the topics
/// in ascending order, and the writes, read one group after the other, in the order in which they
/// are stored.
pub open spec fn is_plan<B>(
    writes: Seq<PendingWriteView<B>>,
    groups: Seq<TopicWritesView<B>>,
) -> bool {
    &&& topics_ascend(groups)
    &&& exists|order: Seq<int>|
        #[trigger] is_order(writes, 0, writes.len() as int, order) && flatten(groups) == arranged(
            writes,
            order,
        )
}

/// A staged write as one of its topic.
fn entry_of<'a, B>(write: &'a PendingWrite<B>) -> (entry: TransactionWrite<'a, B>)
    ensures
        with_topic(write.topic@, entry@) == write@,
{
    TransactionWrite { partition: write.partition, offset: write.offset, batch: &write.batch }
}

/// The topic of a staged write, with this write alone.
fn group_of<'a, B>(write: &'a PendingWrite<B>) -> (group: TopicWrites<'a, B>)
    ensures
        group@.topic == write.topic@,
        group@.writes.len() == 1,
        writes_of(group@) == seq![write@],
{
    let entry: TransactionWrite<'a, B> = entry_of(write);
    let group: TopicWrites<'a, B> = TopicWrites { topic: write.topic.clone(), writes: vec![entry] };
    assert(write_views(group.writes@) =~= seq![entry@]);
    assert(writes_of(group@) =~= seq![write@]);
    group
}

/// Groups the writes of a committed transaction by topic.
pub fn by_topic<'a, B>(writes: &'a Vec<PendingWrite<B>>) -> (groups: Vec<TopicWrites<'a, B>>)
    ensures
        is_plan(pending_views(writes@), topic_views(groups@)),
{
    let ghost ws = pending_views(writes@);
    let order: Vec<usize> = order_of(writes, 0, writes.len());
    let ghost all = positions(order@);
    let mut groups: Vec<TopicWrites<'a, B>> = Vec::new();
    let mut k: usize = 0;
    proof {
        assert(topic_views(groups@) =~= Seq::empty());
        assert(arranged(ws, all.take(0)) =~= Seq::empty());
    }
    while k < order.len()
        invariant
            ws == pending_views(writes@),
            all == positions(order@),
            is_order(ws, 0, ws.len() as int, all),
            k <= order@.len(),
            topics_ascend(topic_views(groups@)),
            flatten(topic_views(groups@)) == arranged(ws, all.take(k as int)),
            k == 0 <==> groups@.len() == 0,
            k > 0 ==> groups@.last().topic@ == ws[all[k - 1]].topic,
        decreases order@.len() - k,
    {
        assert(all[k as int] == order@[k as int]);
        let write: &'a PendingWrite<B> = &writes[order[k]];
        let ghost before = topic_views(groups@);
        let ghost w = ws[all[k as int]];
        assert(w == write@);
        match groups.pop() {
            Some(mut group) => {
                let ghost last = group@;
                proof {
                    assert(topic_views(groups@) =~= before.drop_last());
                    assert(before.last() == last);
                }
                if group.topic == write.topic {
                    let entry: TransactionWrite<'a, B> = entry_of(write);
                    group.writes.push(entry);
                    groups.push(group);
                    proof {
                        let now = topic_views(groups@);
                        assert(now.drop_last() =~= before.drop_last());
                        assert(now.last() == group@);
                        assert(write_views(group.writes@) =~= last.writes.push(entry@));
                        assert(writes_of(now.last()) =~= writes_of(last).push(w));
                        assert(flatten(now) =~= flatten(before).push(w));
                        assert forall|i: int, j: int| 0 <= i < j < now.len() implies text_before(
                            (#[trigger] now[i]).topic,
                            (#[trigger] now[j]).topic,
                        ) by {
                            assert(text_before(before[i].topic, before[j].topic));
                        }
                        assert forall|i: int| 0 <= i < now.len() implies (
                        #[trigger] now[i]).writes.len() > 0 by {
                            assert(before[i].writes.len() > 0);
                        }
                    }
                } else {
                    let fresh: TopicWrites<'a, B> = group_of(write);
                    groups.push(group);
                    groups.push(fresh);
                    proof {
                        let now = topic_views(groups@);
                        assert(now.drop_last() =~= before);
                        assert(now.last() == fresh@);
                        assert(flatten(now) =~= flatten(before).push(w));
                        assert(stored_before(ws, all[k - 1], all[k as int]));
                        lemma_level_writes(ws[all[k - 1]], w);
                        assert(text_before(last.topic, w.topic));
                        assert forall|i: int, j: int| 0 <= i < j < now.len() implies text_before(
                            (#[trigger] now[i]).topic,
                            (#[trigger] now[j]).topic,
                        ) by {
                            if j < before.len() {
                                assert(text_before(before[i].topic, before[j].topic));
                            } else if i < before.len() - 1 {
                                assert(text_before(before[i].topic, before[before.len() - 1].topic));
                                lemma_text_before_transitive(before[i].topic, last.topic, w.topic);
                            }
                        }
                        assert forall|i: int| 0 <= i < now.len() implies (
                        #[trigger] now[i]).writes.len() > 0 by {
                            if i < before.len() {
                                assert(before[i].writes.len() > 0);
                            }
                        }
                    }
                }
            },
            None => {
                let fresh: TopicWrites<'a, B> = group_of(write);
                groups.push(fresh);
                proof {
                    let now = topic_views(groups@);
                    assert(now.drop_last() =~= before);
                    assert(now.last() == fresh@);
                    assert(flatten(now) =~= flatten(before).push(w));
                }
            },
        }
        proof {
            assert(arranged(ws, all.take(k + 1)) =~= arranged(ws, all.take(k as int)).push(w));
        }
        k = k + 1;
    }
    proof {
        assert(all.take(k as int) =~= all);
    }
    groups
}

proof fn lemma_orders_agree<B>(
    writes: Seq<PendingWriteView<B>>,
    lo: int,
    hi: int,
    one: Seq<int>,
    two: Seq<int>,
    n: int,
)
    requires
        is_order(writes, lo, hi, one),
        is_order(writes, lo, hi, two),
        0 <= n <= one.len(),
    ensures
        n <= two.len(),
        one.take(n) == two.take(n),
    decreases n,
{
    if n > 0 {
        let i = n - 1;
        lemma_orders_agree(writes, lo, hi, one, two, i);
        assert forall|p: int| 0 <= p < i implies one[p] == two[p] by {
            assert(one.take(i)[p] == two.take(i)[p]);
        }
        assert(two.contains(one[i]));
        let p = choose|p: int| 0 <= p < two.len() && two[p] == one[i];
        if p < i {
            assert(stored_before(writes, one[p], one[i]));
            lemma_not_before_itself(writes, one[i]);
        }
        if p > i {
            assert(stored_before(writes, two[i], two[p]));
            assert(one.contains(two[i]));
            let q = choose|q: int| 0 <= q < one.len() && one[q] == two[i];
            if q < i {
                assert(stored_before(writes, two[q], two[i]));
                lemma_not_before_itself(writes, two[i]);
            } else if q == i {
                lemma_not_before_itself(writes, two[i]);
            } else {
                assert(stored_before(writes, one[i], one[q]));
                if one[i] != two[i] {
                    lemma_stored_before_total(writes, one[i], two[i]);
                }
            }
        }
        assert(one[i] == two[i]);
        assert(one.take(n) =~= two.take(n));
    }
}

proof fn lemma_not_before_itself<B>(writes: Seq<PendingWriteView<B>>, i: int)
    ensures
        !stored_before(writes, i, i),
{
    if write_before(writes[i], writes[i]) {
        lemma_write_before_asymmetric(writes[i], writes[i]);
    }
}

/// The order of a transaction's writes is the only one that there is.
pub proof fn lemma_order_is_unique<B>(
    writes: Seq<PendingWriteView<B>>,
    lo: int,
    hi: int,
    one: Seq<int>,
    two: Seq<int>,
)
    requires
        is_order(writes, lo, hi, one),
        is_order(writes, lo, hi, two),
    ensures
        one == two,
{
    lemma_orders_agree(writes, lo, hi, one, two, one.len() as int);
    lemma_orders_agree(writes, lo, hi, two, one, two.len() as int);
    assert(one.take(one.len() as int) =~= one);
    assert(two.take(two.len() as int) =~= two);
}

proof fn lemma_last_topic<B>(groups: Seq<TopicWritesView<B>>)
    requires
        topics_ascend(groups),
        groups.len() > 0,
    ensures
        flatten(groups).len() >= groups.last().writes.len() > 0,
        flatten(groups).last().topic == groups.last().topic,
{
    assert(groups[groups.len() - 1].writes.len() > 0);
    let tail = writes_of(groups.last());
    assert(flatten(groups).last() == tail.last());
}

proof fn lemma_ascending_prefix<B>(groups: Seq<TopicWritesView<B>>)
    requires
        topics_ascend(groups),
        groups.len() > 0,
    ensures
        topics_ascend(groups.drop_last()),
        groups.len() > 1 ==> groups.drop_last().last().topic != groups.last().topic,
{
    let rest = groups.drop_last();
    assert forall|i: int| 0 <= i < rest.len() implies (#[trigger] rest[i]).writes.len() > 0 by {
        assert(groups[i].writes.len() > 0);
    }
    assert forall|i: int, j: int| 0 <= i < j < rest.len() implies text_before(
        (#[trigger] rest[i]).topic,
        (#[trigger] rest[j]).topic,
    ) by {
        assert(text_before(groups[i].topic, groups[j].topic));
    }
    if groups.len() > 1 {
        assert(text_before(groups[groups.len() - 2].topic, groups[groups.len() - 1].topic));
        lemma_text_before_asymmetric(rest.last().topic, groups.last().topic);
    }
}

/// The last group of `one` is no shorter than that of `two`.
proof fn lemma_last_group_reaches<B>(
    one: Seq<TopicWritesView<B>>,
    two: Seq<TopicWritesView<B>>,
)
    requires
        topics_ascend(one),
        topics_ascend(two),
        one.len() > 0,
        two.len() > 0,
        flatten(one) == flatten(two),
    ensures
        one.last().writes.len() >= two.last().writes.len(),
{
    let all = flatten(one);
    lemma_last_topic(one);
    lemma_last_topic(two);
    let n = one.last().writes.len();
    if n < two.last().writes.len() {
        let rest = one.drop_last();
        lemma_ascending_prefix(one);
        assert(all =~= flatten(rest) + writes_of(one.last()));
        assert(all =~= flatten(two.drop_last()) + writes_of(two.last()));
        let at = all.len() - n - 1;
        if rest.len() == 0 {
            assert(all.len() == n);
        } else {
            lemma_last_topic(rest);
            assert(all[at] == flatten(rest).last());
            let from = flatten(two.drop_last()).len();
            assert(all[at] == writes_of(two.last())[at - from]);
        }
    }
}

proof fn lemma_groups_agree<B>(one: Seq<TopicWritesView<B>>, two: Seq<TopicWritesView<B>>)
    requires
        topics_ascend(one),
        topics_ascend(two),
        flatten(one) == flatten(two),
    ensures
        one == two,
    decreases one.len(),
{
    if one.len() > 0 {
        lemma_last_topic(one);
    }
    if two.len() > 0 {
        lemma_last_topic(two);
    }
    if one.len() > 0 {
        lemma_last_group_reaches(one, two);
        lemma_last_group_reaches(two, one);
        lemma_ascending_prefix(one);
        lemma_ascending_prefix(two);
        let all = flatten(one);
        let (a, b) = (one.last(), two.last());
        let from = flatten(one.drop_last()).len() as int;
        assert(all =~= flatten(one.drop_last()) + writes_of(a));
        assert(all =~= flatten(two.drop_last()) + writes_of(b));
        assert(flatten(two.drop_last()).len() == from);
        assert(flatten(one.drop_last()) =~= all.take(from));
        assert(flatten(two.drop_last()) =~= all.take(from));
        lemma_groups_agree(one.drop_last(), two.drop_last());
        assert forall|i: int| 0 <= i < a.writes.len() implies a.writes[i] == b.writes[i] by {
            assert(all[from + i] == writes_of(a)[i]);
            assert(all[from + i] == writes_of(b)[i]);
        }
        assert(a.writes =~= b.writes);
        assert(one =~= one.drop_last().push(a));
        assert(two =~= two.drop_last().push(b));
    } else {
        assert(one =~= two);
    }
}

/// Staged writes have one plan: what is stored on commit, and in which order, depends on nothing
/// but the staged writes.
pub proof fn law_plan_is_unique<B>(
    writes: Seq<PendingWriteView<B>>,
    one: Seq<TopicWritesView<B>>,
    two: Seq<TopicWritesView<B>>,
)
    requires
        is_plan(writes, one),
        is_plan(writes, two),
    ensures
        one == two,
{
    let n = writes.len() as int;
    let a = choose|order: Seq<int>|
        #[trigger] is_order(writes, 0, n, order) && flatten(one) == arranged(writes, order);
    let b = choose|order: Seq<int>|
        #[trigger] is_order(writes, 0, n, order) && flatten(two) == arranged(writes, order);
    lemma_order_is_unique(writes, 0, n, a, b);
    lemma_groups_agree(one, two);
}

proof fn lemma_arranged_multiset<B>(writes: Seq<PendingWriteView<B>>, order: Seq<int>)
    requires
        order.no_duplicates(),
        forall|i: int| 0 <= i < order.len() ==> 0 <= #[trigger] order[i] < writes.len(),
        forall|k: int| 0 <= k < writes.len() ==> #[trigger] order.contains(k),
    ensures
        arranged(writes, order).to_multiset() == writes.to_multiset(),
    decreases writes.len(),
{
    if writes.len() == 0 {
        assert(order.len() == 0) by {
            if order.len() > 0 {
                assert(0 <= order[0] < writes.len());
            }
        }
        assert(arranged(writes, order) =~= writes);
    } else {
        let last = writes.len() - 1;
        assert(order.contains(last));
        let p = choose|p: int| 0 <= p < order.len() && order[p] == last;
        let fewer = order.remove(p);
        let rest = writes.drop_last();
        assert forall|i: int| 0 <= i < fewer.len() implies 0 <= #[trigger] fewer[i] < rest.len() by {
            let c = if i < p { i } else { i + 1 };
            assert(fewer[i] == order[c] && order[c] != order[p]);
        }
        assert forall|k: int| 0 <= k < rest.len() implies #[trigger] fewer.contains(k) by {
            assert(order.contains(k));
            let c = choose|c: int| 0 <= c < order.len() && order[c] == k;
            let i = if c < p { c } else { c - 1 };
            assert(fewer[i] == k);
        }
        assert(fewer.no_duplicates()) by {
            assert forall|i: int, j: int|
                0 <= i < fewer.len() && 0 <= j < fewer.len() && i != j implies fewer[i]
                != fewer[j] by {
                let c = if i < p { i } else { i + 1 };
                let d = if j < p { j } else { j + 1 };
                assert(fewer[i] == order[c] && fewer[j] == order[d]);
            }
        }
        lemma_arranged_multiset(rest, fewer);
        let full = arranged(writes, order);
        assert(full.remove(p) =~= arranged(rest, fewer));
        full.to_multiset_ensures();
        rest.to_multiset_ensures();
        assert(writes =~= rest.push(writes.last()));
        assert(full[p] == writes.last());
        assert(full.remove(p).to_multiset() =~= full.to_multiset().remove(full[p]));
        assert(full.to_multiset().count(full[p]) > 0) by {
            assert(full.contains(full[p]));
        }
        assert(full.to_multiset() =~= full.remove(p).to_multiset().insert(full[p]));
    }
}

/// A commit stores every staged write exactly once, and nothing else.
pub proof fn law_plan_stores_each_write_once<B>(
    writes: Seq<PendingWriteView<B>>,
    groups: Seq<TopicWritesView<B>>,
)
    requires
        is_plan(writes, groups),
    ensures
        flatten(groups).to_multiset() == writes.to_multiset(),
        flatten(groups).len() == writes.len(),
{
    let n = writes.len() as int;
    let order = choose|order: Seq<int>|
        #[trigger] is_order(writes, 0, n, order) && flatten(groups) == arranged(writes, order);
    assert(order.no_duplicates()) by {
        assert forall|i: int, j: int|
            0 <= i < order.len() && 0 <= j < order.len() && i != j implies order[i] != order[j] by {
            lemma_not_before_itself(writes, order[i]);
            if i < j {
                assert(stored_before(writes, order[i], order[j]));
            } else {
                assert(stored_before(writes, order[j], order[i]));
            }
        }
    }
    lemma_arranged_multiset(writes, order);
    flatten(groups).to_multiset_ensures();
    writes.to_multiset_ensures();
}

/// A commit stores the writes by topic, partition and offset: none is stored after one that the
/// order of commit puts behind it.
pub proof fn law_plan_keeps_commit_order<B>(
    writes: Seq<PendingWriteView<B>>,
    groups: Seq<TopicWritesView<B>>,
    i: int,
    j: int,
)
    requires
        is_plan(writes, groups),
        0 <= i < j < flatten(groups).len(),
    ensures
        !write_before(flatten(groups)[j], flatten(groups)[i]),
{
    let n = writes.len() as int;
    let order = choose|order: Seq<int>|
        #[trigger] is_order(writes, 0, n, order) && flatten(groups) == arranged(writes, order);
    assert(stored_before(writes, order[i], order[j]));
    if write_before(writes[order[i]], writes[order[j]]) {
        lemma_write_before_asymmetric(writes[order[i]], writes[order[j]]);
    }
}

/// Whether no two of the writes agree in topic, partition and offset.
pub open spec fn writes_differ<B>(writes: Seq<PendingWriteView<B>>) -> bool {
    forall|i: int, j: int|
        0 <= i < j < writes.len() ==> {
            ||| (#[trigger] writes[i]).topic != (#[trigger] writes[j]).topic
            ||| writes[i].partition != writes[j].partition
            ||| writes[i].offset != writes[j].offset
        }
}

/// Whether each of the writes comes before all those behind it in the order of commit.
spec fn strictly_ordered<B>(writes: Seq<PendingWriteView<B>>) -> bool {
    forall|i: int, j: int|
        0 <= i < j < writes.len() ==> write_before(#[trigger] writes[i], #[trigger] writes[j])
}

proof fn lemma_plan_of_different_writes<B>(
    writes: Seq<PendingWriteView<B>>,
    groups: Seq<TopicWritesView<B>>,
)
    requires
        writes_differ(writes),
        is_plan(writes, groups),
    ensures
        strictly_ordered(flatten(groups)),
{
    let n = writes.len() as int;
    let order = choose|order: Seq<int>|
        #[trigger] is_order(writes, 0, n, order) && flatten(groups) == arranged(writes, order);
    let all = flatten(groups);
    assert forall|i: int, j: int| 0 <= i < j < all.len() implies write_before(
        #[trigger] all[i],
        #[trigger] all[j],
    ) by {
        assert(stored_before(writes, order[i], order[j]));
        lemma_not_before_itself(writes, order[i]);
        lemma_level_writes(all[i], all[j]);
        if order[i] < order[j] {
            assert(all[i] == writes[order[i]] && all[j] == writes[order[j]]);
        } else {
            assert(all[j] == writes[order[j]] && all[i] == writes[order[i]]);
        }
    }
}

/// There is one strict order of a multiset of writes.
proof fn lemma_strict_order_is_unique<B>(
    one: Seq<PendingWriteView<B>>,
    two: Seq<PendingWriteView<B>>,
)
    requires
        strictly_ordered(one),
        strictly_ordered(two),
        one.to_multiset() == two.to_multiset(),
    ensures
        one == two,
    decreases one.len(),
{
    one.to_multiset_ensures();
    two.to_multiset_ensures();
    if one.len() > 0 {
        let n = one.len() - 1;
        assert(two.contains(one[n])) by {
            assert(one.contains(one[n]));
            assert(two.to_multiset().count(one[n]) > 0);
        }
        assert(one.contains(two[n])) by {
            assert(two.contains(two[n]));
            assert(one.to_multiset().count(two[n]) > 0);
        }
        let q = choose|q: int| 0 <= q < two.len() && two[q] == one[n];
        let p = choose|p: int| 0 <= p < one.len() && one[p] == two[n];
        if q < n && p < n {
            assert(write_before(two[q], two[n]));
            assert(write_before(one[p], one[n]));
            lemma_write_before_asymmetric(one[p], one[n]);
        }
        assert(one[n] == two[n]);
        assert(one =~= one.drop_last().push(one[n]));
        assert(two =~= two.drop_last().push(two[n]));
        one.drop_last().to_multiset_ensures();
        two.drop_last().to_multiset_ensures();
        assert(one.drop_last().to_multiset() =~= one.to_multiset().remove(one[n]));
        assert(two.drop_last().to_multiset() =~= two.to_multiset().remove(two[n]));
        lemma_strict_order_is_unique(one.drop_last(), two.drop_last());
    } else {
        assert(one =~= two);
    }
}

/// Writes that differ in topic, partition or offset are stored alike in whatever order they were
/// staged.
pub proof fn law_plan_ignores_order_of_staging<B>(
    one: Seq<PendingWriteView<B>>,
    two: Seq<PendingWriteView<B>>,
    first: Seq<TopicWritesView<B>>,
    second: Seq<TopicWritesView<B>>,
)
    requires
        one.to_multiset() == two.to_multiset(),
        writes_differ(one),
        writes_differ(two),
        is_plan(one, first),
        is_plan(two, second),
    ensures
        first == second,
{
    lemma_plan_of_different_writes(one, first);
    lemma_plan_of_different_writes(two, second);
    law_plan_stores_each_write_once(one, first);
    law_plan_stores_each_write_once(two, second);
    lemma_strict_order_is_unique(flatten(first), flatten(second));
    lemma_groups_agree(first, second);
}

/// Of two writes of a topic, the one that is stored first has no larger partition, and, in the same
/// partition, no larger offset, as numbers. No topic is stored behind one that is spelled after it.
pub proof fn law_stored_writes_ascend<B>(
    writes: Seq<PendingWriteView<B>>,
    groups: Seq<TopicWritesView<B>>,
    i: int,
    j: int,
)
    requires
        is_plan(writes, groups),
        0 <= i < j < flatten(groups).len(),
    ensures
        ({
            let (a, b) = (flatten(groups)[i], flatten(groups)[j]);
            &&& !spelled_before(b.topic, a.topic)
            &&& a.topic == b.topic ==> a.partition <= b.partition
            &&& a.topic == b.topic && a.partition == b.partition ==> a.offset <= b.offset
        }),
{
    law_plan_keeps_commit_order(writes, groups, i, j);
    law_text_order_is_by_bytes(flatten(groups)[j].topic, flatten(groups)[i].topic);
}

/// Whether `places` says where in `groups` each of the writes stands: the write at `k` is the one at
/// `places[k].1` of the group at `places[k].0`. No two writes stand in one place, there is no place
/// without a write, and writes that agree in topic, partition and offset stand in their order.
pub open spec fn is_placing<B>(
    writes: Seq<PendingWriteView<B>>,
    groups: Seq<TopicWritesView<B>>,
    places: Seq<(int, int)>,
) -> bool {
    &&& places.len() == writes.len()
    &&& places.no_duplicates()
    &&& forall|k: int|
        0 <= k < writes.len() ==> {
            let (g, i) = #[trigger] places[k];
            &&& 0 <= g < groups.len()
            &&& 0 <= i < groups[g].writes.len()
            &&& groups[g].topic == writes[k].topic
            &&& groups[g].writes[i].partition == writes[k].partition
            &&& groups[g].writes[i].offset == writes[k].offset
            &&& groups[g].writes[i].batch == writes[k].batch
        }
    &&& forall|g: int, i: int|
        0 <= g < groups.len() && 0 <= i < groups[g].writes.len() ==> #[trigger] places.contains(
            (g, i),
        )
    &&& forall|k: int, l: int|
        0 <= k < l < writes.len() && writes[k].topic == writes[l].topic && writes[k].partition
            == writes[l].partition && writes[k].offset == writes[l].offset ==> (
        #[trigger] places[k]).1 < (#[trigger] places[l]).1
}

/// Whether `groups` stores all of the writes and nothing else, as a commit has to: by topic, the
/// topics as they are spelled, and within a topic by the numbers of partition and offset.
pub open spec fn stores_all_in_order<B>(
    writes: Seq<PendingWriteView<B>>,
    groups: Seq<TopicWritesView<B>>,
) -> bool {
    &&& exists|places: Seq<(int, int)>| is_placing(writes, groups, places)
    &&& forall|g: int| 0 <= g < groups.len() ==> (#[trigger] groups[g]).writes.len() > 0
    &&& forall|g: int, h: int|
        0 <= g < h < groups.len() ==> spelled_before(
            (#[trigger] groups[g]).topic,
            (#[trigger] groups[h]).topic,
        )
    &&& forall|g: int, i: int, j: int|
        0 <= g < groups.len() && 0 <= i < j < groups[g].writes.len() ==> {
            let a = #[trigger] groups[g].writes[i];
            let b = #[trigger] groups[g].writes[j];
            &&& a.partition <= b.partition
            &&& a.partition == b.partition ==> a.offset <= b.offset
        }
}

/// The place in `groups` of the write at `f` of the flattened groups.
spec fn place_at<B>(groups: Seq<TopicWritesView<B>>, f: int) -> (int, int)
    decreases groups.len(),
{
    let before = flatten(groups.drop_last()).len();
    if groups.len() == 0 {
        (0, 0)
    } else if f >= before {
        (groups.len() - 1, f - before)
    } else {
        place_at(groups.drop_last(), f)
    }
}

/// Where the group at `g` starts in the flattened groups.
spec fn start_of<B>(groups: Seq<TopicWritesView<B>>, g: int) -> int
    decreases groups.len(),
{
    if groups.len() == 0 {
        0
    } else if g >= groups.len() - 1 {
        flatten(groups.drop_last()).len() as int
    } else {
        start_of(groups.drop_last(), g)
    }
}

proof fn lemma_place_at<B>(groups: Seq<TopicWritesView<B>>, f: int)
    requires
        0 <= f < flatten(groups).len(),
    ensures
        ({
            let (g, i) = place_at(groups, f);
            &&& 0 <= g < groups.len()
            &&& 0 <= i < groups[g].writes.len()
            &&& flatten(groups)[f] == with_topic(groups[g].topic, groups[g].writes[i])
            &&& f == start_of(groups, g) + i
        }),
    decreases groups.len(),
{
    if groups.len() > 0 {
        let rest = groups.drop_last();
        if f < flatten(rest).len() {
            lemma_place_at(rest, f);
            let (g, i) = place_at(rest, f);
            assert(groups[g] == rest[g]);
        }
    }
}

proof fn lemma_start_of<B>(groups: Seq<TopicWritesView<B>>, g: int, i: int)
    requires
        0 <= g < groups.len(),
        0 <= i < groups[g].writes.len(),
    ensures
        0 <= start_of(groups, g) + i < flatten(groups).len(),
        place_at(groups, start_of(groups, g) + i) == (g, i),
    decreases groups.len(),
{
    if g < groups.len() - 1 {
        assert(groups[g] == groups.drop_last()[g]);
        lemma_start_of(groups.drop_last(), g, i);
    }
}

/// What a commit stores is all that was staged and nothing else: every write in one place, under its
/// own topic, with its own partition, offset and batch. The topics are in the order of their
/// spelling, the writes of a topic in that of their partitions and offsets, as numbers, and writes
/// alike in these in the order of staging.
pub proof fn law_plan_stores_all_in_order<B>(
    writes: Seq<PendingWriteView<B>>,
    groups: Seq<TopicWritesView<B>>,
)
    requires
        is_plan(writes, groups),
    ensures
        stores_all_in_order(writes, groups),
{
    let n = writes.len() as int;
    let all = flatten(groups);
    let order = choose|order: Seq<int>|
        #[trigger] is_order(writes, 0, n, order) && all == arranged(writes, order);
    assert forall|p: int, q: int| 0 <= p < q < order.len() implies order[p] != order[q] by {
        assert(stored_before(writes, order[p], order[q]));
        lemma_not_before_itself(writes, order[p]);
    }
    let at = |k: int| choose|p: int| 0 <= p < order.len() && order[p] == k;
    assert forall|k: int| 0 <= k < n implies 0 <= #[trigger] at(k) < order.len() && order[at(k)]
        == k by {
        assert(order.contains(k));
    }
    let places = Seq::new(writes.len(), |k: int| place_at(groups, at(k)));
    assert forall|k: int| 0 <= k < n implies {
        let (g, i) = #[trigger] places[k];
        &&& 0 <= g < groups.len()
        &&& 0 <= i < groups[g].writes.len()
        &&& groups[g].topic == writes[k].topic
        &&& groups[g].writes[i].partition == writes[k].partition
        &&& groups[g].writes[i].offset == writes[k].offset
        &&& groups[g].writes[i].batch == writes[k].batch
        &&& at(k) == start_of(groups, g) + i
    } by {
        lemma_place_at(groups, at(k));
        assert(all[at(k)] == writes[order[at(k)]]);
    }
    assert forall|k: int, l: int| 0 <= k < n && 0 <= l < n && k != l implies places[k]
        != places[l] by {
        if places[k] == places[l] {
            assert(at(k) == at(l));
        }
    }
    assert forall|g: int, i: int|
        0 <= g < groups.len() && 0 <= i < groups[g].writes.len() implies #[trigger] places.contains(
        (g, i),
    ) by {
        lemma_start_of(groups, g, i);
        let f = start_of(groups, g) + i;
        let k = order[f];
        assert(0 <= k < n);
        assert(at(k) == f) by {
            if at(k) < f {
                assert(order[at(k)] != order[f]);
            } else if at(k) > f {
                assert(order[f] != order[at(k)]);
            }
        }
        assert(places[k] == (g, i));
    }
    assert forall|g: int, h: int| 0 <= g < h < groups.len() implies spelled_before(
        (#[trigger] groups[g]).topic,
        (#[trigger] groups[h]).topic,
    ) by {
        assert(text_before(groups[g].topic, groups[h].topic));
        law_text_order_is_by_bytes(groups[g].topic, groups[h].topic);
    }
    assert forall|k: int, l: int|
        0 <= k < l < n && writes[k].topic == writes[l].topic && writes[k].partition
            == writes[l].partition && writes[k].offset == writes[l].offset implies (
    #[trigger] places[k]).1 < (#[trigger] places[l]).1 by {
        let (g, h) = (places[k].0, places[l].0);
        if g != h {
            let (low, high) = if g < h { (g, h) } else { (h, g) };
            assert(text_before(groups[low].topic, groups[high].topic));
            lemma_text_before_asymmetric(groups[low].topic, groups[high].topic);
        }
        if at(l) < at(k) {
            assert(stored_before(writes, order[at(l)], order[at(k)]));
            lemma_not_before_itself(writes, k);
            lemma_not_before_itself(writes, l);
        }
        assert(at(k) != at(l));
    }
    assert(is_placing(writes, groups, places));
    assert forall|g: int, i: int, j: int|
        0 <= g < groups.len() && 0 <= i < j < groups[g].writes.len() implies {
        let a = #[trigger] groups[g].writes[i];
        let b = #[trigger] groups[g].writes[j];
        &&& a.partition <= b.partition
        &&& a.partition == b.partition ==> a.offset <= b.offset
    } by {
        lemma_start_of(groups, g, i);
        lemma_start_of(groups, g, j);
        let f = start_of(groups, g);
        lemma_place_at(groups, f + i);
        lemma_place_at(groups, f + j);
        law_stored_writes_ascend(writes, groups, f + i, f + j);
    }
}

/// [`by_topic`] stores all of the writes and nothing else, by topic, partition and offset.
pub proof fn law_by_topic_stores_all_in_order<'a, B>(
    writes: &'a Vec<PendingWrite<B>>,
    groups: Vec<TopicWrites<'a, B>>,
)
    requires
        call_ensures(by_topic::<B>, (writes,), groups),
    ensures
        stores_all_in_order(pending_views(writes@), topic_views(groups@)),
{
    law_plan_stores_all_in_order(pending_views(writes@), topic_views(groups@));
}

} // verus!
