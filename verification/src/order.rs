use vstd::prelude::*;
use vstd::seq_lib::{to_multiset_contains, to_multiset_insert};

use crate::item::{item_views, RssItem, RssItemView};

verus! {

/// No item stands before a newer one.
pub open spec fn is_newest_first(items: Seq<RssItemView>) -> bool {
    forall|i: int, j: int|
        0 <= i < j < items.len() ==> !items[i].pub_date.before(items[j].pub_date)
}

/// Each item is strictly newer than every item behind it.
pub open spec fn is_strictly_newest_first(items: Seq<RssItemView>) -> bool {
    forall|i: int, j: int|
        0 <= i < j < items.len() ==> items[j].pub_date.before(items[i].pub_date)
}

/// No two items have the same instant.
pub open spec fn has_distinct_dates(items: Seq<RssItemView>) -> bool {
    forall|i: int, j: int|
        0 <= i < j < items.len() ==> items[i].pub_date != items[j].pub_date
}

/// Where `entry` goes into `sorted`: behind the last item that is not older
/// than it, so that of two items with one instant the one that came first
/// stays first.
pub open spec fn landing(sorted: Seq<RssItemView>, entry: RssItemView) -> int
    decreases sorted.len(),
{
    if sorted.len() > 0 && sorted.last().pub_date.before(entry.pub_date) {
        landing(sorted.drop_last(), entry)
    } else {
        sorted.len() as int
    }
}

/// The items from the newest to the oldest; items with one instant keep the
/// order in which they came.
pub open spec fn newest_first(items: Seq<RssItemView>) -> Seq<RssItemView>
    decreases items.len(),
{
    if items.len() == 0 {
        items
    } else {
        let sorted = newest_first(items.drop_last());
        sorted.insert(landing(sorted, items.last()), items.last())
    }
}

/// `at` parts `sorted` into the items that are not older than `entry` and,
/// behind them, the items that are.
pub open spec fn parts_at(sorted: Seq<RssItemView>, entry: RssItemView, at: int) -> bool {
    &&& 0 <= at <= sorted.len()
    &&& forall|k: int| at <= k < sorted.len() ==> sorted[k].pub_date.before(entry.pub_date)
    &&& at > 0 ==> !sorted[at - 1].pub_date.before(entry.pub_date)
}

/// `landing` is the one position that parts the sequence.
pub proof fn lemma_landing_parts(sorted: Seq<RssItemView>, entry: RssItemView, at: int)
    ensures
        parts_at(sorted, entry, landing(sorted, entry)),
        parts_at(sorted, entry, at) ==> at == landing(sorted, entry),
    decreases sorted.len(),
{
    if sorted.len() > 0 && sorted.last().pub_date.before(entry.pub_date) {
        let front = sorted.drop_last();
        lemma_landing_parts(front, entry, at);
        let found = landing(front, entry);
        assert forall|k: int| found <= k < sorted.len() implies sorted[k].pub_date.before(
            entry.pub_date,
        ) by {
            if k < front.len() {
                assert(sorted[k] == front[k]);
            }
        }
        if found > 0 {
            assert(sorted[found - 1] == front[found - 1]);
        }
        if parts_at(sorted, entry, at) {
            assert(at < sorted.len());
            assert forall|k: int| at <= k < front.len() implies front[k].pub_date.before(
                entry.pub_date,
            ) by {
                assert(sorted[k] == front[k]);
            }
            if at > 0 {
                assert(sorted[at - 1] == front[at - 1]);
            }
            assert(parts_at(front, entry, at));
        }
    }
}

/// An entry that goes in at its landing keeps the sequence newest first.
proof fn lemma_insert_keeps_order(sorted: Seq<RssItemView>, entry: RssItemView)
    requires
        is_newest_first(sorted),
    ensures
        is_newest_first(sorted.insert(landing(sorted, entry), entry)),
{
    let at = landing(sorted, entry);
    lemma_landing_parts(sorted, entry, at);
    let grown = sorted.insert(at, entry);
    assert forall|i: int, j: int| 0 <= i < j < grown.len() implies !grown[i].pub_date.before(
        grown[j].pub_date,
    ) by {
        if j == at {
            assert(grown[i] == sorted[i]);
            if i < at - 1 {
                assert(!sorted[i].pub_date.before(sorted[at - 1].pub_date));
            }
        } else if i == at {
            assert(grown[j] == sorted[j - 1]);
        } else {
            let before_i = if i < at { i } else { i - 1 };
            let before_j = if j < at { j } else { j - 1 };
            assert(grown[i] == sorted[before_i]);
            assert(grown[j] == sorted[before_j]);
        }
    }
}

/// The result of `newest_first` is newest first.
pub proof fn lemma_newest_first_is_ordered(items: Seq<RssItemView>)
    ensures
        is_newest_first(newest_first(items)),
    decreases items.len(),
{
    if items.len() > 0 {
        lemma_newest_first_is_ordered(items.drop_last());
        lemma_insert_keeps_order(newest_first(items.drop_last()), items.last());
    }
}

/// `newest_first` keeps every item, each as often as it came.
pub proof fn lemma_newest_first_permutes(items: Seq<RssItemView>)
    ensures
        newest_first(items).to_multiset() == items.to_multiset(),
        newest_first(items).len() == items.len(),
    decreases items.len(),
{
    if items.len() > 0 {
        let front = items.drop_last();
        let sorted = newest_first(front);
        lemma_newest_first_permutes(front);
        lemma_landing_parts(sorted, items.last(), 0);
        to_multiset_insert(sorted, landing(sorted, items.last()), items.last());
        assert(front.push(items.last()) == items);
        vstd::seq_lib::to_multiset_build(front, items.last());
    }
}

/// A sequence that is newest first already stays as it is.
pub proof fn lemma_newest_first_keeps_ordered(items: Seq<RssItemView>)
    requires
        is_newest_first(items),
    ensures
        newest_first(items) == items,
    decreases items.len(),
{
    if items.len() > 0 {
        let front = items.drop_last();
        assert(is_newest_first(front));
        lemma_newest_first_keeps_ordered(front);
        assert(parts_at(front, items.last(), front.len() as int));
        lemma_landing_parts(front, items.last(), front.len() as int);
        assert(front.insert(front.len() as int, items.last()) == items);
    }
}

/// Items with distinct instants come out with distinct instants.
proof fn lemma_newest_first_keeps_distinct(items: Seq<RssItemView>)
    requires
        has_distinct_dates(items),
    ensures
        has_distinct_dates(newest_first(items)),
    decreases items.len(),
{
    if items.len() > 0 {
        let front = items.drop_last();
        let last = items.last();
        let sorted = newest_first(front);
        assert(has_distinct_dates(front));
        lemma_newest_first_keeps_distinct(front);
        lemma_newest_first_permutes(front);
        let at = landing(sorted, last);
        lemma_landing_parts(sorted, last, at);
        let grown = sorted.insert(at, last);
        assert forall|k: int| 0 <= k < sorted.len() implies sorted[k].pub_date
            != last.pub_date by {
            assert(sorted.contains(sorted[k]));
            to_multiset_contains(sorted, sorted[k]);
            to_multiset_contains(front, sorted[k]);
            let m = choose|m: int| 0 <= m < front.len() && front[m] == sorted[k];
            assert(items[m] == sorted[k]);
        }
        assert forall|i: int, j: int| 0 <= i < j < grown.len() implies grown[i].pub_date
            != grown[j].pub_date by {
            let before_i = if i < at { i } else { i - 1 };
            let before_j = if j < at { j } else { j - 1 };
            if i != at {
                assert(grown[i] == sorted[before_i]);
            }
            if j != at {
                assert(grown[j] == sorted[before_j]);
            }
        }
    }
}

/// Items with distinct instants come out in strictly decreasing order of
/// their instants.
pub proof fn lemma_distinct_dates_strictly_ordered(items: Seq<RssItemView>)
    requires
        has_distinct_dates(items),
    ensures
        is_strictly_newest_first(newest_first(items)),
{
    lemma_newest_first_is_ordered(items);
    lemma_newest_first_keeps_distinct(items);
    let sorted = newest_first(items);
    assert forall|i: int, j: int| 0 <= i < j < sorted.len() implies sorted[j].pub_date.before(
        sorted[i].pub_date,
    ) by {
        assert(!sorted[i].pub_date.before(sorted[j].pub_date));
        assert(sorted[i].pub_date != sorted[j].pub_date);
    }
}

/// Orders feed items from the newest to the oldest. Items with one instant
/// keep the order in which they came.
pub fn sort_newest_first(items: Vec<RssItem>) -> (sorted: Vec<RssItem>)
    ensures
        is_newest_first(item_views(sorted@)),
        item_views(sorted@).to_multiset() == item_views(items@).to_multiset(),
        sorted@.len() == items@.len(),
        item_views(sorted@) == newest_first(item_views(items@)),
{
    let ghost all = item_views(items@);
    proof {
        lemma_newest_first_is_ordered(all);
        lemma_newest_first_permutes(all);
    }
    let mut sorted: Vec<RssItem> = Vec::new();
    for entry in it: items.into_iter()
        invariant
            item_views(it.seq()) == all,
            item_views(sorted@) == newest_first(all.take(it.index())),
    {
        let ghost views = item_views(sorted@);
        let mut at: usize = sorted.len();
        while at > 0 && sorted[at - 1].pub_date.is_before(&entry.pub_date)
            invariant
                at <= sorted.len(),
                views == item_views(sorted@),
                forall|k: int|
                    at <= k < views.len() ==> views[k].pub_date.before(entry@.pub_date),
            decreases at,
        {
            at -= 1;
        }
        proof {
            assert(parts_at(views, entry@, at as int));
            lemma_landing_parts(views, entry@, at as int);
            assert(all.take(it.index() + 1).drop_last() == all.take(it.index()));
        }
        sorted.insert(at, entry);
        assert(item_views(sorted@) == views.insert(at as int, entry@));
    }
    assert(all.take(all.len() as int) == all);
    sorted
}

} // verus!
