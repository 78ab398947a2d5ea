//! Ranked search results.
//!
//! A [`SearchResult`] carries the materialized items of a search together
//! with the true match count, which may exceed the number of items kept for
//! display. Unless a constructor is explicitly told that its input is already
//! ordered, items are kept sorted by rank, descending.
//!
//! Merging unions a second ranked sequence into an existing result: an
//! incoming item is appended only when no item of the existing result carries
//! an equal payload, the combined collection is re-sorted by rank, and the
//! true count grows by the number of items actually added.

use vstd::prelude::*;
use vstd::laws_eq::obeys_deep_eq;
use vstd::seq_lib::*;
use vstd::multiset::Multiset;

verus! {

/// A payload together with the rank key that orders it.
pub struct ResultItem<T> {
    pub item: T,
    pub relevance: usize,
}

impl<T> ResultItem<T> {
    pub fn new(item: T, relevance: usize) -> (r: Self)
        ensures
            r.item == item,
            r.relevance == relevance,
    {
        ResultItem { item, relevance }
    }
}

/// Items ordered by rank, descending.
pub open spec fn sorted_desc<T>(s: Seq<ResultItem<T>>) -> bool {
    forall|i: int, j: int|
        0 <= i < j < s.len() ==> (#[trigger] s[i]).relevance >= (#[trigger] s[j]).relevance
}

/// The payloads of a result sequence, abstracted to their deep views.
pub open spec fn payload_views<T: DeepView>(s: Seq<ResultItem<T>>) -> Seq<T::V> {
    s.map_values(|x: ResultItem<T>| x.item.deep_view())
}

/// Some item of `s` carries payload `p`.
pub open spec fn contains_payload<T: DeepView>(s: Seq<ResultItem<T>>, p: T::V) -> bool {
    payload_views(s).contains(p)
}

/// No two items of `s` carry equal payloads.
pub open spec fn payloads_unique<T: DeepView>(s: Seq<ResultItem<T>>) -> bool {
    payload_views(s).no_duplicates()
}

/// The incoming items a merge actually adds: those whose payload is absent
/// from the existing items, in incoming order.
pub open spec fn added_items<T: DeepView>(
    existing: Seq<ResultItem<T>>,
    incoming: Seq<ResultItem<T>>,
) -> Seq<ResultItem<T>> {
    incoming.filter(|x: ResultItem<T>| !contains_payload(existing, x.item.deep_view()))
}

proof fn lemma_payload_views_insert<T: DeepView>(s: Seq<ResultItem<T>>, i: int, x: ResultItem<T>)
    requires
        0 <= i <= s.len(),
    ensures
        payload_views(s.insert(i, x)) =~= payload_views(s).insert(i, x.item.deep_view()),
{
}

proof fn lemma_payload_views_push<T: DeepView>(s: Seq<ResultItem<T>>, x: ResultItem<T>)
    ensures
        payload_views(s.push(x)) =~= payload_views(s).push(x.item.deep_view()),
{
}

proof fn lemma_payload_views_add<T: DeepView>(a: Seq<ResultItem<T>>, b: Seq<ResultItem<T>>)
    ensures
        payload_views(a + b) =~= payload_views(a) + payload_views(b),
{
}

/// One step of the membership filter: extending the incoming prefix by one
/// item extends the added items exactly when its payload is fresh.
proof fn lemma_added_items_push<T: DeepView>(
    existing: Seq<ResultItem<T>>,
    s: Seq<ResultItem<T>>,
    x: ResultItem<T>,
)
    ensures
        added_items(existing, s.push(x)) == if !contains_payload(existing, x.item.deep_view()) {
            added_items(existing, s).push(x)
        } else {
            added_items(existing, s)
        },
{
    reveal(Seq::filter);
    assert(s.push(x).drop_last() =~= s);
}

/// Membership of a payload among the first `upto` items, decided with the
/// payload type's own equality.
fn contains_payload_prefix<T: PartialEq + DeepView>(
    items: &Vec<ResultItem<T>>,
    upto: usize,
    x: &T,
) -> (r: bool)
    requires
        obeys_deep_eq::<T>(),
        upto <= items@.len(),
    ensures
        r == contains_payload(items@.take(upto as int), x.deep_view()),
{
    proof {
        reveal(obeys_deep_eq);
    }
    let ghost prefix = items@.take(upto as int);
    let mut j: usize = 0;
    while j < upto
        invariant
            obeys_deep_eq::<T>(),
            j <= upto <= items@.len(),
            prefix == items@.take(upto as int),
            forall|i: int|
                0 <= i < j ==> payload_views(prefix)[i] != x.deep_view(),
        decreases upto - j,
    {
        proof {
            reveal(obeys_deep_eq);
        }
        if items[j].item.eq(x) {
            proof {
                assert(payload_views(prefix)[j as int] == x.deep_view());
            }
            return true;
        }
        j = j + 1;
    }
    proof {
        assert forall|i: int| 0 <= i < payload_views(prefix).len() implies payload_views(prefix)[i]
            != x.deep_view() by {}
    }
    false
}

/// Inserts `x` into a rank-descending sequence, keeping it rank-descending.
fn insert_desc<T: DeepView>(out: &mut Vec<ResultItem<T>>, x: ResultItem<T>)
    requires
        sorted_desc(old(out)@),
        old(out)@.len() < usize::MAX,
    ensures
        sorted_desc(final(out)@),
        final(out)@.len() == old(out)@.len() + 1,
        final(out)@.to_multiset() == old(out)@.to_multiset().insert(x),
        payload_views(final(out)@).to_multiset() == payload_views(old(out)@).to_multiset().insert(
            x.item.deep_view(),
        ),
{
    let mut i: usize = 0;
    while i < out.len() && out[i].relevance >= x.relevance
        invariant
            i <= out@.len(),
            out@ == old(out)@,
            forall|j: int| 0 <= j < i ==> (#[trigger] out@[j]).relevance >= x.relevance,
        decreases out@.len() - i,
    {
        i = i + 1;
    }
    proof {
        broadcast use vstd::seq_lib::group_to_multiset_ensures;

        lemma_payload_views_insert(out@, i as int, x);
        to_multiset_insert(out@, i as int, x);
        to_multiset_insert(payload_views(out@), i as int, x.item.deep_view());
        assert forall|a: int, b: int|
            0 <= a < b < out@.insert(i as int, x).len() implies (#[trigger] out@.insert(
            i as int,
            x,
        )[a]).relevance >= (#[trigger] out@.insert(i as int, x)[b]).relevance by {
            if a < i && b == i {
            } else if a == i && b > i {
            }
        }
    }
    out.insert(i, x);
}

/// Re-sorts items by rank, descending, preserving the collection of items
/// and of payloads.
fn sort_items_desc<T: DeepView>(items: &mut Vec<ResultItem<T>>)
    ensures
        sorted_desc(final(items)@),
        final(items)@.to_multiset() == old(items)@.to_multiset(),
        payload_views(final(items)@).to_multiset() == payload_views(old(items)@).to_multiset(),
{
    let ghost items0 = old(items)@;
    let mut src: Vec<ResultItem<T>> = Vec::new();
    core::mem::swap(items, &mut src);
    let n_total = src.len();
    let mut out: Vec<ResultItem<T>> = Vec::new();
    proof {
        broadcast use vstd::seq_lib::group_to_multiset_ensures;

        assert(out@.to_multiset().add(src@.to_multiset()) =~= items0.to_multiset());
        assert(payload_views(out@) =~= Seq::<T::V>::empty());
        assert(payload_views(out@).to_multiset().add(payload_views(src@).to_multiset())
            =~= payload_views(items0).to_multiset());
    }
    while src.len() > 0
        invariant
            sorted_desc(out@),
            items0.len() == n_total,
            out@.len() + src@.len() == items0.len(),
            out@.to_multiset().add(src@.to_multiset()) == items0.to_multiset(),
            payload_views(out@).to_multiset().add(payload_views(src@).to_multiset())
                == payload_views(items0).to_multiset(),
        decreases src@.len(),
    {
        let ghost src_before = src@;
        let ghost out_before = out@;
        let x = src.pop().unwrap();
        proof {
            broadcast use vstd::seq_lib::group_to_multiset_ensures;

            assert(src_before =~= src@.push(x));
            lemma_payload_views_push(src@, x);
            assert(src_before.to_multiset() =~= src@.to_multiset().insert(x));
            assert(payload_views(src_before).to_multiset() =~= payload_views(
                src@,
            ).to_multiset().insert(x.item.deep_view()));
        }
        insert_desc(&mut out, x);
        proof {
            assert(out@.to_multiset().add(src@.to_multiset()) =~= items0.to_multiset());
            assert(payload_views(out@).to_multiset().add(payload_views(src@).to_multiset())
                =~= payload_views(items0).to_multiset());
        }
    }
    proof {
        broadcast use vstd::seq_lib::group_to_multiset_ensures;

        assert(src@.to_multiset() =~= Multiset::<ResultItem<T>>::empty());
        assert(payload_views(src@) =~= Seq::<T::V>::empty());
        assert(payload_views(src@).to_multiset() =~= Multiset::<T::V>::empty());
        assert(out@.to_multiset() =~= items0.to_multiset());
        assert(payload_views(out@).to_multiset() =~= payload_views(items0).to_multiset());
    }
    *items = out;
}

/// Unions `other` into the rank-sorted `src`, skipping incoming items whose
/// payload is already present, and re-sorts; returns how many were added.
pub fn merge_sorted_list<T: PartialEq + DeepView>(
    src: &mut Vec<ResultItem<T>>,
    other: Vec<ResultItem<T>>,
) -> (add_cnt: usize)
    requires
        obeys_deep_eq::<T>(),
        old(src)@.len() + other@.len() <= usize::MAX,
    ensures
        add_cnt == added_items(old(src)@, other@).len(),
        final(src)@.to_multiset() == old(src)@.to_multiset().add(
            added_items(old(src)@, other@).to_multiset(),
        ),
        payload_views(final(src)@).to_multiset() == payload_views(old(src)@).to_multiset().add(
            payload_views(added_items(old(src)@, other@)).to_multiset(),
        ),
        sorted_desc(final(src)@),
        payloads_unique(old(src)@) && payloads_unique(other@) ==> payloads_unique(final(src)@),
{
    let ghost src0 = old(src)@;
    let ghost other0 = other@;
    let orig_len = src.len();
    let mut other = other;
    let mut add_cnt: usize = 0;
    let ghost mut processed: int = 0;
    proof {
        reveal(Seq::filter);
        assert(other0.take(0) =~= Seq::<ResultItem<T>>::empty());
        assert(added_items(src0, other0.take(0)) =~= Seq::<ResultItem<T>>::empty());
        assert(src@ =~= src0 + added_items(src0, other0.take(0)));
    }
    while other.len() > 0
        invariant
            obeys_deep_eq::<T>(),
            orig_len == src0.len(),
            0 <= processed <= other0.len(),
            other@ == other0.skip(processed),
            src@ == src0 + added_items(src0, other0.take(processed)),
            add_cnt == added_items(src0, other0.take(processed)).len(),
            src0.len() + other0.len() <= usize::MAX,
            payloads_unique(src0) && payloads_unique(other0) ==> payloads_unique(src@),
            payloads_unique(src0) && payloads_unique(other0) ==> forall|i: int|
                src0.len() <= i < src@.len() ==> exists|j: int|
                    0 <= j < processed && (#[trigger] src@[i]).item.deep_view()
                        == other0[j].item.deep_view(),
        decreases other@.len(),
    {
        let ghost src_before = src@;
        let x = other.remove(0);
        proof {
            assert(x == other0[processed]);
            assert(other0.skip(processed).skip(1) =~= other0.skip(processed + 1));
            assert(other0.take(processed + 1) =~= other0.take(processed).push(x));
            lemma_added_items_push(src0, other0.take(processed), x);
            broadcast use vstd::seq_lib::group_seq_properties;

            assert(src@.take(orig_len as int) =~= src0);
        }
        let fresh = !contains_payload_prefix(src, orig_len, &x.item);
        if fresh {
            proof {
                broadcast use vstd::seq_lib::group_to_multiset_ensures;

                lemma_payload_views_push(src@, x);
                if payloads_unique(src0) && payloads_unique(other0) {
                    assert forall|i: int| 0 <= i < src@.len() implies (#[trigger] src@[i]).item.deep_view()
                        != x.item.deep_view() by {
                        if i < src0.len() {
                            assert(payload_views(src0)[i] == src@[i].item.deep_view());
                            assert(payload_views(src0).contains(src@[i].item.deep_view()));
                        } else {
                            let j = choose|j: int|
                                0 <= j < processed && (#[trigger] src@[i]).item.deep_view()
                                    == other0[j].item.deep_view();
                            assert(payload_views(other0)[j] == other0[j].item.deep_view());
                            assert(payload_views(other0)[processed] == x.item.deep_view());
                        }
                    }
                    assert(payload_views(src@.push(x)) =~= payload_views(src@).push(
                        x.item.deep_view(),
                    ));
                    assert forall|a: int, b: int|
                        0 <= a < b < payload_views(src@.push(x)).len() implies payload_views(
                        src@.push(x),
                    )[a] != payload_views(src@.push(x))[b] by {
                        if b < src@.len() {
                        } else {
                            assert(payload_views(src@.push(x))[b] == x.item.deep_view());
                            assert(payload_views(src@.push(x))[a] == src@[a].item.deep_view());
                        }
                    }
                }
            }
            src.push(x);
            add_cnt = add_cnt + 1;
        }
        proof {
            processed = processed + 1;
            if !fresh {
                assert(contains_payload(src0, x.item.deep_view()));
            }
            assert(src@ =~= src0 + added_items(src0, other0.take(processed)));
        }
    }
    proof {
        assert(other0.take(processed) =~= other0);
        broadcast use vstd::seq_lib::group_to_multiset_ensures;
    }
    let ghost appended = added_items(src0, other0);
    let ghost combined = src@;
    sort_items_desc(src);
    proof {
        broadcast use vstd::seq_lib::group_to_multiset_ensures;

        lemma_multiset_commutative(src0, appended);
        assert(combined.to_multiset() =~= src0.to_multiset().add(appended.to_multiset()));
        lemma_payload_views_add(src0, appended);
        lemma_multiset_commutative(payload_views(src0), payload_views(appended));
        assert(payload_views(combined).to_multiset() =~= payload_views(src0).to_multiset().add(
            payload_views(appended).to_multiset(),
        ));
        if payloads_unique(src0) && payloads_unique(other0) {
            payload_views(combined).lemma_multiset_has_no_duplicates();
            payload_views(src@).lemma_multiset_has_no_duplicates_conv();
        }
    }
    add_cnt
}

/// A search's outcome: the materialized result items, and the true number of
/// matches, which may exceed the number of items kept for display.
pub struct SearchResult<T> {
    pub total_items: usize,
    pub items: Vec<ResultItem<T>>,
}

impl<T: DeepView> SearchResult<T> {
    /// New result from an already rank-sorted list of items.
    pub fn from_raw(items: Vec<ResultItem<T>>, total_items: usize) -> (r: Self)
        ensures
            r.items@ == items@,
            r.total_items == total_items,
    {
        Self { items, total_items }
    }

    /// New result from an unordered list of items: sorts by rank, descending.
    pub fn from_items(items: Vec<ResultItem<T>>, total_len: usize) -> (r: Self)
        ensures
            sorted_desc(r.items@),
            r.items@.to_multiset() == items@.to_multiset(),
            payload_views(r.items@).to_multiset() == payload_views(items@).to_multiset(),
            r.total_items == total_len,
    {
        Self::from_items_order(items, total_len, true)
    }

    /// New result from a list of items that is already sorted.
    pub fn from_items_ordered(items: Vec<ResultItem<T>>, total_len: usize) -> (r: Self)
        ensures
            r.items@ == items@,
            r.total_items == total_len,
    {
        Self::from_items_order(items, total_len, false)
    }

    fn from_items_order(items: Vec<ResultItem<T>>, total_len: usize, order: bool) -> (r: Self)
        ensures
            order ==> sorted_desc(r.items@) && r.items@.to_multiset() == items@.to_multiset()
                && payload_views(r.items@).to_multiset() == payload_views(items@).to_multiset(),
            !order ==> r.items@ == items@,
            r.total_items == total_len,
    {
        let mut items = items;
        if order {
            sort_items_desc(&mut items);
        }
        Self { total_items: total_len, items }
    }

    /// The true number of matches the search found.
    pub fn len(&self) -> (r: usize)
        ensures
            r == self.total_items,
    {
        self.total_items
    }

    /// True iff the search found nothing.
    pub fn is_empty(&self) -> (r: bool)
        ensures
            r == (self.total_items == 0),
    {
        self.len() == 0
    }

    /// The materialized items, by reference.
    pub fn iter(&self) -> (r: &Vec<ResultItem<T>>)
        ensures
            r@ == self.items@,
    {
        &self.items
    }

    /// The materialized payloads, by reference, in item order.
    pub fn item_iter(&self) -> (r: Vec<&T>)
        ensures
            r@.len() == self.items@.len(),
            forall|i: int| 0 <= i < r@.len() ==> r@[i] == self.items@[i].item,
    {
        let mut out: Vec<&T> = Vec::new();
        let mut i: usize = 0;
        while i < self.items.len()
            invariant
                i <= self.items@.len(),
                out@.len() == i,
                forall|j: int| 0 <= j < i ==> out@[j] == self.items@[j].item,
            decreases self.items@.len() - i,
        {
            out.push(&self.items[i].item);
            i = i + 1;
        }
        out
    }

    /// The item at `index`.
    pub fn get(&self, index: usize) -> (r: &ResultItem<T>)
        requires
            index < self.items@.len(),
        ensures
            *r == self.items@[index as int],
    {
        &self.items[index]
    }

    /// Consumes the result, yielding its items.
    pub fn into_inner(self) -> (r: Vec<ResultItem<T>>)
        ensures
            r@ == self.items@,
    {
        self.items
    }

    /// Consumes the result, yielding its payloads in item order.
    pub fn into_iter(self) -> (r: Vec<T>)
        ensures
            r@.len() == self.items@.len(),
            forall|i: int| 0 <= i < r@.len() ==> r@[i] == self.items@[i].item,
    {
        let ghost items0 = self.items@;
        let mut src = self.items;
        let mut out: Vec<T> = Vec::new();
        while src.len() > 0
            invariant
                out@.len() + src@.len() == items0.len(),
                forall|j: int| 0 <= j < out@.len() ==> out@[j] == items0[j].item,
                forall|j: int| 0 <= j < src@.len() ==> src@[j] == items0[out@.len() + j],
            decreases src@.len(),
        {
            let x = src.remove(0);
            out.push(x.item);
        }
        out
    }
}

impl<T: PartialEq + DeepView> SearchResult<T> {
    /// Unions a second ranked sequence into this result. Incoming items whose
    /// payload is already present are skipped; the rest are appended, the
    /// whole collection is re-sorted by rank, and the true count grows by the
    /// number of items actually added — not by the incoming length.
    pub fn merge(&mut self, other: Vec<ResultItem<T>>)
        requires
            obeys_deep_eq::<T>(),
            old(self).items@.len() + other@.len() <= usize::MAX,
            old(self).total_items + other@.len() <= usize::MAX,
        ensures
            final(self).total_items == old(self).total_items + added_items(
                old(self).items@,
                other@,
            ).len(),
            final(self).items@.to_multiset() == old(self).items@.to_multiset().add(
                added_items(old(self).items@, other@).to_multiset(),
            ),
            sorted_desc(final(self).items@),
            payloads_unique(old(self).items@) && payloads_unique(other@) ==> payloads_unique(
                final(self).items@,
            ),
    {
        proof {
            broadcast use vstd::seq_lib::group_filter_ensures;
        }
        let ghost other0 = other@;
        proof {
            other0.lemma_filter_len(
                |x: ResultItem<T>| !contains_payload(old(self).items@, x.item.deep_view()),
            );
        }
        let added = merge_sorted_list(&mut self.items, other);
        self.total_items = self.total_items + added;
    }
}

impl<T: DeepView> Default for SearchResult<T> {
    /// The empty result: no items, zero matches.
    fn default() -> (r: Self)
        ensures
            r.total_items == 0,
            r.items@ == Seq::<ResultItem<T>>::empty(),
    {
        Self { total_items: 0, items: Vec::new() }
    }
}

} // verus!
