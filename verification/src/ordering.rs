//! The order of every list the planner shows: itinerary items by day, timed
//! items first by clock time, then by sequence number and id (the Markdown
//! book uses day, sequence number and id); checklist items open first, then
//! by sequence and id; expenses by itinerary item, sequence and id; trips
//! and receipts by id; notes by sequence and id. Sorting is stable and
//! keeps every record.

use vstd::prelude::*;
use crate::models::{ChecklistItem, Expense, ExportNote, ItineraryItem, Note, Receipt, Trip};
use crate::text::chars_of;
use crate::travel_book::{note_sort_key, travel_book_note_sort_key};
use crate::receipt_handling::{
    compare_text, lemma_text_lt_irreflexive, lemma_text_lt_total, lemma_text_lt_transitive, text_lt,
};

verus! {

/// A sort key: three integers, a text, and two more integers, compared in
/// that order.
pub struct SortKey {
    pub first: i64,
    pub second: i64,
    pub third: i64,
    pub text: Vec<char>,
    pub fourth: i64,
    pub fifth: i64,
}

/// A sort key as values.
pub type KeyView = (int, int, int, Seq<char>, int, int);

pub open spec fn key_view(k: SortKey) -> KeyView {
    (k.first as int, k.second as int, k.third as int, k.text@, k.fourth as int, k.fifth as int)
}

pub open spec fn keys_view(ks: Seq<SortKey>) -> Seq<KeyView> {
    ks.map_values(|k: SortKey| key_view(k))
}

/// Strictly before, comparing the parts in turn.
pub open spec fn key_lt(x: KeyView, y: KeyView) -> bool {
    ||| x.0 < y.0
    ||| x.0 == y.0 && x.1 < y.1
    ||| x.0 == y.0 && x.1 == y.1 && x.2 < y.2
    ||| x.0 == y.0 && x.1 == y.1 && x.2 == y.2 && text_lt(x.3, y.3)
    ||| x.0 == y.0 && x.1 == y.1 && x.2 == y.2 && x.3 == y.3 && x.4 < y.4
    ||| x.0 == y.0 && x.1 == y.1 && x.2 == y.2 && x.3 == y.3 && x.4 == y.4 && x.5 < y.5
}

pub proof fn lemma_key_lt_order(
    x: KeyView,
    y: KeyView,
    z: KeyView,
)
    ensures
        !key_lt(x, x),
        x != y ==> key_lt(x, y) || key_lt(y, x),
        key_lt(x, y) ==> !key_lt(y, x),
        key_lt(x, y) && key_lt(y, z) ==> key_lt(x, z),
{
    lemma_text_lt_irreflexive(x.3);
    lemma_text_lt_total(x.3, y.3);
    if text_lt(x.3, y.3) && text_lt(y.3, z.3) {
        lemma_text_lt_transitive(x.3, y.3, z.3);
    }
}

/// Whether key `a` comes strictly before key `b`.
pub fn key_before(a: &SortKey, b: &SortKey) -> (r: bool)
    ensures
        r == key_lt(key_view(*a), key_view(*b)),
{
    if a.first != b.first {
        return a.first < b.first;
    }
    if a.second != b.second {
        return a.second < b.second;
    }
    if a.third != b.third {
        return a.third < b.third;
    }
    let (lt, eq) = compare_text(a.text.as_slice(), b.text.as_slice());
    if !eq {
        return lt;
    }
    proof {
        lemma_text_lt_irreflexive(a.text@);
    }
    if a.fourth != b.fourth {
        return a.fourth < b.fourth;
    }
    a.fifth < b.fifth
}

/// `p` lists every index below `n` exactly once.
pub open spec fn is_permutation(p: Seq<int>, n: nat) -> bool {
    &&& p.len() == n
    &&& forall|j: int| 0 <= j < n ==> 0 <= #[trigger] p[j] < n
    &&& forall|a: int, b: int| 0 <= a < b < n ==> #[trigger] p[a] != #[trigger] p[b]
}

/// `new` is `old` rearranged: its `j`-th element is the `p[j]`-th of `old`.
pub open spec fn rearranged<T>(new: Seq<T>, old: Seq<T>, p: Seq<int>) -> bool {
    new.len() == old.len() && forall|j: int| 0 <= j < new.len() ==> #[trigger] new[j] == old[p[j]]
}

/// No key comes after a later one.
pub open spec fn keys_sorted(k: Seq<KeyView>) -> bool {
    forall|a: int, b: int| 0 <= a < b < k.len() ==> !key_lt(#[trigger] k[b], #[trigger] k[a])
}

/// Equal keys kept their earlier order.
pub open spec fn kept_order(k: Seq<KeyView>, p: Seq<int>) -> bool {
    forall|a: int, b: int| 0 <= a < b < k.len() && #[trigger] k[a] == #[trigger] k[b] ==> p[a] < p[b]
}

/// `new_items` and `new_keys` are `items` and `keys` stably sorted by key.
pub open spec fn stably_sorted<T>(
    new_items: Seq<T>,
    new_keys: Seq<KeyView>,
    items: Seq<T>,
    keys: Seq<KeyView>,
) -> bool {
    &&& keys_sorted(new_keys)
    &&& exists|p: Seq<int>|
        {
            &&& is_permutation(p, items.len())
            &&& rearranged(new_items, items, p)
            &&& rearranged(new_keys, keys, p)
            &&& kept_order(new_keys, p)
        }
}

/// Sorts `items` by `keys` (where `keys[i]` is the key of `items[i]`),
/// moving both alike; equal keys keep their order.
pub fn stable_sort_by_keys<T>(items: &mut Vec<T>, keys: &mut Vec<SortKey>)
    requires
        old(items)@.len() == old(keys)@.len(),
    ensures
        stably_sorted(final(items)@, keys_view(final(keys)@), old(items)@, keys_view(old(keys)@)),
{
    let ghost items0 = items@;
    let ghost keys0 = keys_view(keys@);
    let n = items.len();
    let ghost mut perm: Seq<int> = Seq::new(n as nat, |j: int| j);
    let mut i: usize = 0;
    while i < n
        invariant
            n == items@.len(),
            n == keys@.len(),
            n == items0.len(),
            n == keys0.len(),
            i <= n,
            is_permutation(perm, n as nat),
            forall|j: int| 0 <= j < i ==> #[trigger] perm[j] < i,
            forall|j: int| i <= j < n ==> #[trigger] perm[j] == j,
            rearranged(items@, items0, perm),
            rearranged(keys_view(keys@), keys0, perm),
            keys_sorted(keys_view(keys@).take(i as int)),
            kept_order(keys_view(keys@).take(i as int), perm),
        decreases n - i,
    {
        let ghost kv = keys_view(keys@);
        let ghost it_before = items@;
        let x_item = items.remove(i);
        let x_key = keys.remove(i);
        assert(key_view(x_key) == kv[i as int]);
        let mut p: usize = 0;
        while p < i && !key_before(&x_key, &keys[p])
            invariant
                i < n,
                p <= i,
                keys@.len() == n - 1,
                kv.len() == n,
                keys_view(keys@) =~= kv.remove(i as int),
                forall|j: int| 0 <= j < p ==> !key_lt(key_view(x_key), #[trigger] kv[j]),
            decreases i - p,
        {
            assert(keys_view(keys@)[p as int] == key_view(keys@[p as int]));
            assert(kv.remove(i as int)[p as int] == kv[p as int]);
            p = p + 1;
        }
        proof {
            if p < i {
                assert(keys_view(keys@)[p as int] == key_view(keys@[p as int]));
                assert(kv.remove(i as int)[p as int] == kv[p as int]);
                assert(key_lt(key_view(x_key), kv[p as int]));
            }
        }
        items.insert(p, x_item);
        keys.insert(p, x_key);
        proof {
            let old_perm = perm;
            let x = kv[i as int];
            let newp = old_perm.take(p as int).push(i as int) + old_perm.subrange(p as int, i as int)
                + old_perm.skip(i + 1);
            let kv2 = keys_view(keys@);
            assert(newp.len() == n);
            assert forall|j: int| 0 <= j < n implies #[trigger] newp[j] == if j < p {
                old_perm[j]
            } else if j == p {
                i as int
            } else if j <= i {
                old_perm[j - 1]
            } else {
                old_perm[j]
            } by {};
            assert forall|j: int| 0 <= j < n implies #[trigger] kv2[j] == if j < p {
                kv[j]
            } else if j == p {
                x
            } else if j <= i {
                kv[j - 1]
            } else {
                kv[j]
            } by {
                assert(kv2[j] == key_view(keys@[j]));
            };
            // a permutation
            assert forall|j: int| 0 <= j < n implies 0 <= #[trigger] newp[j] < n by {};
            assert forall|a: int, b: int| 0 <= a < b < n implies #[trigger] newp[a] != #[trigger] newp[b] by {
                let pa = if a < p { a } else if a == p { -1 } else if a <= i { a - 1 } else { a };
                let pb = if b < p { b } else if b == p { -1 } else if b <= i { b - 1 } else { b };
                if pa >= 0 && pb >= 0 {
                    assert(pa != pb);
                    if pa < pb {
                        assert(old_perm[pa] != old_perm[pb]);
                    } else {
                        assert(old_perm[pb] != old_perm[pa]);
                    }
                } else if pa < 0 {
                    if pb < i {
                        assert(old_perm[pb] < i);
                    } else {
                        assert(old_perm[pb] == pb);
                    }
                } else {
                    if pa < i {
                        assert(old_perm[pa] < i);
                    } else {
                        assert(old_perm[pa] == pa);
                    }
                }
            };
            assert forall|j: int| 0 <= j < i + 1 implies #[trigger] newp[j] < i + 1 by {
                if j < p {
                    assert(old_perm[j] < i);
                } else if j > p {
                    assert(old_perm[j - 1] < i);
                }
            };
            assert forall|j: int| i + 1 <= j < n implies #[trigger] newp[j] == j by {};
            // items and keys moved alike
            assert forall|j: int| 0 <= j < n implies #[trigger] items@[j] == items0[newp[j]] by {
                if j < p {
                    assert(items@[j] == it_before[j]);
                } else if j > p && j <= i {
                    assert(items@[j] == it_before[j - 1]);
                } else if j > i {
                    assert(items@[j] == it_before[j]);
                }
            };
            assert forall|j: int| 0 <= j < n implies #[trigger] kv2[j] == keys0[newp[j]] by {};
            // the first i + 1 keys are sorted
            let t = kv2.take(i + 1);
            assert forall|a: int, b: int| 0 <= a < b < t.len() implies !key_lt(
                #[trigger] t[b],
                #[trigger] t[a],
            ) by {
                assert(t[a] == kv2[a] && t[b] == kv2[b]);
                let ka = kv2[a];
                let kb = kv2[b];
                if b < p || (a > p && b <= i) {
                    let oa = if a < p { a } else { a - 1 };
                    let ob = if b < p { b } else { b - 1 };
                    assert(kv.take(i as int)[oa] == kv[oa]);
                    assert(kv.take(i as int)[ob] == kv[ob]);
                    lemma_key_lt_order(kv[ob], kv[oa], kv[oa]);
                } else if b == p {
                    lemma_key_lt_order(x, kv[a], kv[a]);
                } else if a < p && b > p {
                    assert(kv.take(i as int)[a] == kv[a]);
                    assert(kv.take(i as int)[b - 1] == kv[b - 1]);
                } else {
                    // a == p and p < b <= i
                    assert(p < i);
                    assert(key_lt(x, kv[p as int]));
                    if b - 1 > p {
                        assert(kv.take(i as int)[p as int] == kv[p as int]);
                        assert(kv.take(i as int)[b - 1] == kv[b - 1]);
                        assert(!key_lt(kv[b - 1], kv[p as int]));
                        lemma_key_lt_order(kv[p as int], kv[b - 1], kv[b - 1]);
                        if kv[p as int] != kv[b - 1] {
                            lemma_key_lt_order(x, kv[p as int], kv[b - 1]);
                        }
                    }
                    lemma_key_lt_order(x, kv[b - 1], kv[b - 1]);
                }
            };
            // equal keys kept their order
            assert forall|a: int, b: int| 0 <= a < b < t.len() && #[trigger] t[a] == #[trigger] t[b] implies newp[a]
                < newp[b] by {
                assert(t[a] == kv2[a] && t[b] == kv2[b]);
                if b < p || (a > p && b <= i) {
                    let oa = if a < p { a } else { a - 1 };
                    let ob = if b < p { b } else { b - 1 };
                    assert(kv.take(i as int)[oa] == kv[oa]);
                    assert(kv.take(i as int)[ob] == kv[ob]);
                } else if b == p {
                    assert(old_perm[a] < i);
                } else if a < p && b > p {
                    assert(kv.take(i as int)[a] == kv[a]);
                    assert(kv.take(i as int)[b - 1] == kv[b - 1]);
                } else {
                    // a == p: x is strictly before every later key of the prefix
                    assert(key_lt(x, kv[p as int]));
                    if b - 1 > p {
                        assert(kv.take(i as int)[p as int] == kv[p as int]);
                        assert(kv.take(i as int)[b - 1] == kv[b - 1]);
                        lemma_key_lt_order(kv[p as int], kv[b - 1], kv[b - 1]);
                        if kv[p as int] != kv[b - 1] {
                            lemma_key_lt_order(x, kv[p as int], kv[b - 1]);
                        }
                    }
                    lemma_key_lt_order(x, kv[b - 1], kv[b - 1]);
                    lemma_key_lt_order(x, x, x);
                }
            };
            perm = newp;
        }
        i = i + 1;
    }
    assert(keys_view(keys@).take(n as int) =~= keys_view(keys@));
    assert(rearranged(items@, items0, perm));
}

proof fn lemma_keys_follow<T>(
    items: Seq<T>,
    keys: Seq<KeyView>,
    items0: Seq<T>,
    f: spec_fn(T) -> KeyView,
)
    requires
        stably_sorted(items, keys, items0, items0.map_values(f)),
    ensures
        keys == items.map_values(f),
        stably_sorted(items, items.map_values(f), items0, items0.map_values(f)),
{
    let p = choose|p: Seq<int>|
        {
            &&& is_permutation(p, items0.len())
            &&& rearranged(items, items0, p)
            &&& rearranged(keys, items0.map_values(f), p)
            &&& kept_order(keys, p)
        };
    assert forall|j: int| 0 <= j < keys.len() implies keys[j] == #[trigger] items.map_values(f)[j] by {
        assert(keys[j] == items0.map_values(f)[p[j]]);
        assert(items[j] == items0[p[j]]);
    };
    assert(keys =~= items.map_values(f));
}

/// Sorts `items` stably by the keys `keys` that `f` gives them.
fn sort_with_keys<T>(
    items: &mut Vec<T>,
    keys: Vec<SortKey>,
    Ghost(f): Ghost<spec_fn(T) -> KeyView>,
)
    requires
        keys_view(keys@) == old(items)@.map_values(f),
    ensures
        stably_sorted(final(items)@, final(items)@.map_values(f), old(items)@, old(items)@.map_values(f)),
{
    let mut keys = keys;
    let ghost items0 = items@;
    stable_sort_by_keys(items, &mut keys);
    proof {
        lemma_keys_follow(items@, keys_view(keys@), items0, f);
    }
}

/// Where an itinerary item stands in the Markdown book: by day, then its
/// sequence number, then its id.
pub open spec fn markdown_order_key(it: ItineraryItem) -> KeyView {
    (it.day as int, it.sort_order as int, it.id as int, Seq::empty(), 0, 0)
}

/// Puts itinerary items in Markdown book order.
pub fn sort_itinerary_items_for_markdown(items: &mut Vec<ItineraryItem>)
    ensures
        stably_sorted(
            final(items)@,
            final(items)@.map_values(|it: ItineraryItem| markdown_order_key(it)),
            old(items)@,
            old(items)@.map_values(|it: ItineraryItem| markdown_order_key(it)),
        ),
{
    let ghost f = |it: ItineraryItem| markdown_order_key(it);
    let mut keys: Vec<SortKey> = Vec::new();
    let n = items.len();
    let mut i: usize = 0;
    while i < n
        invariant
            n == items@.len(),
            i <= n,
            keys_view(keys@) =~= items@.take(i as int).map_values(f),
            forall|it: ItineraryItem| #[trigger] f(it) == markdown_order_key(it),
        decreases n - i,
    {
        let it = &items[i];
        let text: Vec<char> = Vec::new();
        let ghost before = keys@;
        let k = SortKey { first: it.day, second: it.sort_order, third: it.id, text, fourth: 0, fifth: 0 };
        assert(k.text@ =~= Seq::<char>::empty());
        assert(key_view(k) == f(items@[i as int]));
        keys.push(k);
        assert(keys_view(keys@) =~= keys_view(before).push(key_view(k)));
        assert(items@.take(i + 1).map_values(f) =~= items@.take(i as int).map_values(f).push(
            f(items@[i as int]),
        ));
        i = i + 1;
    }
    assert(items@.take(n as int) =~= items@);
    sort_with_keys(items, keys, Ghost(f));
}

/// The clock time of an item as a sort text (empty when it has none).
pub open spec fn start_time_text(t: Option<String>) -> Seq<char> {
    match t {
        Some(x) => x@,
        None => Seq::empty(),
    }
}

/// Where an itinerary item stands in lists and in the timeline: by day,
/// then items with a clock time before those without, then by clock time
/// (as text), then sequence number, then id.
pub open spec fn itinerary_order_key(it: ItineraryItem) -> KeyView {
    (
        it.day as int,
        if it.start_time is Some {
            0
        } else {
            1
        },
        0,
        start_time_text(it.start_time),
        it.sort_order as int,
        it.id as int,
    )
}

/// Puts itinerary items in list order.
pub fn sort_itinerary_items(items: &mut Vec<ItineraryItem>)
    ensures
        stably_sorted(
            final(items)@,
            final(items)@.map_values(|it: ItineraryItem| itinerary_order_key(it)),
            old(items)@,
            old(items)@.map_values(|it: ItineraryItem| itinerary_order_key(it)),
        ),
{
    let ghost f = |it: ItineraryItem| itinerary_order_key(it);
    let mut keys: Vec<SortKey> = Vec::new();
    let n = items.len();
    let mut i: usize = 0;
    while i < n
        invariant
            n == items@.len(),
            i <= n,
            keys_view(keys@) =~= items@.take(i as int).map_values(f),
            forall|it: ItineraryItem| #[trigger] f(it) == itinerary_order_key(it),
        decreases n - i,
    {
        let it = &items[i];
        let (untimed, text): (i64, Vec<char>) = match &it.start_time {
            Some(t) => (0, chars_of(t.as_str())),
            None => (1, Vec::new()),
        };
        let ghost before = keys@;
        let k = SortKey {
            first: it.day,
            second: untimed,
            third: 0,
            text,
            fourth: it.sort_order,
            fifth: it.id,
        };
        assert(k.text@ =~= start_time_text(it.start_time));
        assert(key_view(k) == f(items@[i as int]));
        keys.push(k);
        assert(keys_view(keys@) =~= keys_view(before).push(key_view(k)));
        assert(items@.take(i + 1).map_values(f) =~= items@.take(i as int).map_values(f).push(
            f(items@[i as int]),
        ));
        i = i + 1;
    }
    assert(items@.take(n as int) =~= items@);
    sort_with_keys(items, keys, Ghost(f));
}

/// Where a checklist item stands: open items first, then by sequence
/// number and id.
pub open spec fn checklist_order_key(c: ChecklistItem) -> KeyView {
    (if c.is_done {
        1
    } else {
        0
    }, c.sort_order as int, c.id as int, Seq::empty(), 0, 0)
}

/// Puts checklist items in list order.
pub fn sort_checklist_items(items: &mut Vec<ChecklistItem>)
    ensures
        stably_sorted(
            final(items)@,
            final(items)@.map_values(|c: ChecklistItem| checklist_order_key(c)),
            old(items)@,
            old(items)@.map_values(|c: ChecklistItem| checklist_order_key(c)),
        ),
{
    let ghost f = |c: ChecklistItem| checklist_order_key(c);
    let mut keys: Vec<SortKey> = Vec::new();
    let n = items.len();
    let mut i: usize = 0;
    while i < n
        invariant
            n == items@.len(),
            i <= n,
            keys_view(keys@) =~= items@.take(i as int).map_values(f),
            forall|c: ChecklistItem| #[trigger] f(c) == checklist_order_key(c),
        decreases n - i,
    {
        let c = &items[i];
        let text: Vec<char> = Vec::new();
        let ghost before = keys@;
        let k = SortKey { first: if c.is_done {
                1
            } else {
                0
            }, second: c.sort_order, third: c.id, text, fourth: 0, fifth: 0 };
        assert(k.text@ =~= Seq::<char>::empty());
        assert(key_view(k) == f(items@[i as int]));
        keys.push(k);
        assert(keys_view(keys@) =~= keys_view(before).push(key_view(k)));
        assert(items@.take(i + 1).map_values(f) =~= items@.take(i as int).map_values(f).push(
            f(items@[i as int]),
        ));
        i = i + 1;
    }
    assert(items@.take(n as int) =~= items@);
    sort_with_keys(items, keys, Ghost(f));
}

/// Where an expense stands: by itinerary item, then sequence number and id.
pub open spec fn expense_order_key(e: Expense) -> KeyView {
    (e.itinerary_id as int, e.sort_order as int, e.id as int, Seq::empty(), 0, 0)
}

/// Puts expenses in list order.
pub fn sort_expenses(items: &mut Vec<Expense>)
    ensures
        stably_sorted(
            final(items)@,
            final(items)@.map_values(|e: Expense| expense_order_key(e)),
            old(items)@,
            old(items)@.map_values(|e: Expense| expense_order_key(e)),
        ),
{
    let ghost f = |e: Expense| expense_order_key(e);
    let mut keys: Vec<SortKey> = Vec::new();
    let n = items.len();
    let mut i: usize = 0;
    while i < n
        invariant
            n == items@.len(),
            i <= n,
            keys_view(keys@) =~= items@.take(i as int).map_values(f),
            forall|e: Expense| #[trigger] f(e) == expense_order_key(e),
        decreases n - i,
    {
        let e = &items[i];
        let text: Vec<char> = Vec::new();
        let ghost before = keys@;
        let k = SortKey { first: e.itinerary_id, second: e.sort_order, third: e.id, text, fourth: 0, fifth: 0 };
        assert(k.text@ =~= Seq::<char>::empty());
        assert(key_view(k) == f(items@[i as int]));
        keys.push(k);
        assert(keys_view(keys@) =~= keys_view(before).push(key_view(k)));
        assert(items@.take(i + 1).map_values(f) =~= items@.take(i as int).map_values(f).push(
            f(items@[i as int]),
        ));
        i = i + 1;
    }
    assert(items@.take(n as int) =~= items@);
    sort_with_keys(items, keys, Ghost(f));
}

/// Trips are listed by id.
pub open spec fn trip_order_key(t: Trip) -> KeyView {
    (t.id as int, 0, 0, Seq::empty(), 0, 0)
}

/// Puts trips in list order.
pub fn sort_trips(items: &mut Vec<Trip>)
    ensures
        stably_sorted(
            final(items)@,
            final(items)@.map_values(|t: Trip| trip_order_key(t)),
            old(items)@,
            old(items)@.map_values(|t: Trip| trip_order_key(t)),
        ),
{
    let ghost f = |t: Trip| trip_order_key(t);
    let mut keys: Vec<SortKey> = Vec::new();
    let n = items.len();
    let mut i: usize = 0;
    while i < n
        invariant
            n == items@.len(),
            i <= n,
            keys_view(keys@) =~= items@.take(i as int).map_values(f),
            forall|t: Trip| #[trigger] f(t) == trip_order_key(t),
        decreases n - i,
    {
        let t = &items[i];
        let text: Vec<char> = Vec::new();
        let ghost before = keys@;
        let k = SortKey { first: t.id, second: 0, third: 0, text, fourth: 0, fifth: 0 };
        assert(k.text@ =~= Seq::<char>::empty());
        assert(key_view(k) == f(items@[i as int]));
        keys.push(k);
        assert(keys_view(keys@) =~= keys_view(before).push(key_view(k)));
        assert(items@.take(i + 1).map_values(f) =~= items@.take(i as int).map_values(f).push(
            f(items@[i as int]),
        ));
        i = i + 1;
    }
    assert(items@.take(n as int) =~= items@);
    sort_with_keys(items, keys, Ghost(f));
}

/// Receipts are listed by id.
pub open spec fn receipt_order_key(r: Receipt) -> KeyView {
    (r.id as int, 0, 0, Seq::empty(), 0, 0)
}

/// Puts receipts in list order.
pub fn sort_receipts(items: &mut Vec<Receipt>)
    ensures
        stably_sorted(
            final(items)@,
            final(items)@.map_values(|r: Receipt| receipt_order_key(r)),
            old(items)@,
            old(items)@.map_values(|r: Receipt| receipt_order_key(r)),
        ),
{
    let ghost f = |r: Receipt| receipt_order_key(r);
    let mut keys: Vec<SortKey> = Vec::new();
    let n = items.len();
    let mut i: usize = 0;
    while i < n
        invariant
            n == items@.len(),
            i <= n,
            keys_view(keys@) =~= items@.take(i as int).map_values(f),
            forall|r: Receipt| #[trigger] f(r) == receipt_order_key(r),
        decreases n - i,
    {
        let r = &items[i];
        let text: Vec<char> = Vec::new();
        let ghost before = keys@;
        let k = SortKey { first: r.id, second: 0, third: 0, text, fourth: 0, fifth: 0 };
        assert(k.text@ =~= Seq::<char>::empty());
        assert(key_view(k) == f(items@[i as int]));
        keys.push(k);
        assert(keys_view(keys@) =~= keys_view(before).push(key_view(k)));
        assert(items@.take(i + 1).map_values(f) =~= items@.take(i as int).map_values(f).push(
            f(items@[i as int]),
        ));
        i = i + 1;
    }
    assert(items@.take(n as int) =~= items@);
    sort_with_keys(items, keys, Ghost(f));
}

/// The notes of one owner are listed by sequence number, then id.
pub open spec fn note_order_key(nt: Note) -> KeyView {
    (nt.sort_order as int, nt.id as int, 0, Seq::empty(), 0, 0)
}

/// Puts the notes of one owner in list order.
pub fn sort_notes(items: &mut Vec<Note>)
    ensures
        stably_sorted(
            final(items)@,
            final(items)@.map_values(|nt: Note| note_order_key(nt)),
            old(items)@,
            old(items)@.map_values(|nt: Note| note_order_key(nt)),
        ),
{
    let ghost f = |nt: Note| note_order_key(nt);
    let mut keys: Vec<SortKey> = Vec::new();
    let n = items.len();
    let mut i: usize = 0;
    while i < n
        invariant
            n == items@.len(),
            i <= n,
            keys_view(keys@) =~= items@.take(i as int).map_values(f),
            forall|nt: Note| #[trigger] f(nt) == note_order_key(nt),
        decreases n - i,
    {
        let nt = &items[i];
        let text: Vec<char> = Vec::new();
        let ghost before = keys@;
        let k = SortKey { first: nt.sort_order, second: nt.id, third: 0, text, fourth: 0, fifth: 0 };
        assert(k.text@ =~= Seq::<char>::empty());
        assert(key_view(k) == f(items@[i as int]));
        keys.push(k);
        assert(keys_view(keys@) =~= keys_view(before).push(key_view(k)));
        assert(items@.take(i + 1).map_values(f) =~= items@.take(i as int).map_values(f).push(
            f(items@[i as int]),
        ));
        i = i + 1;
    }
    assert(items@.take(n as int) =~= items@);
    sort_with_keys(items, keys, Ghost(f));
}

/// Where a note goes in the travel book, as `travel_book_note_sort_key`
/// gives it.
pub open spec fn export_note_order_key(en: ExportNote) -> KeyView {
    let k = note_sort_key(en);
    (k.0 as int, k.1 as int, k.2 as int, k.3, 0, 0)
}

/// Puts exported notes in travel book order: trip notes, day notes by
/// day, itinerary notes by day and sequence, then by label and body.
pub fn sort_export_notes_for_travel_book(items: &mut Vec<ExportNote>)
    ensures
        stably_sorted(
            final(items)@,
            final(items)@.map_values(|en: ExportNote| export_note_order_key(en)),
            old(items)@,
            old(items)@.map_values(|en: ExportNote| export_note_order_key(en)),
        ),
{
    let ghost f = |en: ExportNote| export_note_order_key(en);
    let mut keys: Vec<SortKey> = Vec::new();
    let n = items.len();
    let mut i: usize = 0;
    while i < n
        invariant
            n == items@.len(),
            i <= n,
            keys_view(keys@) =~= items@.take(i as int).map_values(f),
            forall|en: ExportNote| #[trigger] f(en) == export_note_order_key(en),
        decreases n - i,
    {
        let en = &items[i];
        let sk = travel_book_note_sort_key(en);
        let text = chars_of(sk.3.as_str());
        let ghost before = keys@;
        let k = SortKey { first: sk.0 as i64, second: sk.1, third: sk.2, text, fourth: 0, fifth: 0 };
        
        assert(key_view(k) == f(items@[i as int]));
        keys.push(k);
        assert(keys_view(keys@) =~= keys_view(before).push(key_view(k)));
        assert(items@.take(i + 1).map_values(f) =~= items@.take(i as int).map_values(f).push(
            f(items@[i as int]),
        ));
        i = i + 1;
    }
    assert(items@.take(n as int) =~= items@);
    sort_with_keys(items, keys, Ghost(f));
}

} // verus!
