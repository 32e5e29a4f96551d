//! Handling a trip's receipts: the pending summary (how many are active,
//! how many lack an amount, and the totals per currency in currency order),
//! the receipts whose status and trash state disagree, what trashing or
//! restoring a receipt changes, which receipts a listing shows, their export
//! form, their terminal views, and the rules every receipt keeps.

use vstd::prelude::*;
use crate::listing::{
    dash_or, dash_or_str, padded, push_labelled, push_labelled_int, push_labelled_str, push_padded,
    push_padded_int, push_padded_str, push_rule, push_text_line, push_total_line, rule, total_line,
};
use crate::calendar::{
    is_rfc3339, local_datetime_to_rfc3339, local_rfc3339_form, naive_datetime_parts, rfc3339_accepts,
};
use crate::models::{ExportReceiptDayRef, ExportReceiptV7, Receipt};
use crate::money::{amount_display_text, format_amount_display};
use crate::receipt::{
    format_amount_optional, import_status, is_receipt_status, new_receipt_result, opt_int,
    pair_fault, receipt_import_fault, receipt_update_result, normalize_optional_memo, normalized_memo,
    validate_receipt_status, ReceiptError, ReceiptFault, RECEIPT_STATUS_IGNORED,
    RECEIPT_STATUS_UNREVIEWED,
};
use crate::ordering::{receipt_order_key, sort_receipts, stably_sorted};
use crate::summary::{opt_string_view, opt_view};
use crate::text::{
    chars_of, int_text, nat_text, push_int_text, push_line, push_nat_text, push_str, strings_view,
    trim,
};

verus! {

/// Texts in the order of their characters' code points, the order in which
/// a `BTreeMap<String, _>` keeps its keys.
pub open spec fn text_lt(a: Seq<char>, b: Seq<char>) -> bool
    decreases a.len(),
{
    if b.len() == 0 {
        false
    } else if a.len() == 0 {
        true
    } else if a[0] != b[0] {
        (a[0] as u32) < (b[0] as u32)
    } else {
        text_lt(a.drop_first(), b.drop_first())
    }
}

pub proof fn lemma_text_lt_irreflexive(a: Seq<char>)
    ensures
        !text_lt(a, a),
    decreases a.len(),
{
    if a.len() > 0 {
        lemma_text_lt_irreflexive(a.drop_first());
    }
}

pub proof fn lemma_text_lt_total(a: Seq<char>, b: Seq<char>)
    ensures
        a != b ==> text_lt(a, b) || text_lt(b, a),
        text_lt(a, b) ==> !text_lt(b, a),
    decreases a.len(),
{
    if a.len() > 0 && b.len() > 0 && a[0] == b[0] {
        lemma_text_lt_total(a.drop_first(), b.drop_first());
        if a.drop_first() == b.drop_first() {
            assert(a =~= seq![a[0]] + a.drop_first());
            assert(b =~= seq![b[0]] + b.drop_first());
        }
    } else if a.len() == 0 && b.len() == 0 {
        assert(a =~= b);
    } else if a.len() > 0 && b.len() > 0 {
        vstd::utf8::char_u32_cast(a[0], a[0] as u32);
        vstd::utf8::char_u32_cast(b[0], b[0] as u32);
    }
}

pub proof fn lemma_text_lt_transitive(a: Seq<char>, b: Seq<char>, c: Seq<char>)
    requires
        text_lt(a, b),
        text_lt(b, c),
    ensures
        text_lt(a, c),
    decreases a.len(),
{
    if a.len() > 0 && a[0] == b[0] && b[0] == c[0] {
        lemma_text_lt_transitive(a.drop_first(), b.drop_first(), c.drop_first());
    }
}

proof fn lemma_text_lt_after_common_prefix(a: Seq<char>, b: Seq<char>, i: int)
    requires
        0 <= i <= a.len(),
        i <= b.len(),
        a.take(i) == b.take(i),
    ensures
        text_lt(a, b) == text_lt(a.skip(i), b.skip(i)),
    decreases i,
{
    if i > 0 {
        assert(a[0] == a.take(i)[0]);
        assert(b[0] == b.take(i)[0]);
        assert(a.drop_first().take(i - 1) =~= a.take(i).drop_first());
        assert(b.drop_first().take(i - 1) =~= b.take(i).drop_first());
        lemma_text_lt_after_common_prefix(a.drop_first(), b.drop_first(), i - 1);
        assert(a.drop_first().skip(i - 1) =~= a.skip(i));
        assert(b.drop_first().skip(i - 1) =~= b.skip(i));
    } else {
        assert(a.skip(0) =~= a);
        assert(b.skip(0) =~= b);
    }
}

/// Compares two texts: whether `a` comes before `b`, and whether they are equal.
pub fn compare_text(a: &[char], b: &[char]) -> (r: (bool, bool))
    ensures
        r.0 == text_lt(a@, b@),
        r.1 == (a@ == b@),
{
    let n = a.len();
    let m = b.len();
    let mut i: usize = 0;
    while i < n && i < m && a[i] == b[i]
        invariant
            n == a@.len(),
            m == b@.len(),
            i <= n,
            i <= m,
            a@.take(i as int) == b@.take(i as int),
        decreases n - i,
    {
        assert(a@.take(i + 1) =~= a@.take(i as int).push(a@[i as int]));
        assert(b@.take(i + 1) =~= b@.take(i as int).push(b@[i as int]));
        i = i + 1;
    }
    proof {
        lemma_text_lt_after_common_prefix(a@, b@, i as int);
    }
    let eq = i == n && i == m;
    if eq {
        assert(a@ =~= a@.take(i as int));
        assert(b@ =~= b@.take(i as int));
    } else if i < n && i < m {
        assert(a@[i as int] != b@[i as int]);
    }
    let lt = if i == m {
        false
    } else if i == n {
        true
    } else {
        (a[i] as u32) < (b[i] as u32)
    };
    assert(a@.skip(i as int).len() == n - i);
    assert(b@.skip(i as int).len() == m - i);
    if i < n && i < m {
        assert(a@.skip(i as int)[0] == a@[i as int]);
        assert(b@.skip(i as int)[0] == b@[i as int]);
    }
    (lt, eq)
}

/// Totals per currency as (currency, total) pairs.
pub open spec fn totals_view(t: Seq<(String, i64)>) -> Seq<(Seq<char>, i64)> {
    t.map_values(|e: (String, i64)| (e.0@, e.1))
}

/// The currencies stand in strictly increasing order (so none twice).
pub open spec fn keys_sorted(t: Seq<(Seq<char>, i64)>) -> bool {
    forall|i: int, j: int| 0 <= i < j < t.len() ==> text_lt(#[trigger] t[i].0, #[trigger] t[j].0)
}

/// `t` lists exactly the entries of `m`, in currency order.
pub open spec fn lists_totals(t: Seq<(Seq<char>, i64)>, m: Map<Seq<char>, int>) -> bool {
    &&& keys_sorted(t)
    &&& forall|i: int| 0 <= i < t.len() ==> m.contains_key(#[trigger] t[i].0) && m[t[i].0] == t[i].1
    &&& forall|c: Seq<char>| #[trigger] m.contains_key(c) ==> exists|i: int| 0 <= i < t.len() && t[i].0 == c
}

/// The total of `m` for `c` after adding `amount` to it.
pub open spec fn added_total(m: Map<Seq<char>, int>, c: Seq<char>, amount: int) -> int {
    (if m.contains_key(c) {
        m[c]
    } else {
        0
    }) + amount
}

/// Adds `amount` to the total of `currency`, keeping the currency order;
/// refuses, leaving the totals as they were, when the new total does not
/// fit in an `i64`.
fn add_to_totals(
    totals: &mut Vec<(String, i64)>,
    Ghost(m): Ghost<Map<Seq<char>, int>>,
    currency: &str,
    amount: i64,
) -> (ok: bool)
    requires
        lists_totals(totals_view(old(totals)@), m),
    ensures
        ok == (i64::MIN <= added_total(m, currency@, amount as int) <= i64::MAX),
        ok ==> lists_totals(
            totals_view(final(totals)@),
            m.insert(currency@, added_total(m, currency@, amount as int)),
        ),
        !ok ==> final(totals)@ == old(totals)@,
{
    let ghost t0 = totals_view(totals@);
    let cur = chars_of(currency);
    let n = totals.len();
    let mut i: usize = 0;
    let mut done = false;
    let mut same = false;
    while !done && i < n
        invariant
            n == totals@.len(),
            t0 == totals_view(totals@),
            cur@ == currency@,
            i <= n,
            forall|j: int| 0 <= j < i ==> text_lt(#[trigger] t0[j].0, currency@),
            done ==> i < n && !text_lt(t0[i as int].0, currency@) && same == (t0[i as int].0
                == currency@),
        decreases n - i + (if done {
            0int
        } else {
            1int
        }),
    {
        let key = chars_of(totals[i].0.as_str());
        let (lt, eq) = compare_text(key.as_slice(), cur.as_slice());
        if lt {
            i = i + 1;
        } else {
            done = true;
            same = eq;
        }
    }
    let ghost c = currency@;
    if done && same {
        let old_total = totals[i].1;
        assert(m.contains_key(c) && m[c] == old_total);
        let sum = old_total.checked_add(amount);
        match sum {
            None => {
                return false;
            },
            Some(v) => {
                let key = totals[i].0.clone();
                totals.set(i, (key, v));
                let ghost t1 = totals_view(totals@);
                let ghost m1 = m.insert(c, added_total(m, c, amount as int));
                assert(t1 =~= t0.update(i as int, (c, v)));
                assert forall|j: int| 0 <= j < t1.len() implies m1.contains_key(#[trigger] t1[j].0)
                    && m1[t1[j].0] == t1[j].1 by {
                    if j != i {
                        if t0[j].0 == c {
                            if j < i {
                                lemma_text_lt_irreflexive(c);
                            } else {
                                lemma_text_lt_irreflexive(c);
                            }
                        }
                    }
                };
                assert forall|k: Seq<char>| #[trigger] m1.contains_key(k) implies exists|j: int|
                    0 <= j < t1.len() && t1[j].0 == k by {
                    if k == c {
                        assert(t1[i as int].0 == k);
                    } else {
                        let j = choose|j: int| 0 <= j < t0.len() && t0[j].0 == k;
                        assert(t1[j].0 == k);
                    }
                };
                return true;
            },
        }
    }
    proof {
        // the currency is not listed yet, and would stand at position `i`
        assert forall|j: int| i <= j < t0.len() implies text_lt(c, #[trigger] t0[j].0) by {
            lemma_text_lt_total(t0[i as int].0, c);
            if j > i {
                lemma_text_lt_transitive(c, t0[i as int].0, t0[j].0);
            }
        };
        if m.contains_key(c) {
            let j = choose|j: int| 0 <= j < t0.len() && t0[j].0 == c;
            lemma_text_lt_irreflexive(c);
            if j >= i {
                assert(text_lt(c, t0[j].0));
            }
        }
    }
    totals.insert(i, (String::from_str(currency), amount));
    let ghost t1 = totals_view(totals@);
    let ghost m1 = m.insert(c, added_total(m, c, amount as int));
    assert(t1 =~= t0.insert(i as int, (c, amount)));
    assert forall|a: int, b: int| 0 <= a < b < t1.len() implies text_lt(
        #[trigger] t1[a].0,
        #[trigger] t1[b].0,
    ) by {
        if a < i && b == i {
        } else if a < i && b > i {
            assert(t1[b].0 == t0[b - 1].0);
        } else if a == i {
            assert(t1[b].0 == t0[b - 1].0);
        } else if a > i {
            assert(t1[a].0 == t0[a - 1].0);
            assert(t1[b].0 == t0[b - 1].0);
        }
    };
    assert forall|j: int| 0 <= j < t1.len() implies m1.contains_key(#[trigger] t1[j].0) && m1[t1[j].0]
        == t1[j].1 by {
        if j < i {
            lemma_text_lt_irreflexive(c);
        } else if j > i {
            assert(t1[j] == t0[j - 1]);
            lemma_text_lt_irreflexive(c);
        }
    };
    assert forall|k: Seq<char>| #[trigger] m1.contains_key(k) implies exists|j: int|
        0 <= j < t1.len() && t1[j].0 == k by {
        if k == c {
            assert(t1[i as int].0 == k);
        } else {
            let j = choose|j: int| 0 <= j < t0.len() && t0[j].0 == k;
            if j < i {
                assert(t1[j].0 == k);
            } else {
                assert(t1[j + 1].0 == k);
            }
        }
    };
    true
}

/// The totals per currency of the receipts that carry both an amount and a
/// currency.
pub open spec fn currency_totals(rs: Seq<Receipt>) -> Map<Seq<char>, int>
    decreases rs.len(),
{
    if rs.len() == 0 {
        Map::empty()
    } else {
        let m = currency_totals(rs.drop_last());
        match (rs.last().amount, rs.last().currency) {
            (Some(a), Some(c)) => m.insert(c@, added_total(m, c@, a as int)),
            _ => m,
        }
    }
}

/// How many receipts have no amount.
pub open spec fn count_without_amount(rs: Seq<Receipt>) -> nat
    decreases rs.len(),
{
    if rs.len() == 0 {
        0
    } else {
        count_without_amount(rs.drop_last()) + if rs.last().amount is None {
            1nat
        } else {
            0nat
        }
    }
}

/// Every running total per currency, receipt after receipt, fits in an `i64`.
pub open spec fn totals_fit(rs: Seq<Receipt>) -> bool {
    forall|k: int, c: Seq<char>|
        0 <= k <= rs.len() && #[trigger] currency_totals(rs.take(k)).contains_key(c) ==> i64::MIN
            <= currency_totals(rs.take(k))[c] <= i64::MAX
}

/// The summary shown above a trip's receipt list.
pub struct PendingReceiptSummary {
    /// How many receipts are active (not in the trash).
    pub active_count: usize,
    /// How many of them have no amount.
    pub without_amount_count: usize,
    /// The totals per currency, in currency order.
    pub totals_by_currency: Vec<(String, i64)>,
}

proof fn lemma_listed_totals_fit(t: Seq<(Seq<char>, i64)>, m: Map<Seq<char>, int>)
    requires
        lists_totals(t, m),
    ensures
        forall|c: Seq<char>| #[trigger] m.contains_key(c) ==> i64::MIN <= m[c] <= i64::MAX,
{
    assert forall|c: Seq<char>| #[trigger] m.contains_key(c) implies i64::MIN <= m[c] <= i64::MAX by {
        let j = choose|j: int| 0 <= j < t.len() && t[j].0 == c;
        assert(m.contains_key(t[j].0));
    };
}

proof fn lemma_totals_step(rs: Seq<Receipt>, i: int)
    requires
        0 <= i < rs.len(),
    ensures
        currency_totals(rs.take(i + 1)) == match (rs[i].amount, rs[i].currency) {
            (Some(a), Some(c)) => currency_totals(rs.take(i)).insert(
                c@,
                added_total(currency_totals(rs.take(i)), c@, a as int),
            ),
            _ => currency_totals(rs.take(i)),
        },
        count_without_amount(rs.take(i + 1)) == count_without_amount(rs.take(i)) + if rs[i].amount is None {
            1nat
        } else {
            0nat
        },
{
    assert(rs.take(i + 1).drop_last() =~= rs.take(i));
    assert(rs.take(i + 1).last() == rs[i]);
}

/// Whether the running totals per currency of `receipts` all fit in an
/// `i64`, so that `compute_pending_receipt_summary` can add them up.
pub fn pending_receipt_totals_fit(receipts: &[Receipt]) -> (b: bool)
    ensures
        b == totals_fit(receipts@),
{
    let ghost rs = receipts@;
    let mut totals: Vec<(String, i64)> = Vec::new();
    let n = receipts.len();
    let mut i: usize = 0;
    assert(rs.take(0) =~= Seq::<Receipt>::empty());
    while i < n
        invariant
            n == rs.len(),
            rs == receipts@,
            i <= n,
            lists_totals(totals_view(totals@), currency_totals(rs.take(i as int))),
            forall|k: int, c: Seq<char>|
                0 <= k <= i && #[trigger] currency_totals(rs.take(k)).contains_key(c) ==> i64::MIN
                    <= currency_totals(rs.take(k))[c] <= i64::MAX,
        decreases n - i,
    {
        proof {
            lemma_totals_step(rs, i as int);
        }
        let r = &receipts[i];
        match (r.amount, &r.currency) {
            (Some(a), Some(c)) => {
                let ok = add_to_totals(
                    &mut totals,
                    Ghost(currency_totals(rs.take(i as int))),
                    c.as_str(),
                    a,
                );
                if !ok {
                    assert(currency_totals(rs.take(i + 1)).contains_key(c@));
                    return false;
                }
            },
            _ => {},
        }
        proof {
            lemma_listed_totals_fit(totals_view(totals@), currency_totals(rs.take(i + 1)));
        }
        i = i + 1;
    }
    assert(rs.take(n as int) =~= rs);
    true
}

/// Counts the receipts, those without an amount, and adds up the amounts
/// per currency.
pub fn compute_pending_receipt_summary(receipts: &[Receipt]) -> (s: PendingReceiptSummary)
    requires
        totals_fit(receipts@),
    ensures
        s.active_count == receipts@.len(),
        s.without_amount_count == count_without_amount(receipts@),
        lists_totals(totals_view(s.totals_by_currency@), currency_totals(receipts@)),
{
    let ghost rs = receipts@;
    let mut totals: Vec<(String, i64)> = Vec::new();
    let mut without: usize = 0;
    let n = receipts.len();
    let mut i: usize = 0;
    assert(rs.take(0) =~= Seq::<Receipt>::empty());
    while i < n
        invariant
            n == rs.len(),
            rs == receipts@,
            i <= n,
            totals_fit(rs),
            without == count_without_amount(rs.take(i as int)),
            without <= i,
            lists_totals(totals_view(totals@), currency_totals(rs.take(i as int))),
        decreases n - i,
    {
        proof {
            lemma_totals_step(rs, i as int);
        }
        let r = &receipts[i];
        match (r.amount, &r.currency) {
            (Some(a), Some(c)) => {
                assert(currency_totals(rs.take(i + 1)).contains_key(c@));
                let ok = add_to_totals(
                    &mut totals,
                    Ghost(currency_totals(rs.take(i as int))),
                    c.as_str(),
                    a,
                );
            },
            _ => {},
        }
        if r.amount.is_none() {
            without = without + 1;
        }
        i = i + 1;
    }
    assert(rs.take(n as int) =~= rs);
    PendingReceiptSummary { active_count: n, without_amount_count: without, totals_by_currency: totals }
}

// ---- status and trash ----

/// A receipt whose status and trash state disagree: `ignored` but not in
/// the trash, or `unreviewed` but in the trash.
pub open spec fn is_inconsistent(r: Receipt) -> bool {
    (r.status@ == "ignored"@ && r.trashed_at is None) || (r.status@ == "unreviewed"@
        && r.trashed_at is Some)
}

/// The ids of the inconsistent receipts, in the order given.
pub open spec fn inconsistent_ids(rs: Seq<Receipt>) -> Seq<i64>
    decreases rs.len(),
{
    if rs.len() == 0 {
        Seq::empty()
    } else if is_inconsistent(rs.last()) {
        inconsistent_ids(rs.drop_last()).push(rs.last().id)
    } else {
        inconsistent_ids(rs.drop_last())
    }
}

/// The ids of a trip's receipts (given by id) whose status and trash state
/// disagree.
pub fn find_inconsistent_receipts_for_trip(receipts: &[Receipt]) -> (ids: Vec<i64>)
    ensures
        ids@ == inconsistent_ids(receipts@),
{
    let mut ids: Vec<i64> = Vec::new();
    let n = receipts.len();
    let mut i: usize = 0;
    assert(receipts@.take(0) =~= Seq::<Receipt>::empty());
    while i < n
        invariant
            n == receipts@.len(),
            i <= n,
            ids@ == inconsistent_ids(receipts@.take(i as int)),
        decreases n - i,
    {
        let r = &receipts[i];
        assert(receipts@.take(i + 1).drop_last() =~= receipts@.take(i as int));
        let ignored = crate::text::str_eq(r.status.as_str(), RECEIPT_STATUS_IGNORED);
        let unreviewed = crate::text::str_eq(r.status.as_str(), RECEIPT_STATUS_UNREVIEWED);
        proof {
            reveal_strlit("ignored");
            reveal_strlit("unreviewed");
        }
        if (ignored && r.trashed_at.is_none()) || (unreviewed && r.trashed_at.is_some()) {
            ids.push(r.id);
        }
        i = i + 1;
    }
    assert(receipts@.take(n as int) =~= receipts@);
    ids
}

/// Puts `receipt` in the trash at `now`: its status becomes `ignored` and
/// its memo is replaced when `memo` is given.
pub fn trash_receipt_with_memo(receipt: &mut Receipt, memo: Option<String>, now: &str)
    ensures
        final(receipt).status@ == "ignored"@,
        final(receipt).trashed_at matches Some(t) && t@ == now@,
        final(receipt).memo == (match memo {
            Some(m) => Some(m),
            None => old(receipt).memo,
        }),
        final(receipt).updated_at@ == now@,
        final(receipt).id == old(receipt).id,
        final(receipt).trip_id == old(receipt).trip_id,
        final(receipt).day_id == old(receipt).day_id,
        final(receipt).amount == old(receipt).amount,
        final(receipt).currency == old(receipt).currency,
        final(receipt).occurred_date == old(receipt).occurred_date,
        final(receipt).created_at == old(receipt).created_at,
{
    receipt.status = String::from_str(RECEIPT_STATUS_IGNORED);
    receipt.trashed_at = Some(String::from_str(now));
    match memo {
        Some(m) => {
            receipt.memo = Some(m);
        },
        None => {},
    }
    receipt.updated_at = String::from_str(now);
    proof {
        reveal_strlit("ignored");
    }
}

/// Puts `receipt` in the trash at `now`, keeping its memo.
pub fn trash_receipt(receipt: &mut Receipt, now: &str)
    ensures
        final(receipt).status@ == "ignored"@,
        final(receipt).trashed_at matches Some(t) && t@ == now@,
        final(receipt).memo == old(receipt).memo,
        final(receipt).updated_at@ == now@,
        final(receipt).id == old(receipt).id,
        final(receipt).trip_id == old(receipt).trip_id,
        final(receipt).day_id == old(receipt).day_id,
        final(receipt).amount == old(receipt).amount,
        final(receipt).currency == old(receipt).currency,
        final(receipt).occurred_date == old(receipt).occurred_date,
        final(receipt).created_at == old(receipt).created_at,
{
    trash_receipt_with_memo(receipt, None, now);
}

/// `ignore` (the older name of `trash`): puts `receipt` in the trash at
/// `now`; a non-blank `memo` replaces its memo, trimmed.
pub fn ignore_receipt(receipt: &mut Receipt, memo: Option<&str>, now: &str)
    ensures
        final(receipt).status@ == "ignored"@,
        final(receipt).trashed_at matches Some(t) && t@ == now@,
        opt_string_view(final(receipt).memo) == (match normalized_memo(opt_view(memo)) {
            Some(m) => Some(m),
            None => opt_string_view(old(receipt).memo),
        }),
        final(receipt).updated_at@ == now@,
        final(receipt).id == old(receipt).id,
        final(receipt).trip_id == old(receipt).trip_id,
        final(receipt).day_id == old(receipt).day_id,
        final(receipt).amount == old(receipt).amount,
        final(receipt).currency == old(receipt).currency,
        final(receipt).occurred_date == old(receipt).occurred_date,
        final(receipt).created_at == old(receipt).created_at,
{
    let new_memo = match normalize_optional_memo(memo) {
        Ok(m) => m,
        Err(_) => None,
    };
    trash_receipt_with_memo(receipt, new_memo, now);
}

/// Takes `receipt` out of the trash at `now`: its status becomes
/// `unreviewed`; nothing else of it changes.
pub fn restore_receipt(receipt: &mut Receipt, now: &str)
    ensures
        final(receipt).status@ == "unreviewed"@,
        final(receipt).trashed_at is None,
        final(receipt).updated_at@ == now@,
        final(receipt).memo == old(receipt).memo,
        final(receipt).id == old(receipt).id,
        final(receipt).trip_id == old(receipt).trip_id,
        final(receipt).day_id == old(receipt).day_id,
        final(receipt).amount == old(receipt).amount,
        final(receipt).currency == old(receipt).currency,
        final(receipt).occurred_date == old(receipt).occurred_date,
        final(receipt).created_at == old(receipt).created_at,
{
    receipt.status = String::from_str(RECEIPT_STATUS_UNREVIEWED);
    receipt.trashed_at = None;
    receipt.updated_at = String::from_str(now);
    proof {
        reveal_strlit("unreviewed");
    }
}

// ---- terminal views ----

/// An optional amount with its currency, `-` unless both are known.
pub open spec fn receipt_amount_text(amount: Option<i64>, currency: Option<String>) -> Seq<char> {
    match (amount, currency) {
        (Some(v), Some(c)) => amount_display_text(v as int, c@),
        _ => "-"@,
    }
}

/// An optional day number, `-` when the receipt has no day.
pub open spec fn day_text(day: Option<i64>) -> Seq<char> {
    match day {
        Some(d) => int_text(d as int),
        None => "-"@,
    }
}

pub open spec fn receipt_header() -> Seq<char> {
    padded("ID"@, 4) + seq![' '] + padded("Status"@, 10) + seq![' '] + padded("Day"@, 6) + seq![' ']
        + padded("Amount"@, 16) + seq![' '] + padded("Date"@, 12) + seq![' '] + padded("Trash"@, 6)
        + seq![' '] + "Memo"@
}

pub open spec fn receipt_row_head(r: Receipt, day: Option<i64>) -> Seq<char> {
    padded(int_text(r.id as int), 4) + seq![' '] + padded(r.status@, 10) + seq![' '] + padded(
        day_text(day),
        6,
    ) + seq![' '] + padded(receipt_amount_text(r.amount, r.currency), 16) + seq![' ']
}

pub open spec fn receipt_row_tail(r: Receipt) -> Seq<char> {
    padded(dash_or(r.occurred_date), 12) + seq![' '] + padded(
        if r.trashed_at is Some {
            "yes"@
        } else {
            "-"@
        },
        6,
    ) + seq![' '] + dash_or(r.memo)
}

pub open spec fn receipt_row(r: Receipt, day: Option<i64>) -> Seq<char> {
    receipt_row_head(r, day) + receipt_row_tail(r)
}

/// The receipt table, given the day number of each receipt's day, or a
/// notice when there is no receipt.
pub open spec fn receipt_list_text(rs: Seq<Receipt>, days: Seq<Option<i64>>) -> Seq<Seq<char>> {
    if rs.len() == 0 {
        seq!["Receipt はまだ登録されていません。"@]
    } else {
        seq![receipt_header(), rule(72)] + Seq::new(rs.len(), |i: int| receipt_row(rs[i], days[i]))
            + seq![Seq::<char>::empty(), total_line(rs.len())]
    }
}

fn push_day_text(v: &mut Vec<char>, day: Option<i64>)
    ensures
        final(v)@ == old(v)@ + day_text(day),
{
    match day {
        Some(d) => push_int_text(v, d),
        None => push_str(v, "-"),
    }
}

fn receipt_header_line(lines: &mut Vec<String>)
    ensures
        strings_view(final(lines)@) == strings_view(old(lines)@).push(receipt_header()),
{
    let mut v: Vec<char> = Vec::new();
    push_padded_str(&mut v, "ID", 4);
    v.push(' ');
    push_padded_str(&mut v, "Status", 10);
    v.push(' ');
    push_padded_str(&mut v, "Day", 6);
    v.push(' ');
    push_padded_str(&mut v, "Amount", 16);
    v.push(' ');
    push_padded_str(&mut v, "Date", 12);
    v.push(' ');
    push_padded_str(&mut v, "Trash", 6);
    v.push(' ');
    push_str(&mut v, "Memo");
    assert(v@ =~= receipt_header());
    push_line(lines, v.as_slice());
}

fn push_receipt_row_head(v: &mut Vec<char>, r: &Receipt, day: Option<i64>)
    ensures
        final(v)@ == old(v)@ + receipt_row_head(*r, day),
{
    push_padded_int(v, r.id, 4);
    v.push(' ');
    push_padded_str(v, r.status.as_str(), 10);
    v.push(' ');
    let mut d: Vec<char> = Vec::new();
    push_day_text(&mut d, day);
    assert(d@ =~= day_text(day));
    push_padded(v, d.as_slice(), 6);
    v.push(' ');
    let amount = format_amount_optional(r.amount, &r.currency);
    push_padded_str(v, amount.as_str(), 16);
    v.push(' ');
    assert(v@ =~= old(v)@ + receipt_row_head(*r, day));
}

fn push_receipt_row_tail(v: &mut Vec<char>, r: &Receipt)
    ensures
        final(v)@ == old(v)@ + receipt_row_tail(*r),
{
    push_padded_str(v, dash_or_str(&r.occurred_date), 12);
    v.push(' ');
    let trash = if r.trashed_at.is_some() {
        "yes"
    } else {
        "-"
    };
    push_padded_str(v, trash, 6);
    v.push(' ');
    push_str(v, dash_or_str(&r.memo));
    assert(v@ =~= old(v)@ + receipt_row_tail(*r));
}

fn receipt_row_line(lines: &mut Vec<String>, r: &Receipt, day: Option<i64>)
    ensures
        strings_view(final(lines)@) == strings_view(old(lines)@).push(receipt_row(*r, day)),
{
    let mut v: Vec<char> = Vec::new();
    push_receipt_row_head(&mut v, r, day);
    push_receipt_row_tail(&mut v, r);
    assert(v@ =~= receipt_row(*r, day));
    push_line(lines, v.as_slice());
}

/// The lines of the receipt table; `day_numbers[i]` is the day number of
/// the day of `receipts[i]`, if it has one.
pub fn receipt_list_lines(receipts: &[Receipt], day_numbers: &[Option<i64>]) -> (lines: Vec<String>)
    requires
        day_numbers@.len() == receipts@.len(),
    ensures
        strings_view(lines@) == receipt_list_text(receipts@, day_numbers@),
{
    let mut lines: Vec<String> = Vec::new();
    if receipts.len() == 0 {
        push_text_line(&mut lines, "Receipt はまだ登録されていません。");
        assert(strings_view(lines@) =~= receipt_list_text(receipts@, day_numbers@));
        return lines;
    }
    receipt_header_line(&mut lines);
    push_rule(&mut lines, 72);
    let ghost head = strings_view(lines@);
    let n = receipts.len();
    let mut i: usize = 0;
    while i < n
        invariant
            n == receipts@.len(),
            n == day_numbers@.len(),
            i <= n,
            strings_view(lines@) == head + Seq::new(
                i as nat,
                |k: int| receipt_row(receipts@[k], day_numbers@[k]),
            ),
        decreases n - i,
    {
        receipt_row_line(&mut lines, &receipts[i], day_numbers[i]);
        assert(Seq::new((i + 1) as nat, |k: int| receipt_row(receipts@[k], day_numbers@[k]))
            =~= Seq::new(i as nat, |k: int| receipt_row(receipts@[k], day_numbers@[k])).push(
            receipt_row(receipts@[i as int], day_numbers@[i as int]),
        ));
        i = i + 1;
    }
    let empty: Vec<char> = Vec::new();
    push_line(&mut lines, empty.as_slice());
    push_total_line(&mut lines, n);
    assert(strings_view(lines@) =~= receipt_list_text(receipts@, day_numbers@));
    lines
}

/// The detail view of one receipt, given the day number of its day.
pub open spec fn receipt_detail_text(r: Receipt, day: Option<i64>) -> Seq<Seq<char>> {
    seq![
        "ID              : "@ + int_text(r.id as int),
        "Trip ID         : "@ + int_text(r.trip_id as int),
        "Day             : "@ + day_text(day),
        "Amount          : "@ + receipt_amount_text(r.amount, r.currency),
        "Currency        : "@ + dash_or(r.currency),
        "Occurred date   : "@ + dash_or(r.occurred_date),
        "Trashed at      : "@ + dash_or(r.trashed_at),
        "Memo            : "@ + dash_or(r.memo),
        "Status          : "@ + r.status@,
        "Created at      : "@ + r.created_at@,
        "Updated at      : "@ + r.updated_at@,
    ]
}

pub fn receipt_detail_lines(r: &Receipt, day_number: Option<i64>) -> (lines: Vec<String>)
    ensures
        strings_view(lines@) == receipt_detail_text(*r, day_number),
{
    let mut lines: Vec<String> = Vec::new();
    push_labelled_int(&mut lines, "ID              : ", r.id);
    push_labelled_int(&mut lines, "Trip ID         : ", r.trip_id);
    let mut d: Vec<char> = Vec::new();
    push_day_text(&mut d, day_number);
    assert(d@ =~= day_text(day_number));
    push_labelled(&mut lines, "Day             : ", d.as_slice());
    let amount = format_amount_optional(r.amount, &r.currency);
    push_labelled_str(&mut lines, "Amount          : ", amount.as_str());
    push_labelled_str(&mut lines, "Currency        : ", dash_or_str(&r.currency));
    push_labelled_str(&mut lines, "Occurred date   : ", dash_or_str(&r.occurred_date));
    push_labelled_str(&mut lines, "Trashed at      : ", dash_or_str(&r.trashed_at));
    push_labelled_str(&mut lines, "Memo            : ", dash_or_str(&r.memo));
    push_labelled_str(&mut lines, "Status          : ", r.status.as_str());
    push_labelled_str(&mut lines, "Created at      : ", r.created_at.as_str());
    push_labelled_str(&mut lines, "Updated at      : ", r.updated_at.as_str());
    assert(strings_view(lines@) =~= receipt_detail_text(*r, day_number));
    lines
}

/// The lines of the pending summary: the counts, then `Totals: -` or one
/// line per currency, then a blank line.
pub open spec fn pending_summary_text(
    active: nat,
    without: nat,
    totals: Seq<(Seq<char>, i64)>,
) -> Seq<Seq<char>> {
    seq![
        "Pending Receipts:"@,
        "  Count: "@ + nat_text(active),
        "  Without amount: "@ + nat_text(without),
    ] + (if totals.len() == 0 {
        seq!["  Totals: -"@]
    } else {
        seq!["  Totals:"@] + Seq::new(
            totals.len(),
            |i: int| "    - "@ + amount_display_text(totals[i].1 as int, totals[i].0),
        )
    }) + seq![Seq::<char>::empty()]
}

pub fn pending_receipt_summary_lines(summary: &PendingReceiptSummary) -> (lines: Vec<String>)
    ensures
        strings_view(lines@) == pending_summary_text(
            summary.active_count as nat,
            summary.without_amount_count as nat,
            totals_view(summary.totals_by_currency@),
        ),
{
    let ghost t = totals_view(summary.totals_by_currency@);
    let mut lines: Vec<String> = Vec::new();
    push_text_line(&mut lines, "Pending Receipts:");
    let mut c: Vec<char> = Vec::new();
    push_nat_text(&mut c, summary.active_count as u64);
    push_labelled(&mut lines, "  Count: ", c.as_slice());
    let mut w: Vec<char> = Vec::new();
    push_nat_text(&mut w, summary.without_amount_count as u64);
    push_labelled(&mut lines, "  Without amount: ", w.as_slice());
    let n = summary.totals_by_currency.len();
    if n == 0 {
        push_text_line(&mut lines, "  Totals: -");
    } else {
        push_text_line(&mut lines, "  Totals:");
        let ghost head2 = strings_view(lines@);
        let mut i: usize = 0;
        while i < n
            invariant
                n == summary.totals_by_currency@.len(),
                t == totals_view(summary.totals_by_currency@),
                i <= n,
                strings_view(lines@) == head2 + Seq::new(
                    i as nat,
                    |k: int| "    - "@ + amount_display_text(t[k].1 as int, t[k].0),
                ),
            decreases n - i,
        {
            let entry = &summary.totals_by_currency[i];
            let amount = format_amount_display(entry.1, entry.0.as_str());
            push_labelled_str(&mut lines, "    - ", amount.as_str());
            assert(Seq::new(
                (i + 1) as nat,
                |k: int| "    - "@ + amount_display_text(t[k].1 as int, t[k].0),
            ) =~= Seq::new(
                i as nat,
                |k: int| "    - "@ + amount_display_text(t[k].1 as int, t[k].0),
            ).push("    - "@ + amount_display_text(t[i as int].1 as int, t[i as int].0)));
            i = i + 1;
        }
    }
    let empty: Vec<char> = Vec::new();
    push_line(&mut lines, empty.as_slice());
    assert(strings_view(lines@) =~= pending_summary_text(
        summary.active_count as nat,
        summary.without_amount_count as nat,
        t,
    ));
    lines
}

// ---- export ----

/// What an export may write for the stored timestamp `ts`: an RFC 3339
/// timestamp stays as it is, and so does text that is not a local
/// `YYYY-MM-DD HH:MM:SS` time; such a local time is either written as that
/// date-time with a `T` and the machine's UTC offset, or (when the machine's
/// zone skips or repeats it) kept as it is.
pub open spec fn export_timestamp(ts: Seq<char>, s: Seq<char>) -> bool {
    if rfc3339_accepts(ts) {
        s == ts
    } else {
        match naive_datetime_parts(ts, "%Y-%m-%d %H:%M:%S"@) {
            None => s == ts,
            Some((d, h, m)) => s == ts || local_rfc3339_form(s, d, h, m),
        }
    }
}

/// The export text of `ts`, given whether it reads as RFC 3339 and what
/// writing it as a local date-time in RFC 3339 gave.
pub fn export_timestamp_from(ts: &str, is_rfc: bool, local: Option<String>) -> (s: String)
    ensures
        s@ == if is_rfc {
            ts@
        } else {
            match local {
                Some(t) => t@,
                None => ts@,
            }
        },
{
    if is_rfc {
        return ts.to_owned();
    }
    match local {
        Some(t) => t,
        None => ts.to_owned(),
    }
}

/// A stored timestamp as written in an export.
pub fn format_db_timestamp_for_export(ts: &str) -> (s: String)
    ensures
        export_timestamp(ts@, s@),
{
    let is_rfc = is_rfc3339(ts);
    let local = if is_rfc {
        None
    } else {
        local_datetime_to_rfc3339(ts)
    };
    export_timestamp_from(ts, is_rfc, local)
}

/// The export form of `receipt`; `day_number` is the day number of the
/// receipt's day, looked up when it has one. Refused when its status is
/// not a receipt status.
pub fn build_export_receipt_v7(receipt: &Receipt, day_number: Option<i64>) -> (r: Result<
    ExportReceiptV7,
    ReceiptError,
>)
    ensures
        r is Ok <==> is_receipt_status(receipt.status@),
        r matches Err(e) ==> e@ == ReceiptFault::InvalidStatus(receipt.status@),
        r matches Ok(x) ==> {
            &&& x.day_ref == match (receipt.day_id, day_number) {
                (Some(_), Some(n)) => Some(ExportReceiptDayRef { day_number: n }),
                _ => None::<ExportReceiptDayRef>,
            }
            &&& x.trashed_at is Some == receipt.trashed_at is Some
            &&& (x.trashed_at is Some ==> export_timestamp(
                receipt.trashed_at->Some_0@,
                x.trashed_at->Some_0@,
            ))
            &&& x.amount == receipt.amount
            &&& x.currency == receipt.currency
            &&& x.occurred_date == receipt.occurred_date
            &&& x.memo == receipt.memo
            &&& x.status == receipt.status
        },
{
    match validate_receipt_status(receipt.status.as_str()) {
        Ok(()) => {},
        Err(e) => return Err(e),
    }
    let day_ref = match (receipt.day_id, day_number) {
        (Some(_), Some(n)) => Some(ExportReceiptDayRef { day_number: n }),
        _ => None,
    };
    let trashed_at = match &receipt.trashed_at {
        Some(t) => Some(format_db_timestamp_for_export(t.as_str())),
        None => None,
    };
    Ok(ExportReceiptV7 {
        day_ref,
        trashed_at,
        amount: receipt.amount,
        currency: receipt.currency.clone(),
        occurred_date: receipt.occurred_date.clone(),
        memo: receipt.memo.clone(),
        status: receipt.status.clone(),
    })
}

// ---- listing ----

/// Whether a receipt is listed: in the trash only when asked for
/// (`trashed_only`), out of it unless the trash is included, and of the
/// given status when one is given.
pub open spec fn receipt_listed(
    r: Receipt,
    status: Option<Seq<char>>,
    include_trashed: bool,
    trashed_only: bool,
) -> bool {
    &&& if trashed_only {
        r.trashed_at is Some
    } else if !include_trashed {
        r.trashed_at is None
    } else {
        true
    }
    &&& status matches Some(s) ==> r.status@ == s
}

/// A copy of `r`.
pub fn copy_receipt(r: &Receipt) -> (c: Receipt)
    ensures
        c == *r,
{
    Receipt {
        id: r.id,
        trip_id: r.trip_id,
        day_id: r.day_id,
        trashed_at: r.trashed_at.clone(),
        amount: r.amount,
        currency: r.currency.clone(),
        occurred_date: r.occurred_date.clone(),
        memo: r.memo.clone(),
        status: r.status.clone(),
        created_at: r.created_at.clone(),
        updated_at: r.updated_at.clone(),
    }
}

/// The receipts of a trip that a listing shows, by id; refused when the
/// status asked for is not a receipt status.
pub fn list_receipts_for_trip(
    receipts: &[Receipt],
    status_filter: Option<&str>,
    include_trashed: bool,
    trashed_only: bool,
) -> (r: Result<Vec<Receipt>, ReceiptError>)
    ensures
        r is Err <==> (status_filter matches Some(s) && !is_receipt_status(s@)),
        r matches Err(e) ==> e@ == ReceiptFault::InvalidStatus(status_filter->Some_0@),
        r matches Ok(v) ==> stably_sorted(
            v@,
            v@.map_values(|x: Receipt| receipt_order_key(x)),
            receipts@.filter(
                |x: Receipt| receipt_listed(x, opt_view(status_filter), include_trashed, trashed_only),
            ),
            receipts@.filter(
                |x: Receipt| receipt_listed(x, opt_view(status_filter), include_trashed, trashed_only),
            ).map_values(|x: Receipt| receipt_order_key(x)),
        ),
{
    match status_filter {
        Some(s) => match validate_receipt_status(s) {
            Ok(()) => {},
            Err(e) => return Err(e),
        },
        None => {},
    }
    let ghost pred = |x: Receipt| receipt_listed(x, opt_view(status_filter), include_trashed, trashed_only);
    let mut kept: Vec<Receipt> = Vec::new();
    let n = receipts.len();
    let mut i: usize = 0;
    while i < n
        invariant
            n == receipts@.len(),
            i <= n,
            kept@ == receipts@.take(i as int).filter(pred),
            forall|x: Receipt| #[trigger] pred(x) == receipt_listed(
                x,
                opt_view(status_filter),
                include_trashed,
                trashed_only,
            ),
        decreases n - i,
    {
        let x = &receipts[i];
        let trash_ok = if trashed_only {
            x.trashed_at.is_some()
        } else if !include_trashed {
            x.trashed_at.is_none()
        } else {
            true
        };
        let status_ok = match status_filter {
            Some(s) => crate::text::str_eq(x.status.as_str(), s),
            None => true,
        };
        assert(receipts@.take(i + 1).drop_last() =~= receipts@.take(i as int));
        reveal(Seq::filter);
        if trash_ok && status_ok {
            kept.push(copy_receipt(x));
        }
        i = i + 1;
    }
    assert(receipts@.take(n as int) =~= receipts@);
    sort_receipts(&mut kept);
    Ok(kept)
}

/// Fields as the receipt rules leave them: amount and currency together
/// (a blank currency counts as none), a memo or an amount, and a calendar
/// date when there is a date.
pub open spec fn receipt_fields_valid(
    amount: Option<int>,
    currency: Option<Seq<char>>,
    occurred_date: Option<Seq<char>>,
    memo: Option<Seq<char>>,
) -> bool {
    &&& !(amount is Some && currency is None)
    &&& !(amount is None && (currency matches Some(c) && trim(c).len() > 0))
    &&& !(memo is None && amount is None)
    &&& occurred_date matches Some(d) ==> crate::calendar::ymd_date_text(d) is Some
}

/// A stored receipt as the receipt rules leave it.
pub open spec fn receipt_is_valid(r: Receipt) -> bool {
    &&& is_receipt_status(r.status@)
    &&& receipt_fields_valid(
        opt_int(r.amount),
        opt_string_view(r.currency),
        opt_string_view(r.occurred_date),
        opt_string_view(r.memo),
    )
}

/// A receipt that adding accepts follows the receipt rules.
pub proof fn lemma_new_receipt_valid(
    amount: Option<Seq<char>>,
    currency: Option<Seq<char>>,
    occurred_date: Option<Seq<char>>,
    memo: Option<Seq<char>>,
)
    requires
        new_receipt_result(amount, currency, occurred_date, memo) is Ok,
    ensures
        ({
            let (a, c, m) = new_receipt_result(amount, currency, occurred_date, memo)->Ok_0;
            receipt_fields_valid(a, c, occurred_date, m)
        }),
{
}

/// An update that the rules accept keeps a valid receipt valid.
pub proof fn lemma_update_keeps_receipt_valid(
    existing: Receipt,
    day_number: Option<i64>,
    amount: Option<Seq<char>>,
    currency: Option<Seq<char>>,
    occurred_date: Option<Option<Seq<char>>>,
    memo: Option<Option<Seq<char>>>,
    clear_day: bool,
    clear_amount_currency: bool,
    requested_day_id: Option<i64>,
)
    requires
        receipt_is_valid(existing),
        receipt_update_result(
            existing,
            day_number,
            amount,
            currency,
            occurred_date,
            memo,
            clear_day,
            clear_amount_currency,
            requested_day_id,
        ) is Ok,
    ensures
        ({
            let (_, a, c, d, m) = receipt_update_result(
                existing,
                day_number,
                amount,
                currency,
                occurred_date,
                memo,
                clear_day,
                clear_amount_currency,
                requested_day_id,
            )->Ok_0;
            receipt_fields_valid(a, c, d, m)
        }),
{
}

/// A receipt that importing accepts follows the receipt rules.
pub proof fn lemma_imported_receipt_valid(e: ExportReceiptV7)
    requires
        receipt_import_fault(e) is None,
    ensures
        is_receipt_status(import_status(e.status@)->Some_0),
        receipt_fields_valid(
            opt_int(e.amount),
            opt_string_view(e.currency),
            opt_string_view(e.occurred_date),
            opt_string_view(e.memo),
        ),
{
    reveal_strlit("unreviewed");
    reveal_strlit("ignored");
}

/// A valid receipt, exported as `build_export_receipt_v7` writes it, is read
/// back: the import accepts it and keeps its status.
pub proof fn lemma_export_import_round_trip(r: Receipt, e: ExportReceiptV7)
    requires
        receipt_is_valid(r),
        e.status == r.status,
        e.amount == r.amount,
        e.currency == r.currency,
        e.occurred_date == r.occurred_date,
        e.memo == r.memo,
    ensures
        receipt_import_fault(e) is None,
        import_status(e.status@) == Some(r.status@),
{
}

} // verus!
