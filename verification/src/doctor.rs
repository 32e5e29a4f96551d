//! The trip doctor: per-day checks of a trip's itinerary (too many items,
//! no meal planned, too much travel) and a count of items without a
//! duration estimate.

use vstd::prelude::*;
use crate::models::{ItineraryCategory, ItineraryItem};
use crate::text::{
    int_text, nat_text, push_int_text, push_line, push_nat_text, push_str, strings_view,
};

verus! {

/// A day with this many itinerary items or more is overloaded.
pub const MAX_ITINERARIES_PER_DAY: usize = 7;

/// A day with this many travel minutes or more travels too much.
pub const MAX_TRAVEL_MINUTES_PER_DAY: i64 = 180;

/// The findings of the trip doctor.
#[derive(Clone, Debug)]
pub struct DoctorReport {
    pub warnings: Vec<String>,
    pub suggestions: Vec<String>,
    pub info: Vec<String>,
}

/// `{h}h{m}m` for a non-negative number of minutes; a zero part is left out
/// (`45m`, `3h`, `3h10m`).
pub open spec fn duration_text(minutes: int) -> Seq<char> {
    let h = minutes / 60;
    let m = minutes % 60;
    if h == 0 {
        nat_text(m as nat) + "m"@
    } else if m == 0 {
        nat_text(h as nat) + "h"@
    } else {
        nat_text(h as nat) + "h"@ + nat_text(m as nat) + "m"@
    }
}

/// A number of minutes as hours and minutes.
pub fn format_minutes_duration(minutes: i64) -> (s: String)
    requires
        minutes >= 0,
    ensures
        s@ == duration_text(minutes as int),
{
    let h = (minutes / 60) as u64;
    let m = (minutes % 60) as u64;
    let mut v: Vec<char> = Vec::new();
    if h == 0 {
        push_nat_text(&mut v, m);
        push_str(&mut v, "m");
    } else if m == 0 {
        push_nat_text(&mut v, h);
        push_str(&mut v, "h");
    } else {
        push_nat_text(&mut v, h);
        push_str(&mut v, "h");
        push_nat_text(&mut v, m);
        push_str(&mut v, "m");
    }
    assert(v@ =~= duration_text(minutes as int));
    crate::text::string_from_chars(v.as_slice())
}

pub open spec fn missing_duration_text(count: nat) -> Seq<char> {
    if count == 1 {
        "1 itinerary has no duration estimate"@
    } else {
        nat_text(count) + " itineraries have no duration estimate"@
    }
}

/// The warning about items without a duration estimate (singular for one).
pub fn format_missing_duration_warning(count: usize) -> (s: String)
    ensures
        s@ == missing_duration_text(count as nat),
{
    let mut v: Vec<char> = Vec::new();
    if count == 1 {
        push_str(&mut v, "1 itinerary has no duration estimate");
    } else {
        push_nat_text(&mut v, count as u64);
        push_str(&mut v, " itineraries have no duration estimate");
    }
    assert(v@ =~= missing_duration_text(count as nat));
    crate::text::string_from_chars(v.as_slice())
}

/// Number of the first `n` items on day `d`.
pub open spec fn day_count_upto(items: Seq<ItineraryItem>, d: i64, n: nat) -> nat
    decreases n,
{
    if n == 0 || n > items.len() {
        0
    } else {
        day_count_upto(items, d, (n - 1) as nat) + if items[n - 1].day == d {
            1nat
        } else {
            0nat
        }
    }
}

/// Travel minutes of the first `n` items on day `d`.
pub open spec fn day_travel_upto(items: Seq<ItineraryItem>, d: i64, n: nat) -> int
    decreases n,
{
    if n == 0 || n > items.len() {
        0
    } else {
        day_travel_upto(items, d, (n - 1) as nat) + if items[n - 1].day == d
            && items[n - 1].travel_minutes is Some {
            items[n - 1].travel_minutes->Some_0 as int
        } else {
            0
        }
    }
}

/// Number of the first `n` items without a duration estimate.
pub open spec fn missing_duration_upto(items: Seq<ItineraryItem>, n: nat) -> nat
    decreases n,
{
    if n == 0 || n > items.len() {
        0
    } else {
        missing_duration_upto(items, (n - 1) as nat) + if items[n - 1].duration_minutes is None {
            1nat
        } else {
            0nat
        }
    }
}

pub open spec fn day_has_restaurant(items: Seq<ItineraryItem>, d: i64) -> bool {
    exists|i: int|
        0 <= i < items.len() && #[trigger] items[i].day == d && items[i].category == Some(
            ItineraryCategory::Restaurant,
        )
}

pub open spec fn is_item_day(items: Seq<ItineraryItem>, d: i64) -> bool {
    exists|i: int| 0 <= i < items.len() && #[trigger] items[i].day == d
}

/// Summing each day's travel minutes in item order never leaves `i64`.
pub open spec fn travel_sums_fit(items: Seq<ItineraryItem>) -> bool {
    forall|d: i64, n: nat|
        n <= items.len() ==> i64::MIN <= #[trigger] day_travel_upto(items, d, n) <= i64::MAX
}

/// The warnings about day `d`.
pub open spec fn day_warnings(items: Seq<ItineraryItem>, d: i64) -> Seq<Seq<char>> {
    let count = day_count_upto(items, d, items.len());
    let travel = day_travel_upto(items, d, items.len());
    let many = if count >= MAX_ITINERARIES_PER_DAY {
        seq!["Day "@ + int_text(d as int) + " has many itineraries ("@ + nat_text(count) + ")"@]
    } else {
        Seq::<Seq<char>>::empty()
    };
    let meal = if !day_has_restaurant(items, d) {
        seq!["Day "@ + int_text(d as int) + " has no restaurant"@]
    } else {
        Seq::<Seq<char>>::empty()
    };
    let travel_w = if travel >= MAX_TRAVEL_MINUTES_PER_DAY {
        seq!["Day "@ + int_text(d as int) + " has high travel time ("@ + duration_text(travel)
            + ")"@]
    } else {
        Seq::<Seq<char>>::empty()
    };
    many + meal + travel_w
}

/// The suggestions about day `d`.
pub open spec fn day_suggestions(items: Seq<ItineraryItem>, d: i64) -> Seq<Seq<char>> {
    let travel = day_travel_upto(items, d, items.len());
    let meal = if !day_has_restaurant(items, d) {
        seq!["Consider adding a lunch or dinner plan to Day "@ + int_text(d as int)]
    } else {
        Seq::<Seq<char>>::empty()
    };
    let travel_s = if travel >= MAX_TRAVEL_MINUTES_PER_DAY {
        seq!["Consider reducing travel time on Day "@ + int_text(d as int)]
    } else {
        Seq::<Seq<char>>::empty()
    };
    meal + travel_s
}

pub open spec fn warnings_over(items: Seq<ItineraryItem>, days: Seq<i64>) -> Seq<Seq<char>>
    decreases days.len(),
{
    if days.len() == 0 {
        Seq::empty()
    } else {
        warnings_over(items, days.drop_last()) + day_warnings(items, days.last())
    }
}

pub open spec fn suggestions_over(items: Seq<ItineraryItem>, days: Seq<i64>) -> Seq<Seq<char>>
    decreases days.len(),
{
    if days.len() == 0 {
        Seq::empty()
    } else {
        suggestions_over(items, days.drop_last()) + day_suggestions(items, days.last())
    }
}

pub open spec fn strictly_increasing(s: Seq<i64>) -> bool {
    forall|i: int, j: int| 0 <= i < j < s.len() ==> s[i] < s[j]
}

/// `days` lists every day of the items once, in ascending order.
pub open spec fn sorted_item_days(items: Seq<ItineraryItem>, days: Seq<i64>) -> bool {
    &&& strictly_increasing(days)
    &&& forall|d: i64| #[trigger] days.contains(d) <==> is_item_day(items, d)
}

/// The doctor's findings for a trip with these items (in listing order).
pub open spec fn doctor_report_holds(
    items: Seq<ItineraryItem>,
    warnings: Seq<Seq<char>>,
    suggestions: Seq<Seq<char>>,
    info: Seq<Seq<char>>,
) -> bool {
    if items.len() == 0 {
        warnings.len() == 0 && suggestions.len() == 0 && info == seq!["No itinerary found."@]
    } else {
        let missing = missing_duration_upto(items, items.len());
        let tail = if missing > 0 {
            seq![missing_duration_text(missing)]
        } else {
            Seq::<Seq<char>>::empty()
        };
        &&& info.len() == 0
        &&& exists|days: Seq<i64>|
            sorted_item_days(items, days) && warnings == warnings_over(items, days) + tail
                && suggestions == suggestions_over(items, days)
    }
}

/// The smallest item day greater than `prev` (any item day when `prev` is none).
fn next_day_above(items: &[ItineraryItem], prev: Option<i64>) -> (r: Option<i64>)
    ensures
        match r {
            Some(d) => {
                &&& is_item_day(items@, d)
                &&& (prev matches Some(p) ==> d > p)
                &&& forall|e: i64|
                    is_item_day(items@, e) && (prev matches Some(p) ==> e > p) ==> d <= e
            },
            None => forall|e: i64| is_item_day(items@, e) ==> (prev matches Some(p) && e <= p),
        },
{
    let n = items.len();
    let mut best: Option<i64> = None;
    let mut i: usize = 0;
    while i < n
        invariant
            n == items@.len(),
            i <= n,
            match best {
                Some(d) => {
                    &&& is_item_day(items@, d)
                    &&& (prev matches Some(p) ==> d > p)
                    &&& forall|j: int|
                        0 <= j < i && (prev matches Some(p) ==> items@[j].day > p) ==> d
                            <= items@[j].day
                },
                None => forall|j: int|
                    0 <= j < i ==> (prev matches Some(p) && #[trigger] items@[j].day <= p),
            },
        decreases n - i,
    {
        let d = items[i].day;
        let above = match prev {
            Some(p) => d > p,
            None => true,
        };
        if above {
            match best {
                Some(b) => {
                    if d < b {
                        best = Some(d);
                    }
                },
                None => {
                    best = Some(d);
                },
            }
        }
        proof {
            assert(items@[i as int].day == d);
        }
        i = i + 1;
    }
    proof {
        match best {
            Some(d) => {
                assert forall|e: i64|
                    is_item_day(items@, e) && (prev matches Some(p) ==> e > p) implies d <= e by {
                    let j = choose|j: int| 0 <= j < items@.len() && #[trigger] items@[j].day == e;
                }
            },
            None => {
                assert forall|e: i64| is_item_day(items@, e) implies (prev matches Some(p) && e
                    <= p) by {
                    let j = choose|j: int| 0 <= j < items@.len() && #[trigger] items@[j].day == e;
                }
            },
        }
    }
    best
}

/// Every day of the items once, ascending.
fn sorted_days(items: &[ItineraryItem]) -> (days: Vec<i64>)
    ensures
        sorted_item_days(items@, days@),
{
    let mut days: Vec<i64> = Vec::new();
    let mut prev: Option<i64> = None;
    loop
        invariant
            strictly_increasing(days@),
            forall|d: i64| #[trigger] days@.contains(d) ==> is_item_day(items@, d),
            match prev {
                None => days@.len() == 0,
                Some(p) => days@.len() > 0 && days@.last() == p && forall|d: i64|
                    is_item_day(items@, d) && d <= p ==> #[trigger] days@.contains(d),
            },
        decreases (i64::MAX as int) - (match prev {
            Some(p) => p as int,
            None => i64::MIN as int - 1,
        }),
    {
        match next_day_above(items, prev) {
            None => {
                proof {
                    assert forall|d: i64| is_item_day(items@, d) implies #[trigger] days@.contains(
                        d,
                    ) by {}
                }
                return days;
            },
            Some(d) => {
                let ghost old_days = days@;
                days.push(d);
                proof {
                    assert forall|x: i64| #[trigger] days@.contains(x) implies is_item_day(
                        items@,
                        x,
                    ) by {
                        if x != d {
                            let k = choose|k: int| 0 <= k < days@.len() && days@[k] == x;
                            assert(old_days.contains(x)) by {
                                assert(old_days[k] == x);
                            }
                        }
                    }
                    assert forall|x: i64| is_item_day(items@, x) && x <= d implies #[trigger] days@.contains(
                        x,
                    ) by {
                        if x == d {
                            assert(days@[days@.len() - 1] == d);
                        } else {
                            match prev {
                                Some(p) => {
                                    if x <= p {
                                        assert(old_days.contains(x));
                                        let k = choose|k: int| 0 <= k < old_days.len() && old_days[k] == x;
                                        assert(days@[k] == x);
                                    }
                                },
                                None => {},
                            }
                        }
                    }
                    assert forall|i: int, j: int| 0 <= i < j < days@.len() implies days@[i] < days@[j] by {
                        if j == days@.len() - 1 && i < j {
                            match prev {
                                Some(p) => {
                                    assert(old_days[i] <= p);
                                },
                                None => {},
                            }
                        }
                    }
                }
                prev = Some(d);
            },
        }
    }
}

/// Number of items, whether one is a restaurant, and total travel minutes, of day `d`.
fn day_stats(items: &[ItineraryItem], d: i64) -> (r: (usize, bool, i64))
    requires
        travel_sums_fit(items@),
    ensures
        r.0 == day_count_upto(items@, d, items@.len()),
        r.1 == day_has_restaurant(items@, d),
        r.2 == day_travel_upto(items@, d, items@.len()),
{
    let n = items.len();
    let mut count: usize = 0;
    let mut restaurant = false;
    let mut travel: i64 = 0;
    let mut i: usize = 0;
    while i < n
        invariant
            n == items@.len(),
            i <= n,
            travel_sums_fit(items@),
            count == day_count_upto(items@, d, i as nat),
            count <= i,
            travel == day_travel_upto(items@, d, i as nat),
            restaurant <==> exists|j: int|
                0 <= j < i && #[trigger] items@[j].day == d && items@[j].category == Some(
                    ItineraryCategory::Restaurant,
                ),
        decreases n - i,
    {
        let item = &items[i];
        if item.day == d {
            count = count + 1;
            match item.travel_minutes {
                Some(t) => {
                    assert(i64::MIN <= day_travel_upto(items@, d, (i + 1) as nat) <= i64::MAX);
                    travel = travel + t;
                },
                None => {},
            }
            match item.category {
                Some(ItineraryCategory::Restaurant) => {
                    restaurant = true;
                },
                _ => {},
            }
        }
        i = i + 1;
    }
    (count, restaurant, travel)
}

fn push_day_line(lines: &mut Vec<String>, before: &str, d: i64, after_text: &[char])
    ensures
        strings_view(final(lines)@) == strings_view(old(lines)@).push(
            before@ + int_text(d as int) + after_text@,
        ),
{
    let mut v: Vec<char> = Vec::new();
    push_str(&mut v, before);
    push_int_text(&mut v, d);
    crate::text::push_chars(&mut v, after_text);
    assert(v@ =~= before@ + int_text(d as int) + after_text@);
    push_line(lines, v.as_slice());
}

/// Appends the warnings and suggestions about day `d`.
fn push_day_findings(
    warnings: &mut Vec<String>,
    suggestions: &mut Vec<String>,
    items: &[ItineraryItem],
    d: i64,
)
    requires
        travel_sums_fit(items@),
    ensures
        strings_view(final(warnings)@) == strings_view(old(warnings)@) + day_warnings(items@, d),
        strings_view(final(suggestions)@) == strings_view(old(suggestions)@) + day_suggestions(
            items@,
            d,
        ),
{
    let ghost w0 = strings_view(warnings@);
    let ghost s0 = strings_view(suggestions@);
        let (count, restaurant, travel) = day_stats(items, d);
        if count >= MAX_ITINERARIES_PER_DAY {
            let mut tail: Vec<char> = Vec::new();
            push_str(&mut tail, " has many itineraries (");
            push_nat_text(&mut tail, count as u64);
            push_str(&mut tail, ")");
            push_day_line(warnings, "Day ", d, tail.as_slice());
        }
        if !restaurant {
            let tail = crate::text::chars_of(" has no restaurant");
            push_day_line(warnings, "Day ", d, tail.as_slice());
            let empty: Vec<char> = Vec::new();
            push_day_line(
                suggestions,
                "Consider adding a lunch or dinner plan to Day ",
                d,
                empty.as_slice(),
            );
        }
        if travel >= MAX_TRAVEL_MINUTES_PER_DAY {
            let dur = format_minutes_duration(travel);
            let mut tail: Vec<char> = Vec::new();
            push_str(&mut tail, " has high travel time (");
            push_str(&mut tail, dur.as_str());
            push_str(&mut tail, ")");
            push_day_line(warnings, "Day ", d, tail.as_slice());
            let empty: Vec<char> = Vec::new();
            push_day_line(
                suggestions,
                "Consider reducing travel time on Day ",
                d,
                empty.as_slice(),
            );
        }
    assert(strings_view(warnings@) =~~= w0 + day_warnings(items@, d));
    assert(strings_view(suggestions@) =~~= s0 + day_suggestions(items@, d));
}

proof fn lemma_warnings_over_has(items: Seq<ItineraryItem>, days: Seq<i64>, d: i64, w: Seq<char>)
    requires
        days.contains(d),
        day_warnings(items, d).contains(w),
    ensures
        warnings_over(items, days).contains(w),
    decreases days.len(),
{
    let prev = days.drop_last();
    let k = choose|k: int| 0 <= k < day_warnings(items, d).len() && day_warnings(items, d)[k] == w;
    if days.last() == d {
        let all = warnings_over(items, prev) + day_warnings(items, d);
        assert(all[warnings_over(items, prev).len() + k] == w);
    } else {
        let j = choose|j: int| 0 <= j < days.len() && days[j] == d;
        assert(prev[j] == d);
        lemma_warnings_over_has(items, prev, d, w);
        let i = choose|i: int| 0 <= i < warnings_over(items, prev).len() && warnings_over(items, prev)[i] == w;
        let all = warnings_over(items, prev) + day_warnings(items, days.last());
        assert(all[i] == w);
    }
}

proof fn lemma_suggestions_over_has(items: Seq<ItineraryItem>, days: Seq<i64>, d: i64, w: Seq<char>)
    requires
        days.contains(d),
        day_suggestions(items, d).contains(w),
    ensures
        suggestions_over(items, days).contains(w),
    decreases days.len(),
{
    let prev = days.drop_last();
    let k = choose|k: int| 0 <= k < day_suggestions(items, d).len() && day_suggestions(items, d)[k] == w;
    if days.last() == d {
        let all = suggestions_over(items, prev) + day_suggestions(items, d);
        assert(all[suggestions_over(items, prev).len() + k] == w);
    } else {
        let j = choose|j: int| 0 <= j < days.len() && days[j] == d;
        assert(prev[j] == d);
        lemma_suggestions_over_has(items, prev, d, w);
        let i = choose|i: int| 0 <= i < suggestions_over(items, prev).len() && suggestions_over(items, prev)[i] == w;
        let all = suggestions_over(items, prev) + day_suggestions(items, days.last());
        assert(all[i] == w);
    }
}

/// Every day of the trip on which no item is a restaurant, whatever else
/// its items are (a hotel, a sight, ...), is reported: the warnings say
/// `Day d has no restaurant` and the suggestions propose a lunch or dinner
/// plan for that day.
pub proof fn lemma_day_without_restaurant_reported(
    items: Seq<ItineraryItem>,
    warnings: Seq<Seq<char>>,
    suggestions: Seq<Seq<char>>,
    info: Seq<Seq<char>>,
    d: i64,
)
    requires
        doctor_report_holds(items, warnings, suggestions, info),
        exists|i: int| 0 <= i < items.len() && #[trigger] items[i].day == d,
        forall|i: int|
            0 <= i < items.len() && #[trigger] items[i].day == d ==> items[i].category != Some(
                ItineraryCategory::Restaurant,
            ),
    ensures
        warnings.contains("Day "@ + int_text(d as int) + " has no restaurant"@),
        suggestions.contains("Consider adding a lunch or dinner plan to Day "@ + int_text(d as int)),
{
    let w = "Day "@ + int_text(d as int) + " has no restaurant"@;
    let sg = "Consider adding a lunch or dinner plan to Day "@ + int_text(d as int);
    assert(is_item_day(items, d));
    assert(!day_has_restaurant(items, d));
    let days = choose|days: Seq<i64>|
        sorted_item_days(items, days) && warnings == warnings_over(items, days) + (if missing_duration_upto(items, items.len()) > 0 {
            seq![missing_duration_text(missing_duration_upto(items, items.len()))]
        } else {
            Seq::<Seq<char>>::empty()
        }) && suggestions == suggestions_over(items, days);
    assert(days.contains(d));
    let dw = day_warnings(items, d);
    let count = day_count_upto(items, d, items.len());
    let many = if count >= MAX_ITINERARIES_PER_DAY {
        seq!["Day "@ + int_text(d as int) + " has many itineraries ("@ + nat_text(count) + ")"@]
    } else {
        Seq::<Seq<char>>::empty()
    };
    assert(dw[many.len() as int] == w);
    lemma_warnings_over_has(items, days, d, w);
    let i = choose|i: int| 0 <= i < warnings_over(items, days).len() && warnings_over(items, days)[i] == w;
    assert(warnings[i] == w);
    let ds = day_suggestions(items, d);
    assert(ds[0] == sg);
    lemma_suggestions_over_has(items, days, d, sg);
}

/// Two lines `Day {a}{s1}` and `Day {b}{s2}`, where both rests start with a
/// space, are the same only for the same day and the same rest.
proof fn lemma_day_line_split(a: i64, b: i64, s1: Seq<char>, s2: Seq<char>)
    requires
        s1.len() > 0 && s1[0] == ' ',
        s2.len() > 0 && s2[0] == ' ',
        "Day "@ + int_text(a as int) + s1 == "Day "@ + int_text(b as int) + s2,
    ensures
        a == b,
        s1 == s2,
{
    reveal_strlit("Day ");
    let ta = int_text(a as int);
    let tb = int_text(b as int);
    let la = ta.len() as int;
    let lb = tb.len() as int;
    crate::text::lemma_int_text_shape(a as int);
    crate::text::lemma_int_text_shape(b as int);
    let x = "Day "@ + ta + s1;
    let y = "Day "@ + tb + s2;
    if la < lb {
        assert(x[4 + la] == s1[0]);
        assert(y[4 + la] == tb[la]);
        assert(crate::text::is_ascii_digit(tb[la]) || tb[la] == '-');
    } else if lb < la {
        assert(y[4 + lb] == s2[0]);
        assert(x[4 + lb] == ta[lb]);
        assert(crate::text::is_ascii_digit(ta[lb]) || ta[lb] == '-');
    }
    assert(x.subrange(4, 4 + la) =~= ta);
    assert(y.subrange(4, 4 + lb) =~= tb);
    crate::text::lemma_int_text_injective(a as int, b as int);
    assert(x.subrange(4 + la, x.len() as int) =~= s1);
    assert(y.subrange(4 + lb, y.len() as int) =~= s2);
}

proof fn lemma_warnings_over_from(items: Seq<ItineraryItem>, days: Seq<i64>, w: Seq<char>)
    requires
        warnings_over(items, days).contains(w),
    ensures
        exists|e: i64| days.contains(e) && #[trigger] day_warnings(items, e).contains(w),
    decreases days.len(),
{
    let prev = days.drop_last();
    let i = choose|i: int| 0 <= i < warnings_over(items, days).len() && warnings_over(items, days)[i] == w;
    let head = warnings_over(items, prev);
    let last = days.last();
    if i < head.len() {
        assert(head[i] == w);
        lemma_warnings_over_from(items, prev, w);
        let e = choose|e: i64| prev.contains(e) && #[trigger] day_warnings(items, e).contains(w);
        let j = choose|j: int| 0 <= j < prev.len() && prev[j] == e;
        assert(days[j] == e);
        assert(days.contains(e) && day_warnings(items, e).contains(w));
    } else {
        assert(day_warnings(items, last)[i - head.len()] == w);
        assert(days[days.len() - 1] == last);
        assert(days.contains(last) && day_warnings(items, last).contains(w));
    }
}

proof fn lemma_suggestions_over_from(items: Seq<ItineraryItem>, days: Seq<i64>, w: Seq<char>)
    requires
        suggestions_over(items, days).contains(w),
    ensures
        exists|e: i64| days.contains(e) && #[trigger] day_suggestions(items, e).contains(w),
    decreases days.len(),
{
    let prev = days.drop_last();
    let i = choose|i: int| 0 <= i < suggestions_over(items, days).len() && suggestions_over(items, days)[i] == w;
    let head = suggestions_over(items, prev);
    let last = days.last();
    if i < head.len() {
        assert(head[i] == w);
        lemma_suggestions_over_from(items, prev, w);
        let e = choose|e: i64| prev.contains(e) && #[trigger] day_suggestions(items, e).contains(w);
        let j = choose|j: int| 0 <= j < prev.len() && prev[j] == e;
        assert(days[j] == e);
        assert(days.contains(e) && day_suggestions(items, e).contains(w));
    } else {
        assert(day_suggestions(items, last)[i - head.len()] == w);
        assert(days[days.len() - 1] == last);
        assert(days.contains(last) && day_suggestions(items, last).contains(w));
    }
}

/// A day on which some item is a restaurant is never reported as having no
/// restaurant: no warning says `Day d has no restaurant` and no suggestion
/// proposes a lunch or dinner plan for it.
pub proof fn lemma_day_with_restaurant_not_reported(
    items: Seq<ItineraryItem>,
    warnings: Seq<Seq<char>>,
    suggestions: Seq<Seq<char>>,
    info: Seq<Seq<char>>,
    d: i64,
)
    requires
        doctor_report_holds(items, warnings, suggestions, info),
        exists|i: int|
            0 <= i < items.len() && #[trigger] items[i].day == d && items[i].category == Some(
                ItineraryCategory::Restaurant,
            ),
    ensures
        !warnings.contains("Day "@ + int_text(d as int) + " has no restaurant"@),
        !suggestions.contains("Consider adding a lunch or dinner plan to Day "@ + int_text(d as int)),
{
    reveal_strlit("Day ");
    reveal_strlit(" has no restaurant");
    reveal_strlit(" has many itineraries (");
    reveal_strlit(" has high travel time (");
    reveal_strlit("1 itinerary has no duration estimate");
    reveal_strlit("Consider adding a lunch or dinner plan to Day ");
    reveal_strlit("Consider reducing travel time on Day ");
    let x = "Day "@ + int_text(d as int) + " has no restaurant"@;
    let sg = "Consider adding a lunch or dinner plan to Day "@ + int_text(d as int);
    assert(day_has_restaurant(items, d));
    let missing = missing_duration_upto(items, items.len());
    let tail = if missing > 0 {
        seq![missing_duration_text(missing)]
    } else {
        Seq::<Seq<char>>::empty()
    };
    let days = choose|days: Seq<i64>|
        sorted_item_days(items, days) && warnings == warnings_over(items, days) + tail
            && suggestions == suggestions_over(items, days);
    let wo = warnings_over(items, days);
    if warnings.contains(x) {
        let k = choose|k: int| 0 <= k < warnings.len() && warnings[k] == x;
        if k >= wo.len() {
            let t = missing_duration_text(missing);
            assert(t == x);
            assert(x[0] == 'D');
            if missing == 1 {
                assert(t[0] == '1');
            } else {
                crate::text::lemma_nat_text_is_digits(missing);
                assert(t[0] == nat_text(missing)[0]);
                assert(crate::text::is_ascii_digit(t[0]));
            }
        } else {
            assert(wo[k] == x);
            lemma_warnings_over_from(items, days, x);
            let e = choose|e: i64| days.contains(e) && #[trigger] day_warnings(items, e).contains(x);
            let count = day_count_upto(items, e, items.len());
            let travel = day_travel_upto(items, e, items.len());
            let many = if count >= MAX_ITINERARIES_PER_DAY {
                seq!["Day "@ + int_text(e as int) + " has many itineraries ("@ + nat_text(count) + ")"@]
            } else {
                Seq::<Seq<char>>::empty()
            };
            let meal = if !day_has_restaurant(items, e) {
                seq!["Day "@ + int_text(e as int) + " has no restaurant"@]
            } else {
                Seq::<Seq<char>>::empty()
            };
            let travel_w = if travel >= MAX_TRAVEL_MINUTES_PER_DAY {
                seq!["Day "@ + int_text(e as int) + " has high travel time ("@ + duration_text(travel)
                    + ")"@]
            } else {
                Seq::<Seq<char>>::empty()
            };
            let dw = day_warnings(items, e);
            assert(dw == many + meal + travel_w);
            let j = choose|j: int| 0 <= j < dw.len() && dw[j] == x;
            let s1 = " has no restaurant"@;
            if j < many.len() {
                let s2 = " has many itineraries ("@ + nat_text(count) + ")"@;
                assert(many[j] == "Day "@ + int_text(e as int) + s2);
                lemma_day_line_split(d, e, s1, s2);
                assert(s1[5] == 'n');
                assert(s2[5] == 'm');
            } else if j < many.len() + meal.len() {
                assert(meal[j - many.len()] == "Day "@ + int_text(e as int) + s1);
                lemma_day_line_split(d, e, s1, s1);
            } else {
                let s2 = " has high travel time ("@ + duration_text(travel) + ")"@;
                assert(travel_w[j - many.len() - meal.len()] == "Day "@ + int_text(e as int) + s2);
                lemma_day_line_split(d, e, s1, s2);
                assert(s1[5] == 'n');
                assert(s2[5] == 'h');
            }
        }
    }
    if suggestions.contains(sg) {
        lemma_suggestions_over_from(items, days, sg);
        let e = choose|e: i64| days.contains(e) && #[trigger] day_suggestions(items, e).contains(sg);
        let travel = day_travel_upto(items, e, items.len());
        let meal = if !day_has_restaurant(items, e) {
            seq!["Consider adding a lunch or dinner plan to Day "@ + int_text(e as int)]
        } else {
            Seq::<Seq<char>>::empty()
        };
        let travel_s = if travel >= MAX_TRAVEL_MINUTES_PER_DAY {
            seq!["Consider reducing travel time on Day "@ + int_text(e as int)]
        } else {
            Seq::<Seq<char>>::empty()
        };
        let ds = day_suggestions(items, e);
        assert(ds == meal + travel_s);
        let j = choose|j: int| 0 <= j < ds.len() && ds[j] == sg;
        if j < meal.len() {
            let p = "Consider adding a lunch or dinner plan to Day "@;
            assert(meal[j] == p + int_text(e as int));
            assert((p + int_text(d as int)).subrange(p.len() as int, sg.len() as int) =~= int_text(d as int));
            assert((p + int_text(e as int)).subrange(p.len() as int, sg.len() as int) =~= int_text(e as int));
            crate::text::lemma_int_text_injective(d as int, e as int);
        } else {
            let r = "Consider reducing travel time on Day "@ + int_text(e as int);
            assert(travel_s[j - meal.len()] == r);
            assert(sg[9] == 'a');
            assert(r[9] == 'r');
        }
    }
}

/// The doctor's findings for the items of a trip, in listing order.
pub fn analyze_trip(items: &[ItineraryItem]) -> (r: DoctorReport)
    requires
        travel_sums_fit(items@),
    ensures
        doctor_report_holds(
            items@,
            strings_view(r.warnings@),
            strings_view(r.suggestions@),
            strings_view(r.info@),
        ),
{
    let mut warnings: Vec<String> = Vec::new();
    let mut suggestions: Vec<String> = Vec::new();
    let mut info: Vec<String> = Vec::new();
    if items.len() == 0 {
        let v = crate::text::chars_of("No itinerary found.");
        push_line(&mut info, v.as_slice());
        assert(strings_view(info@) =~= seq!["No itinerary found."@]);
        return DoctorReport { warnings, suggestions, info };
    }
    let days = sorted_days(items);
    let nd = days.len();
    let mut k: usize = 0;
    while k < nd
        invariant
            nd == days@.len(),
            k <= nd,
            travel_sums_fit(items@),
            strings_view(warnings@) == warnings_over(items@, days@.take(k as int)),
            strings_view(suggestions@) == suggestions_over(items@, days@.take(k as int)),
        decreases nd - k,
    {
        let d = days[k];
        push_day_findings(&mut warnings, &mut suggestions, items, d);
        proof {
            assert(days@.take(k + 1).drop_last() =~= days@.take(k as int));
            assert(days@.take(k + 1).last() == d);
        }
        k = k + 1;
    }
    let n = items.len();
    let mut missing: usize = 0;
    let mut i: usize = 0;
    while i < n
        invariant
            n == items@.len(),
            i <= n,
            missing == missing_duration_upto(items@, i as nat),
            missing <= i,
        decreases n - i,
    {
        if items[i].duration_minutes.is_none() {
            missing = missing + 1;
        }
        i = i + 1;
    }
    if missing > 0 {
        let line = format_missing_duration_warning(missing);
        let lc = crate::text::chars_of(line.as_str());
        push_line(&mut warnings, lc.as_slice());
    }
    proof {
        assert(days@.take(nd as int) =~= days@);
        let missing_n = missing_duration_upto(items@, items@.len());
        let tail = if missing_n > 0 {
            seq![missing_duration_text(missing_n)]
        } else {
            Seq::<Seq<char>>::empty()
        };
        assert(strings_view(warnings@) =~= warnings_over(items@, days@) + tail);
        assert(sorted_item_days(items@, days@));
    }
    DoctorReport { warnings, suggestions, info }
}

/// The sums are checked at the items that change them.
proof fn lemma_travel_sums_fit_from_items(items: Seq<ItineraryItem>, d: i64, n: nat)
    requires
        n <= items.len(),
        forall|i: int|
            0 <= i < items.len() ==> i64::MIN <= #[trigger] day_travel_upto(
                items,
                items[i].day,
                (i + 1) as nat,
            ) <= i64::MAX,
    ensures
        i64::MIN <= day_travel_upto(items, d, n) <= i64::MAX,
    decreases n,
{
    if n > 0 {
        if items[n - 1].day == d {
            let i = n - 1;
            assert(((i + 1) as nat) == n);
            assert(i64::MIN <= day_travel_upto(items, items[i].day, (i + 1) as nat) <= i64::MAX);
        } else {
            lemma_travel_sums_fit_from_items(items, d, (n - 1) as nat);
        }
    }
}

/// Whether `analyze_trip` can sum each day's travel minutes in `i64`.
pub fn travel_sums_within_range(items: &[ItineraryItem]) -> (b: bool)
    ensures
        b == travel_sums_fit(items@),
{
    let n = items.len();
    let mut i: usize = 0;
    while i < n
        invariant
            n == items@.len(),
            i <= n,
            forall|k: int|
                0 <= k < i ==> i64::MIN <= #[trigger] day_travel_upto(
                    items@,
                    items@[k].day,
                    (k + 1) as nat,
                ) <= i64::MAX,
        decreases n - i,
    {
        let d = items[i].day;
        let mut sum: i64 = 0;
        let mut j: usize = 0;
        while j < i
            invariant
                n == items@.len(),
                j <= i < n,
                d == items@[i as int].day,
                sum == day_travel_upto(items@, d, j as nat),
                forall|k: int|
                    0 <= k < i ==> i64::MIN <= #[trigger] day_travel_upto(
                        items@,
                        items@[k].day,
                        (k + 1) as nat,
                    ) <= i64::MAX,
            decreases i - j,
        {
            if items[j].day == d {
                match items[j].travel_minutes {
                    Some(t) => {
                        assert(i64::MIN <= day_travel_upto(items@, items@[j as int].day, (j + 1) as nat)
                            <= i64::MAX);
                        sum = sum + t;
                    },
                    None => {},
                }
            }
            j = j + 1;
        }
        match items[i].travel_minutes {
            Some(t) => {
                match sum.checked_add(t) {
                    Some(_) => {},
                    None => {
                        proof {
                            assert(!(i64::MIN <= day_travel_upto(items@, d, (i + 1) as nat)
                                <= i64::MAX));
                        }
                        return false;
                    },
                }
            },
            None => {},
        }
        proof {
            assert(i64::MIN <= day_travel_upto(items@, items@[i as int].day, (i + 1) as nat)
                <= i64::MAX);
        }
        i = i + 1;
    }
    proof {
        assert forall|d: i64, m: nat| m <= items@.len() implies i64::MIN
            <= #[trigger] day_travel_upto(items@, d, m) <= i64::MAX by {
            lemma_travel_sums_fit_from_items(items@, d, m);
        }
    }
    true
}

} // verus!
