//! Presentation rules of the travel book shared by every renderer: which
//! sections are worth showing, how days, planned costs, categories, notes
//! and reservations are labelled.

use vstd::prelude::*;
use std::collections::{BTreeMap, HashMap};
use crate::models::{
    category_display_name, Day, Estimate, ExportNote, ItineraryCategory, ItineraryItem, Participant, Trip,
};
use crate::calendar::{naive_datetime_parts, parse_naive_datetime, parse_ymd_date, ymd_date_text};
use crate::summary::opt_string_view;
use crate::text::{
    nat_text, push_padded2, zero_pad,
    chars_of, contains, contains_chars, int_text, push_int_text, push_str, string_from_chars, trim,
    trim_bounds, trim_chars,
};

verus! {

/// Figures about a trip.
pub struct TripStats {
    pub trip_name: String,
    pub days: i64,
    pub itinerary_count: usize,
    pub checklist_completed: usize,
    pub checklist_total: usize,
    pub category_counts: HashMap<String, usize>,
    pub stay_minutes: i64,
    pub travel_minutes: i64,
    pub total_minutes: i64,
    pub expense_count: usize,
    pub expense_totals: BTreeMap<String, i64>,
    pub estimate_count: usize,
    pub estimate_totals: BTreeMap<String, i64>,
    pub difference_totals: Option<BTreeMap<String, i64>>,
    pub registered_participant_count: usize,
    pub participants_recorded: bool,
    pub self_known: bool,
    pub participant_count: Option<usize>,
    pub traveler_count: Option<usize>,
    pub companion_count: Option<usize>,
}

impl TripStats {
    /// Total planned minutes (stay and travel together).
    pub fn total_minutes(&self) -> (m: i64)
        ensures
            m == self.total_minutes,
    {
        self.total_minutes
    }
}

/// Whether an optional text holds something besides white space.
pub open spec fn has_text(t: Option<String>) -> bool {
    t matches Some(s) && trim(s@).len() > 0
}

fn has_text_of(t: &Option<String>) -> (b: bool)
    ensures
        b == has_text(*t),
{
    match t {
        Some(s) => {
            let all = chars_of(s.as_str());
            let tt = trim_chars(all.as_slice());
            tt.len() > 0
        },
        None => false,
    }
}

/// Whether the trip overview section has anything to show.
pub fn trip_overview_worth_showing(
    trip: &Trip,
    participants: &[Participant],
    stats: &TripStats,
) -> (b: bool)
    ensures
        b == (has_text(trip.summary) || participants@.len() > 0 || stats.itinerary_count > 0
            || stats.checklist_total > 0 || stats.stay_minutes > 0 || stats.travel_minutes > 0
            || stats.participants_recorded || stats.days > 0 || trip.start_date is Some
            || trip.end_date is Some),
{
    has_text_of(&trip.summary) || participants.len() > 0 || stats.itinerary_count > 0
        || stats.checklist_total > 0 || stats.stay_minutes > 0 || stats.travel_minutes > 0
        || stats.participants_recorded || stats.days > 0 || trip.start_date.is_some()
        || trip.end_date.is_some()
}

/// Whether the stay / travel / total time line has anything to show.
pub fn trip_overview_time_metrics_worth_showing(stats: &TripStats) -> (b: bool)
    ensures
        b == (stats.stay_minutes > 0 || stats.travel_minutes > 0 || stats.total_minutes > 0),
{
    stats.stay_minutes > 0 || stats.travel_minutes > 0 || stats.total_minutes() > 0
}

/// A day with a summary, for the days overview.
#[derive(Clone, Debug)]
pub struct DaysOverviewEntry {
    pub day_number: i64,
    pub summary: String,
}

/// Whether the note column of the planned cost table is needed.
pub fn planned_cost_note_column_visible(estimates: &[&Estimate]) -> (b: bool)
    ensures
        b == exists|i: int| 0 <= i < estimates@.len() && has_text(#[trigger] estimates@[i].note),
{
    let n = estimates.len();
    let mut i: usize = 0;
    while i < n
        invariant
            n == estimates@.len(),
            i <= n,
            forall|j: int| 0 <= j < i ==> !has_text(#[trigger] estimates@[j].note),
        decreases n - i,
    {
        if has_text_of(&estimates[i].note) {
            return true;
        }
        i = i + 1;
    }
    false
}

/// The title of a planned cost row: trimmed, or `-` when missing or blank.
pub fn planned_cost_estimate_display_title(title: Option<&str>) -> (s: &str)
    ensures
        s@ == match title {
            Some(t) => if trim(t@).len() > 0 {
                trim(t@)
            } else {
                "-"@
            },
            None => "-"@,
        },
{
    match title {
        Some(t) => {
            let all = chars_of(t);
            let (a, b) = trim_bounds(all.as_slice());
            if a < b {
                t.substring_char(a, b)
            } else {
                "-"
            }
        },
        None => "-",
    }
}

/// `Day N / HH:MM title`, or `Day N / title` without a start time.
pub open spec fn itinerary_group_label(item: ItineraryItem) -> Seq<char> {
    match item.start_time {
        Some(t) => "Day "@ + int_text(item.day as int) + " / "@ + t@ + " "@ + item.title@,
        None => "Day "@ + int_text(item.day as int) + " / "@ + item.title@,
    }
}

pub fn planned_cost_itinerary_group_label(item: &ItineraryItem) -> (s: String)
    ensures
        s@ == itinerary_group_label(*item),
{
    let mut v: Vec<char> = Vec::new();
    push_str(&mut v, "Day ");
    push_int_text(&mut v, item.day);
    push_str(&mut v, " / ");
    match &item.start_time {
        Some(t) => {
            push_str(&mut v, t.as_str());
            push_str(&mut v, " ");
        },
        None => {},
    }
    push_str(&mut v, item.title.as_str());
    assert(v@ =~= itinerary_group_label(*item));
    string_from_chars(v.as_slice())
}

/// The category line of the daily schedule, with the category's display name.
pub fn format_travel_book_category_detail_line(category: ItineraryCategory) -> (s: String)
    ensures
        s@ == "- 種別: "@ + category_display_name(category),
{
    let mut v: Vec<char> = Vec::new();
    push_str(&mut v, "- 種別: ");
    push_str(&mut v, category.definition().display_name);
    string_from_chars(v.as_slice())
}

/// A provider line repeats the itinerary title when it is blank, equal to
/// the title, or one contains the other (all after trimming).
pub open spec fn provider_redundant(provider: Seq<char>, title: Seq<char>) -> bool {
    let p = trim(provider);
    let t = trim(title);
    p.len() == 0 || p == t || contains(t, p) || contains(p, t)
}

pub fn reservation_provider_line_redundant(provider_name: &str, itinerary_title: &str) -> (b:
    bool)
    ensures
        b == provider_redundant(provider_name@, itinerary_title@),
{
    let pa = chars_of(provider_name);
    let ta = chars_of(itinerary_title);
    let provider = trim_chars(pa.as_slice());
    let title = trim_chars(ta.as_slice());
    if provider.len() == 0 {
        return true;
    }
    if crate::text::chars_eq(provider.as_slice(), title.as_slice()) {
        return true;
    }
    if contains_chars(title.as_slice(), provider.as_slice()) || contains_chars(
        provider.as_slice(),
        title.as_slice(),
    ) {
        return true;
    }
    false
}

/// `**Day N / title**`, followed by ` — provider` unless the provider
/// repeats the title.
pub open spec fn reservation_heading(day_number: i64, title: Seq<char>, provider: Seq<char>) -> Seq<
    char,
> {
    let primary = "**Day "@ + int_text(day_number as int) + " / "@ + title + "**"@;
    if provider_redundant(provider, title) {
        primary
    } else {
        primary + " — "@ + provider
    }
}

pub fn format_travel_book_reservation_heading(
    day_number: i64,
    itinerary_title: &str,
    provider_name: &str,
) -> (s: String)
    ensures
        s@ == reservation_heading(day_number, itinerary_title@, provider_name@),
{
    let mut v: Vec<char> = Vec::new();
    push_str(&mut v, "**Day ");
    push_int_text(&mut v, day_number);
    push_str(&mut v, " / ");
    push_str(&mut v, itinerary_title);
    push_str(&mut v, "**");
    if !reservation_provider_line_redundant(provider_name, itinerary_title) {
        push_str(&mut v, " — ");
        push_str(&mut v, provider_name);
    }
    assert(v@ =~= reservation_heading(day_number, itinerary_title@, provider_name@));
    string_from_chars(v.as_slice())
}

/// The days with a summary, in their given order, as (day number, trimmed summary).
pub open spec fn summarized_days(days: Seq<Day>) -> Seq<(i64, Seq<char>)>
    decreases days.len(),
{
    if days.len() == 0 {
        Seq::empty()
    } else {
        let rest = summarized_days(days.drop_last());
        let d = days.last();
        if has_text(d.summary) {
            rest.push((d.day_number, trim(d.summary->Some_0@)))
        } else {
            rest
        }
    }
}

/// The entries of `e` with day number `k`, in order.
pub open spec fn entries_with_key(e: Seq<(i64, Seq<char>)>, k: i64) -> Seq<(i64, Seq<char>)>
    decreases e.len(),
{
    if e.len() == 0 {
        Seq::empty()
    } else {
        let rest = entries_with_key(e.drop_last(), k);
        if e.last().0 == k {
            rest.push(e.last())
        } else {
            rest
        }
    }
}

/// The entries grouped by the keys `keys`, in the order of `keys`.
pub open spec fn entries_by_keys(e: Seq<(i64, Seq<char>)>, keys: Seq<i64>) -> Seq<(i64, Seq<char>)>
    decreases keys.len(),
{
    if keys.len() == 0 {
        Seq::empty()
    } else {
        entries_by_keys(e, keys.drop_last()) + entries_with_key(e, keys.last())
    }
}

pub open spec fn is_entry_key(e: Seq<(i64, Seq<char>)>, k: i64) -> bool {
    exists|i: int| 0 <= i < e.len() && #[trigger] e[i].0 == k
}

pub open spec fn entry_view(v: Seq<DaysOverviewEntry>) -> Seq<(i64, Seq<char>)> {
    v.map_values(|x: DaysOverviewEntry| (x.day_number, x.summary@))
}

/// `r` is `e` stably sorted by day number.
pub open spec fn stably_sorted_by_key(e: Seq<(i64, Seq<char>)>, r: Seq<(i64, Seq<char>)>) -> bool {
    exists|keys: Seq<i64>|
        #![trigger entries_by_keys(e, keys)]
        {
            &&& forall|i: int, j: int| 0 <= i < j < keys.len() ==> keys[i] < keys[j]
            &&& forall|k: i64| #[trigger] keys.contains(k) <==> is_entry_key(e, k)
            &&& r == entries_by_keys(e, keys)
        }
}

fn summarized_day_entries(days: &[Day]) -> (v: Vec<DaysOverviewEntry>)
    ensures
        entry_view(v@) == summarized_days(days@),
{
    let n = days.len();
    let mut v: Vec<DaysOverviewEntry> = Vec::new();
    let mut i: usize = 0;
    while i < n
        invariant
            n == days@.len(),
            i <= n,
            entry_view(v@) == summarized_days(days@.take(i as int)),
        decreases n - i,
    {
        let ghost before = entry_view(v@);
        let d = &days[i];
        assert(days@.take(i + 1).drop_last() =~= days@.take(i as int));
        assert(days@.take(i + 1).last() == days@[i as int]);
        match &d.summary {
            Some(sm) => {
                let all = chars_of(sm.as_str());
                let t = trim_chars(all.as_slice());
                if t.len() > 0 {
                    v.push(DaysOverviewEntry { day_number: d.day_number, summary: string_from_chars(t.as_slice()) });
                    assert(entry_view(v@) =~= before.push((d.day_number, trim(sm@))));
                }
            },
            None => {},
        }
        i = i + 1;
    }
    assert(days@.take(n as int) =~= days@);
    v
}

/// The smallest key greater than `prev` (any key when `prev` is none).
fn next_key_above(e: &[DaysOverviewEntry], prev: Option<i64>) -> (r: Option<i64>)
    ensures
        match r {
            Some(d) => {
                &&& is_entry_key(entry_view(e@), d)
                &&& (prev matches Some(p) ==> d > p)
                &&& forall|x: i64|
                    is_entry_key(entry_view(e@), x) && (prev matches Some(p) ==> x > p) ==> d <= x
            },
            None => forall|x: i64|
                is_entry_key(entry_view(e@), x) ==> (prev matches Some(p) && x <= p),
        },
{
    let ghost ev = entry_view(e@);
    let n = e.len();
    let mut best: Option<i64> = None;
    let mut i: usize = 0;
    while i < n
        invariant
            n == e@.len(),
            ev == entry_view(e@),
            ev.len() == n,
            i <= n,
            match best {
                Some(d) => {
                    &&& is_entry_key(ev, d)
                    &&& (prev matches Some(p) ==> d > p)
                    &&& forall|j: int|
                        0 <= j < i && (prev matches Some(p) ==> ev[j].0 > p) ==> d
                            <= #[trigger] ev[j].0
                },
                None => forall|j: int|
                    0 <= j < i ==> (prev matches Some(p) && #[trigger] ev[j].0 <= p),
            },
        decreases n - i,
    {
        let d = e[i].day_number;
        assert(ev[i as int].0 == d);
        let above = match prev {
            Some(p) => d > p,
            None => true,
        };
        if above {
            match best {
                Some(b) => {
                    if d < b {
                        best = Some(d);
                    }
                },
                None => {
                    best = Some(d);
                },
            }
        }
        i = i + 1;
    }
    proof {
        match best {
            Some(d) => {
                assert forall|x: i64|
                    is_entry_key(ev, x) && (prev matches Some(p) ==> x > p) implies d <= x by {
                    let j = choose|j: int| 0 <= j < ev.len() && #[trigger] ev[j].0 == x;
                }
            },
            None => {
                assert forall|x: i64| is_entry_key(ev, x) implies (prev matches Some(p) && x
                    <= p) by {
                    let j = choose|j: int| 0 <= j < ev.len() && #[trigger] ev[j].0 == x;
                }
            },
        }
    }
    best
}

/// Appends the entries of `e` with day number `k`, in order.
fn push_entries_with_key(out: &mut Vec<DaysOverviewEntry>, e: &[DaysOverviewEntry], k: i64)
    ensures
        entry_view(final(out)@) == entry_view(old(out)@) + entries_with_key(entry_view(e@), k),
{
    let ghost ev = entry_view(e@);
    let ghost base = entry_view(out@);
    let n = e.len();
    let mut i: usize = 0;
    while i < n
        invariant
            n == e@.len(),
            ev == entry_view(e@),
            i <= n,
            entry_view(out@) == base + entries_with_key(ev.take(i as int), k),
        decreases n - i,
    {
        assert(ev.take(i + 1).drop_last() =~= ev.take(i as int));
        assert(ev.take(i + 1).last() == ev[i as int]);
        if e[i].day_number == k {
            let ghost before = entry_view(out@);
            out.push(e[i].clone_entry());
            assert(entry_view(out@) =~= before.push(ev[i as int]));
        }
        i = i + 1;
    }
    assert(ev.take(n as int) =~= ev);
}

impl DaysOverviewEntry {
    /// A copy of the entry.
    pub fn clone_entry(&self) -> (c: DaysOverviewEntry)
        ensures
            c.day_number == self.day_number && c.summary@ == self.summary@,
    {
        DaysOverviewEntry { day_number: self.day_number, summary: self.summary.clone() }
    }
}

/// The days that have a summary, with the summary trimmed, ordered by day
/// number (days with the same number keep their order).
pub fn collect_days_overview_entries(days: &[Day]) -> (r: Vec<DaysOverviewEntry>)
    ensures
        stably_sorted_by_key(summarized_days(days@), entry_view(r@)),
{
    let entries = summarized_day_entries(days);
    let ghost ev = entry_view(entries@);
    let mut out: Vec<DaysOverviewEntry> = Vec::new();
    let mut keys: Vec<i64> = Vec::new();
    let mut prev: Option<i64> = None;
    loop
        invariant
            ev == entry_view(entries@),
            ev == summarized_days(days@),
            forall|i: int, j: int| 0 <= i < j < keys@.len() ==> keys@[i] < keys@[j],
            forall|d: i64| #[trigger] keys@.contains(d) ==> is_entry_key(ev, d),
            match prev {
                None => keys@.len() == 0,
                Some(p) => keys@.len() > 0 && keys@.last() == p && forall|d: i64|
                    is_entry_key(ev, d) && d <= p ==> #[trigger] keys@.contains(d),
            },
            entry_view(out@) == entries_by_keys(ev, keys@),
        decreases (i64::MAX as int) - (match prev {
            Some(p) => p as int,
            None => i64::MIN as int - 1,
        }),
    {
        match next_key_above(entries.as_slice(), prev) {
            None => {
                proof {
                    assert forall|d: i64| is_entry_key(ev, d) implies #[trigger] keys@.contains(
                        d,
                    ) by {}
                    assert(entry_view(out@) == entries_by_keys(ev, keys@));
                    assert(ev == summarized_days(days@));
                    assert(entry_view(out@) == entries_by_keys(summarized_days(days@), keys@));
                }
                return out;
            },
            Some(d) => {
                let ghost old_keys = keys@;
                push_entries_with_key(&mut out, entries.as_slice(), d);
                keys.push(d);
                proof {
                    assert(keys@.drop_last() =~= old_keys);
                    assert forall|x: i64| #[trigger] keys@.contains(x) implies is_entry_key(ev, x) by {
                        if x != d {
                            let k = choose|k: int| 0 <= k < keys@.len() && keys@[k] == x;
                            assert(old_keys[k] == x);
                            assert(old_keys.contains(x));
                        } else {
                            assert(is_entry_key(ev, d));
                        }
                    }
                    assert forall|x: i64| is_entry_key(ev, x) && x <= d implies #[trigger] keys@.contains(
                        x,
                    ) by {
                        if x == d {
                            assert(keys@[keys@.len() - 1] == d);
                        } else {
                            match prev {
                                Some(p) => {
                                    if x <= p {
                                        assert(old_keys.contains(x));
                                        let k = choose|k: int| 0 <= k < old_keys.len() && old_keys[k] == x;
                                        assert(keys@[k] == x);
                                    }
                                },
                                None => {},
                            }
                        }
                    }
                    assert forall|i: int, j: int| 0 <= i < j < keys@.len() implies keys@[i] < keys@[j] by {
                        if j == keys@.len() - 1 {
                            match prev {
                                Some(p) => {
                                    assert(old_keys[i] <= p);
                                },
                                None => {},
                            }
                        }
                    }
                }
                prev = Some(d);
            },
        }
    }
}

/// The three ways a reservation moment may be written.
pub open spec fn reservation_datetime(v: Seq<char>) -> Option<(Seq<char>, u32, u32)> {
    let t = trim(v);
    if naive_datetime_parts(t, "%Y-%m-%dT%H:%M"@) is Some {
        naive_datetime_parts(t, "%Y-%m-%dT%H:%M"@)
    } else if naive_datetime_parts(t, "%Y-%m-%dT%H:%M:%S"@) is Some {
        naive_datetime_parts(t, "%Y-%m-%dT%H:%M:%S"@)
    } else {
        naive_datetime_parts(t, "%Y-%m-%d %H:%M:%S"@)
    }
}

/// The date of a reservation written without a time.
pub open spec fn reservation_date(v: Seq<char>) -> Option<Seq<char>> {
    ymd_date_text(trim(v))
}

pub open spec fn opt_dt_view(o: Option<(String, u32, u32)>) -> Option<(Seq<char>, u32, u32)> {
    match o {
        Some((d, h, m)) => Some((d@, h, m)),
        None => None,
    }
}

fn parse_reservation_datetime(value: &str) -> (r: Option<(String, u32, u32)>)
    ensures
        opt_dt_view(r) == reservation_datetime(value@),
{
    let all = chars_of(value);
    let t = trim_chars(all.as_slice());
    let ts = string_from_chars(t.as_slice());
    match parse_naive_datetime(ts.as_str(), "%Y-%m-%dT%H:%M") {
        Some(x) => return Some(x),
        None => {},
    }
    match parse_naive_datetime(ts.as_str(), "%Y-%m-%dT%H:%M:%S") {
        Some(x) => return Some(x),
        None => {},
    }
    parse_naive_datetime(ts.as_str(), "%Y-%m-%d %H:%M:%S")
}

fn parse_reservation_date(value: &str) -> (r: Option<String>)
    ensures
        opt_string_view(r) == reservation_date(value@),
{
    let all = chars_of(value);
    let t = trim_chars(all.as_slice());
    let ts = string_from_chars(t.as_slice());
    parse_ymd_date(ts.as_str())
}

/// `YYYY-MM-DD HH:MM`.
pub open spec fn date_time_text(d: Seq<char>, h: u32, m: u32) -> Seq<char> {
    d + " "@ + zero_pad(nat_text(h as nat), 2) + ":"@ + zero_pad(nat_text(m as nat), 2)
}

/// `HH:MM`.
pub open spec fn time_text(h: u32, m: u32) -> Seq<char> {
    zero_pad(nat_text(h as nat), 2) + ":"@ + zero_pad(nat_text(m as nat), 2)
}

fn push_time(out: &mut Vec<char>, h: u32, m: u32)
    ensures
        final(out)@ == old(out)@ + time_text(h, m),
{
    push_padded2(out, h as u64);
    push_str(out, ":");
    push_padded2(out, m as u64);
    assert(final(out)@ =~= old(out)@ + time_text(h, m));
}

/// One end of a reservation period: its trimmed text and how it reads.
pub struct ParsedMoment {
    /// The trimmed text.
    pub text: String,
    /// The date, hour and minute when it reads as a date and time.
    pub datetime: Option<(String, u32, u32)>,
    /// The date when it reads as a date.
    pub date: Option<String>,
}

/// Display of one end: date and time, else the date, else the text.
pub open spec fn moment_text(text: Seq<char>, dt: Option<(Seq<char>, u32, u32)>, date: Option<
    Seq<char>,
>) -> Seq<char> {
    match dt {
        Some((d, h, m)) => date_time_text(d, h, m),
        None => match date {
            Some(d) => d,
            None => text,
        },
    }
}

/// Display of one end of a period from how it reads.
pub fn format_moment(p: &ParsedMoment) -> (s: Vec<char>)
    ensures
        s@ == moment_text(p.text@, opt_dt_view(p.datetime), opt_string_view(p.date)),
{
    let mut v: Vec<char> = Vec::new();
    match &p.datetime {
        Some((d, h, m)) => {
            push_str(&mut v, d.as_str());
            push_str(&mut v, " ");
            push_time(&mut v, *h, *m);
            assert(v@ =~= date_time_text(d@, *h, *m));
        },
        None => match &p.date {
            Some(d) => push_str(&mut v, d.as_str()),
            None => push_str(&mut v, p.text.as_str()),
        },
    }
    assert(v@ =~= moment_text(p.text@, opt_dt_view(p.datetime), opt_string_view(p.date)));
    v
}

/// How a reservation moment reads.
fn parse_moment(value: &str) -> (p: ParsedMoment)
    ensures
        p.text@ == trim(value@),
        opt_dt_view(p.datetime) == reservation_datetime(value@),
        opt_string_view(p.date) == reservation_date(value@),
{
    let all = chars_of(value);
    let t = trim_chars(all.as_slice());
    ParsedMoment {
        text: string_from_chars(t.as_slice()),
        datetime: parse_reservation_datetime(value),
        date: parse_reservation_date(value),
    }
}

/// Display of one end of a reservation period.
pub fn format_reservation_datetime_endpoint(value: &str) -> (s: String)
    ensures
        s@ == moment_text(trim(value@), reservation_datetime(value@), reservation_date(value@)),
{
    let p = parse_moment(value);
    let v = format_moment(&p);
    string_from_chars(v.as_slice())
}

/// The period from two ends that were read: `start 〜 end`, the end shown
/// as a time only when both are dates and times of the same day.
pub open spec fn period_text(
    start: (Seq<char>, Option<(Seq<char>, u32, u32)>, Option<Seq<char>>),
    end: (Seq<char>, Option<(Seq<char>, u32, u32)>, Option<Seq<char>>),
) -> Seq<char> {
    match (start.1, end.1) {
        (Some((sd, sh, sm)), Some((ed, eh, em))) => date_time_text(sd, sh, sm) + " 〜 "@ + if sd
            == ed {
            time_text(eh, em)
        } else {
            date_time_text(ed, eh, em)
        },
        _ => moment_text(start.0, start.1, start.2) + " 〜 "@ + moment_text(end.0, end.1, end.2),
    }
}

pub open spec fn moment_view(p: ParsedMoment) -> (Seq<char>, Option<(Seq<char>, u32, u32)>, Option<
    Seq<char>,
>) {
    (p.text@, opt_dt_view(p.datetime), opt_string_view(p.date))
}

/// A period from its two ends, as they were read.
pub fn format_period_from_moments(start: &ParsedMoment, end: &ParsedMoment) -> (s: String)
    ensures
        s@ == period_text(moment_view(*start), moment_view(*end)),
{
    let mut v: Vec<char> = Vec::new();
    match (&start.datetime, &end.datetime) {
        (Some((sd, sh, sm)), Some((ed, eh, em))) => {
            push_str(&mut v, sd.as_str());
            push_str(&mut v, " ");
            push_time(&mut v, *sh, *sm);
            push_str(&mut v, " 〜 ");
            if crate::text::str_eq(sd.as_str(), ed.as_str()) {
                push_time(&mut v, *eh, *em);
            } else {
                push_str(&mut v, ed.as_str());
                push_str(&mut v, " ");
                push_time(&mut v, *eh, *em);
            }
        },
        _ => {
            let a = format_moment(start);
            let b = format_moment(end);
            crate::text::push_chars(&mut v, a.as_slice());
            push_str(&mut v, " 〜 ");
            crate::text::push_chars(&mut v, b.as_slice());
        },
    }
    assert(v@ =~= period_text(moment_view(*start), moment_view(*end)));
    string_from_chars(v.as_slice())
}

/// Whether an optional moment is given (not missing or blank).
pub open spec fn given(o: Option<String>) -> bool {
    o matches Some(s) && trim(s@).len() > 0
}

pub open spec fn moment_of(v: Seq<char>) -> (Seq<char>, Option<(Seq<char>, u32, u32)>, Option<
    Seq<char>,
>) {
    (trim(v), reservation_datetime(trim(v)), reservation_date(trim(v)))
}

/// The period of a reservation from its optional start and end.
pub open spec fn reservation_period(start_at: Option<String>, end_at: Option<String>) -> Option<
    Seq<char>,
> {
    if given(start_at) && given(end_at) {
        Some(period_text(moment_of(start_at->Some_0@), moment_of(end_at->Some_0@)))
    } else if given(start_at) {
        let m = moment_of(start_at->Some_0@);
        Some(moment_text(m.0, m.1, m.2))
    } else if given(end_at) {
        let m = moment_of(end_at->Some_0@);
        Some(moment_text(m.0, m.1, m.2))
    } else {
        None
    }
}

/// The trimmed text of a given moment.
fn given_text(o: &Option<String>) -> (r: Option<String>)
    ensures
        match r {
            Some(t) => given(*o) && t@ == trim(o->Some_0@),
            None => !given(*o),
        },
{
    match o {
        Some(s) => {
            let all = chars_of(s.as_str());
            let t = trim_chars(all.as_slice());
            if t.len() > 0 {
                Some(string_from_chars(t.as_slice()))
            } else {
                None
            }
        },
        None => None,
    }
}

/// The period of a reservation in readable form, none when neither end is given.
pub fn format_travel_book_reservation_period(start_at: &Option<String>, end_at: &Option<String>) -> (r:
    Option<String>)
    ensures
        opt_string_view(r) == reservation_period(*start_at, *end_at),
{
    let start_raw = given_text(start_at);
    let end_raw = given_text(end_at);
    match (start_raw, end_raw) {
        (Some(s), Some(e)) => {
            let sp = parse_moment(s.as_str());
            let ep = parse_moment(e.as_str());
            proof {
                crate::text::lemma_trim_idempotent(start_at->Some_0@);
                crate::text::lemma_trim_idempotent(end_at->Some_0@);
            }
            Some(format_period_from_moments(&sp, &ep))
        },
        (Some(s), None) => {
            let sp = parse_moment(s.as_str());
            proof {
                crate::text::lemma_trim_idempotent(start_at->Some_0@);
            }
            let v = format_moment(&sp);
            Some(string_from_chars(v.as_slice()))
        },
        (None, Some(e)) => {
            let ep = parse_moment(e.as_str());
            proof {
                crate::text::lemma_trim_idempotent(end_at->Some_0@);
            }
            let v = format_moment(&ep);
            Some(string_from_chars(v.as_slice()))
        },
        (None, None) => None,
    }
}

/// Where a note goes in the travel book: trip notes, then day notes by day,
/// then itinerary notes by day and sequence; then by label and body.
pub open spec fn note_sort_key(note: ExportNote) -> (i32, i64, i64, Seq<char>) {
    match note {
        ExportNote::Trip { title, body } => (0, 0, 0, label_of(title) + body@),
        ExportNote::Day { day_number, title, body } => (1, day_number, 0, label_of(title) + body@),
        ExportNote::Itinerary { itinerary_key, title, body } => (
            2,
            itinerary_key.day_number,
            itinerary_key.sort_order,
            label_of(title) + body@,
        ),
    }
}

pub open spec fn label_of(title: Option<String>) -> Seq<char> {
    match title {
        Some(t) => t@,
        None => Seq::empty(),
    }
}

pub fn travel_book_note_sort_key(note: &ExportNote) -> (k: (i32, i64, i64, String))
    ensures
        (k.0, k.1, k.2, k.3@) == note_sort_key(*note),
{
    let (rank, day, order, title, body): (i32, i64, i64, &Option<String>, &String) = match note {
        ExportNote::Trip { title, body } => (0, 0, 0, title, body),
        ExportNote::Day { day_number, title, body } => (1, *day_number, 0, title, body),
        ExportNote::Itinerary { itinerary_key, title, body } => (
            2,
            itinerary_key.day_number,
            itinerary_key.sort_order,
            title,
            body,
        ),
    };
    let mut v: Vec<char> = Vec::new();
    match title {
        Some(t) => push_str(&mut v, t.as_str()),
        None => {},
    }
    push_str(&mut v, body.as_str());
    assert(v@ =~= label_of(*title) + body@);
    (rank, day, order, string_from_chars(v.as_slice()))
}

/// The label of a day in the days overview: `Day N — date`, or `Day N`
/// when the trip's dates give no date for that day.
pub fn travel_book_day_overview_label(day_number: i64, date: Option<&str>) -> (s: String)
    ensures
        s@ == "Day "@ + int_text(day_number as int) + match date {
            Some(d) => " — "@ + d@,
            None => Seq::<char>::empty(),
        },
{
    let mut v: Vec<char> = Vec::new();
    push_str(&mut v, "Day ");
    push_int_text(&mut v, day_number);
    match date {
        Some(d) => {
            push_str(&mut v, " — ");
            push_str(&mut v, d);
        },
        None => {},
    }
    assert(v@ =~= "Day "@ + int_text(day_number as int) + match date {
        Some(d) => " — "@ + d@,
        None => Seq::<char>::empty(),
    });
    string_from_chars(v.as_slice())
}

} // verus!
