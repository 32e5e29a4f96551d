//! The Markdown travel book of a trip: title and dates, itinerary grouped
//! by day, and the checklist.

use vstd::prelude::*;
use crate::models::{category_key, ChecklistItem, ItineraryItem, Trip};
use crate::ordering::{
    checklist_order_key, markdown_order_key, sort_checklist_items, sort_itinerary_items_for_markdown,
    stably_sorted,
};
use crate::text::{
    chars_of, int_text, push_chars, push_int_text, push_line, push_str, string_from_chars,
    strings_view,
};

verus! {

/// Lines joined with `\n` between them.
pub open spec fn join_lines(lines: Seq<Seq<char>>) -> Seq<char>
    decreases lines.len(),
{
    if lines.len() == 0 {
        Seq::empty()
    } else if lines.len() == 1 {
        lines[0]
    } else {
        join_lines(lines.drop_last()) + seq!['\n'] + lines.last()
    }
}

/// Joins lines with `\n`.
pub fn join_with_newlines(lines: &[String]) -> (s: Vec<char>)
    ensures
        s@ == join_lines(strings_view(lines@)),
{
    let n = lines.len();
    let mut out: Vec<char> = Vec::new();
    let mut i: usize = 0;
    while i < n
        invariant
            n == lines@.len(),
            i <= n,
            out@ == join_lines(strings_view(lines@).take(i as int)),
        decreases n - i,
    {
        let ghost before = strings_view(lines@).take(i as int);
        if i > 0 {
            out.push('\n');
        }
        push_str(&mut out, lines[i].as_str());
        proof {
            let after = strings_view(lines@).take(i + 1);
            assert(after.drop_last() =~= before);
            assert(after.last() == lines@[i as int]@);
            if i == 0 {
                assert(after.len() == 1);
            }
        }
        i = i + 1;
    }
    assert(strings_view(lines@).take(n as int) =~= strings_view(lines@));
    out
}

/// The date line of a trip: `start 〜 end`, or the one date that is set.
pub open spec fn trip_date_range(trip: Trip) -> Option<Seq<char>> {
    match (trip.start_date, trip.end_date) {
        (Some(s), Some(e)) => Some(s@ + " 〜 "@ + e@),
        (Some(s), None) => Some(s@),
        (None, Some(e)) => Some(e@),
        (None, None) => None,
    }
}

pub fn format_trip_date_range(trip: &Trip) -> (r: Option<String>)
    ensures
        match r {
            Some(s) => trip_date_range(*trip) == Some(s@),
            None => trip_date_range(*trip) is None,
        },
{
    match (&trip.start_date, &trip.end_date) {
        (Some(start), Some(end)) => {
            let mut v = chars_of(start.as_str());
            push_str(&mut v, " 〜 ");
            push_str(&mut v, end.as_str());
            Some(string_from_chars(v.as_slice()))
        },
        (Some(start), None) => Some(start.clone()),
        (None, Some(end)) => Some(end.clone()),
        (None, None) => None,
    }
}

/// A trip's Markdown date line is there exactly when the trip has a start or
/// an end date. It begins with the start date and ends with the end date
/// when they are set, and when only one of them is set it is that date.
pub proof fn lemma_trip_date_line(trip: Trip)
    ensures
        trip_date_range(trip) is Some <==> (trip.start_date is Some || trip.end_date is Some),
        trip.start_date matches Some(s) ==> ({
            let line = trip_date_range(trip)->Some_0;
            s@.len() <= line.len() && line.subrange(0, s@.len() as int) == s@
        }),
        trip.end_date matches Some(e) ==> ({
            let line = trip_date_range(trip)->Some_0;
            e@.len() <= line.len() && line.subrange(line.len() - e@.len(), line.len() as int)
                == e@
        }),
        trip.end_date is None ==> (trip.start_date matches Some(s) ==> trip_date_range(trip)
            == Some(s@)),
        trip.start_date is None ==> (trip.end_date matches Some(e) ==> trip_date_range(trip)
            == Some(e@)),
{
    match (trip.start_date, trip.end_date) {
        (Some(s), Some(e)) => {
            let line = s@ + " 〜 "@ + e@;
            assert(line.subrange(0, s@.len() as int) =~= s@);
            assert(line.subrange(line.len() - e@.len(), line.len() as int) =~= e@);
        },
        (Some(s), None) => {
            assert(s@.subrange(0, s@.len() as int) =~= s@);
        },
        (None, Some(e)) => {
            assert(e@.subrange(0, e@.len() as int) =~= e@);
        },
        (None, None) => {},
    }
}

/// The detail bullets of an itinerary item.
pub open spec fn item_detail_lines(item: ItineraryItem) -> Seq<Seq<char>> {
    let loc = match item.location {
        Some(l) => seq!["- 場所: "@ + l@],
        None => Seq::<Seq<char>>::empty(),
    };
    let dur = match item.duration_minutes {
        Some(d) => seq!["- 所要時間: "@ + int_text(d as int) + "分"@],
        None => Seq::<Seq<char>>::empty(),
    };
    let trav = match item.travel_minutes {
        Some(t) => seq!["- 移動時間: "@ + int_text(t as int) + "分"@],
        None => Seq::<Seq<char>>::empty(),
    };
    let note = match item.note {
        Some(n) => seq!["- メモ: "@ + n@],
        None => Seq::<Seq<char>>::empty(),
    };
    loc + dur + trav + note
}

/// The lines of an itinerary item's Markdown block.
pub open spec fn item_markdown_lines(item: ItineraryItem) -> Seq<Seq<char>> {
    let heading = match item.start_time {
        Some(t) => "### "@ + t@ + " "@ + item.title@,
        None => "### "@ + item.title@,
    };
    let details = item_detail_lines(item);
    let cat = match item.category {
        Some(c) => seq![Seq::<char>::empty(), "Category: "@ + category_key(c)],
        None => Seq::<Seq<char>>::empty(),
    };
    let det = if details.len() > 0 {
        if item.category is Some {
            seq![Seq::<char>::empty()] + details
        } else {
            details
        }
    } else {
        Seq::<Seq<char>>::empty()
    };
    seq![heading] + cat + det
}

pub open spec fn item_markdown(item: ItineraryItem) -> Seq<char> {
    join_lines(item_markdown_lines(item))
}

/// Appends every line of `more` to `lines`.
fn push_all_lines(lines: &mut Vec<String>, more: &[String])
    ensures
        strings_view(final(lines)@) == strings_view(old(lines)@) + strings_view(more@),
{
    let nd = more.len();
    let mut i: usize = 0;
    let ghost base = strings_view(lines@);
    while i < nd
        invariant
            nd == more@.len(),
            i <= nd,
            strings_view(lines@) == base + strings_view(more@).take(i as int),
        decreases nd - i,
    {
        let dc = chars_of(more[i].as_str());
        push_line(lines, dc.as_slice());
        assert(strings_view(more@).take(i + 1) =~= strings_view(more@).take(i as int).push(
            more@[i as int]@,
        ));
        i = i + 1;
    }
    assert(strings_view(more@).take(nd as int) =~= strings_view(more@));
}

/// The detail bullets of an item, as strings.
fn item_detail_strings(item: &ItineraryItem) -> (details: Vec<String>)
    ensures
        strings_view(details@) == item_detail_lines(*item),
{
    let mut details: Vec<String> = Vec::new();
    match &item.location {
        Some(l) => {
            let mut v: Vec<char> = Vec::new();
            push_str(&mut v, "- 場所: ");
            push_str(&mut v, l.as_str());
            push_line(&mut details, v.as_slice());
        },
        None => {},
    }
    match item.duration_minutes {
        Some(d) => {
            let mut v: Vec<char> = Vec::new();
            push_str(&mut v, "- 所要時間: ");
            push_int_text(&mut v, d);
            push_str(&mut v, "分");
            push_line(&mut details, v.as_slice());
        },
        None => {},
    }
    match item.travel_minutes {
        Some(t) => {
            let mut v: Vec<char> = Vec::new();
            push_str(&mut v, "- 移動時間: ");
            push_int_text(&mut v, t);
            push_str(&mut v, "分");
            push_line(&mut details, v.as_slice());
        },
        None => {},
    }
    match &item.note {
        Some(n) => {
            let mut v: Vec<char> = Vec::new();
            push_str(&mut v, "- メモ: ");
            push_str(&mut v, n.as_str());
            push_line(&mut details, v.as_slice());
        },
        None => {},
    }
    assert(strings_view(details@) =~~= item_detail_lines(*item));
    details
}

/// The Markdown block of one itinerary item: heading, category, details.
pub fn format_itinerary_item_markdown(item: &ItineraryItem) -> (s: String)
    ensures
        s@ == item_markdown(*item),
{
    let mut lines: Vec<String> = Vec::new();
    let mut heading: Vec<char> = Vec::new();
    push_str(&mut heading, "### ");
    match &item.start_time {
        Some(t) => {
            push_str(&mut heading, t.as_str());
            push_str(&mut heading, " ");
        },
        None => {},
    }
    push_str(&mut heading, item.title.as_str());
    push_line(&mut lines, heading.as_slice());
    let details = item_detail_strings(item);
    match item.category {
        Some(c) => {
            let empty: Vec<char> = Vec::new();
            push_line(&mut lines, empty.as_slice());
            let mut v: Vec<char> = Vec::new();
            push_str(&mut v, "Category: ");
            push_str(&mut v, c.as_str());
            push_line(&mut lines, v.as_slice());
        },
        None => {},
    }
    if details.len() > 0 {
        if item.category.is_some() {
            let empty: Vec<char> = Vec::new();
            push_line(&mut lines, empty.as_slice());
        }
        push_all_lines(&mut lines, details.as_slice());
    }
    assert(strings_view(lines@) =~~= item_markdown_lines(*item));
    let joined = join_with_newlines(lines.as_slice());
    string_from_chars(joined.as_slice())
}

/// The checklist section: none when the list is empty.
pub open spec fn checklist_markdown(items: Seq<ChecklistItem>) -> Option<Seq<char>> {
    if items.len() == 0 {
        None
    } else {
        let lines = seq!["## Checklist"@, Seq::<char>::empty()] + Seq::new(
            items.len(),
            |i: int|
                "- ["@ + seq![
                    if items[i].is_done {
                        'x'
                    } else {
                        ' '
                    },
                ] + "] "@ + items[i].title@,
        );
        Some(seq!['\n'] + join_lines(lines) + seq!['\n'])
    }
}

/// The check mark of a checklist item: `x` when done, a space otherwise.
pub fn fmt_checklist_mark(is_done: bool) -> (c: char)
    ensures
        c == if is_done {
            'x'
        } else {
            ' '
        },
{
    if is_done {
        'x'
    } else {
        ' '
    }
}

pub fn format_checklist_markdown(items: &[ChecklistItem]) -> (r: Option<String>)
    ensures
        match r {
            Some(s) => checklist_markdown(items@) == Some(s@),
            None => checklist_markdown(items@) is None,
        },
{
    if items.len() == 0 {
        return None;
    }
    let mut lines: Vec<String> = Vec::new();
    let head = chars_of("## Checklist");
    push_line(&mut lines, head.as_slice());
    let empty: Vec<char> = Vec::new();
    push_line(&mut lines, empty.as_slice());
    let ghost entries = Seq::new(
        items@.len(),
        |i: int|
            "- ["@ + seq![
                if items@[i].is_done {
                    'x'
                } else {
                    ' '
                },
            ] + "] "@ + items@[i].title@,
    );
    let n = items.len();
    let mut i: usize = 0;
    while i < n
        invariant
            n == items@.len(),
            i <= n,
            entries.len() == n,
            entries == Seq::new(
                items@.len(),
                |i: int|
                    "- ["@ + seq![
                        if items@[i].is_done {
                            'x'
                        } else {
                            ' '
                        },
                    ] + "] "@ + items@[i].title@,
            ),
            strings_view(lines@) =~~= seq!["## Checklist"@, Seq::<char>::empty()] + entries.take(
                i as int,
            ),
        decreases n - i,
    {
        let mut v: Vec<char> = Vec::new();
        push_str(&mut v, "- [");
        v.push(fmt_checklist_mark(items[i].is_done));
        push_str(&mut v, "] ");
        push_str(&mut v, items[i].title.as_str());
        assert(v@ =~= entries[i as int]);
        push_line(&mut lines, v.as_slice());
        assert(entries.take(i + 1) =~= entries.take(i as int).push(entries[i as int]));
        i = i + 1;
    }
    assert(entries.take(n as int) =~= entries);
    let joined = join_with_newlines(lines.as_slice());
    let mut out: Vec<char> = Vec::new();
    out.push('\n');
    push_chars(&mut out, joined.as_slice());
    out.push('\n');
    assert(strings_view(lines@) =~~= seq!["## Checklist"@, Seq::<char>::empty()] + entries);
    assert(out@ =~= seq!['\n'] + join_lines(strings_view(lines@)) + seq!['\n']);
    Some(string_from_chars(out.as_slice()))
}

/// The itinerary part of the book for the first `n` items: a `## Day N`
/// heading whenever the day changes, a blank line between items of a day.
pub open spec fn items_markdown_upto(items: Seq<ItineraryItem>, n: nat) -> Seq<char>
    decreases n,
{
    if n == 0 || n > items.len() {
        Seq::empty()
    } else {
        let i = n - 1;
        let sep = if i == 0 || items[i - 1].day != items[i].day {
            "\n## Day "@ + int_text(items[i].day as int) + "\n\n"@
        } else {
            "\n"@
        };
        items_markdown_upto(items, (n - 1) as nat) + sep + item_markdown(items[i])
    }
}

/// The whole Markdown book of a trip.
pub open spec fn trip_markdown(
    trip: Trip,
    items: Seq<ItineraryItem>,
    checklist: Seq<ChecklistItem>,
) -> Seq<char> {
    let head = "# "@ + trip.name@ + "\n"@;
    let dates = match trip_date_range(trip) {
        Some(d) => "\n"@ + d + "\n"@,
        None => Seq::<char>::empty(),
    };
    let check = match checklist_markdown(checklist) {
        Some(c) => c,
        None => Seq::<char>::empty(),
    };
    head + dates + items_markdown_upto(items, items.len()) + check
}

pub fn format_trip_markdown(
    trip: &Trip,
    items: &[ItineraryItem],
    checklist: &[ChecklistItem],
) -> (s: String)
    ensures
        s@ == trip_markdown(*trip, items@, checklist@),
{
    let mut out: Vec<char> = Vec::new();
    push_str(&mut out, "# ");
    push_str(&mut out, trip.name.as_str());
    push_str(&mut out, "\n");
    match format_trip_date_range(trip) {
        Some(dates) => {
            push_str(&mut out, "\n");
            push_str(&mut out, dates.as_str());
            push_str(&mut out, "\n");
        },
        None => {},
    }
    let ghost prefix = out@;
    let n = items.len();
    let mut i: usize = 0;
    while i < n
        invariant
            n == items@.len(),
            i <= n,
            out@ == prefix + items_markdown_upto(items@, i as nat),
        decreases n - i,
    {
        if i == 0 || items[i - 1].day != items[i].day {
            push_str(&mut out, "\n## Day ");
            push_int_text(&mut out, items[i].day);
            push_str(&mut out, "\n\n");
        } else {
            push_str(&mut out, "\n");
        }
        let md = format_itinerary_item_markdown(&items[i]);
        push_str(&mut out, md.as_str());
        assert(out@ =~= prefix + items_markdown_upto(items@, (i + 1) as nat));
        i = i + 1;
    }
    match format_checklist_markdown(checklist) {
        Some(c) => push_str(&mut out, c.as_str()),
        None => {},
    }
    assert(out@ =~= trip_markdown(*trip, items@, checklist@));
    string_from_chars(out.as_slice())
}

/// The Markdown of a trip from its records in any order: the itinerary in
/// list order (day, sequence, id) and the checklist open items first.
pub fn build_trip_markdown(
    trip: &Trip,
    items: Vec<ItineraryItem>,
    checklist: Vec<ChecklistItem>,
) -> (s: String)
    ensures
        exists|si: Seq<ItineraryItem>, sc: Seq<ChecklistItem>|
            {
                &&& stably_sorted(
                    si,
                    si.map_values(|it: ItineraryItem| markdown_order_key(it)),
                    items@,
                    items@.map_values(|it: ItineraryItem| markdown_order_key(it)),
                )
                &&& stably_sorted(
                    sc,
                    sc.map_values(|c: ChecklistItem| checklist_order_key(c)),
                    checklist@,
                    checklist@.map_values(|c: ChecklistItem| checklist_order_key(c)),
                )
                &&& s@ == trip_markdown(*trip, si, sc)
            },
{
    let mut items = items;
    let mut checklist = checklist;
    sort_itinerary_items_for_markdown(&mut items);
    sort_checklist_items(&mut checklist);
    format_trip_markdown(trip, items.as_slice(), checklist.as_slice())
}

} // verus!
