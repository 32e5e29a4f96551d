//! The texts of the terminal views: the itinerary timeline and the trip
//! doctor's report, line by line.

use vstd::prelude::*;
use crate::doctor::DoctorReport;
use crate::models::ItineraryItem;
use crate::schedule::{add_minutes_to_time, end_time_arithmetic_fits, end_time_fits, end_time_result};
use crate::text::{chars_of, int_text, push_int_text, push_line, push_str, strings_view};

verus! {

/// The heading lines before item `i`: a blank line (except first) and
/// `Day N` with a blank line whenever the day changes.
pub open spec fn timeline_header(items: Seq<ItineraryItem>, i: int) -> Seq<Seq<char>> {
    let d = "Day "@ + int_text(items[i].day as int);
    if i == 0 {
        seq![d, Seq::<char>::empty()]
    } else if items[i - 1].day != items[i].day {
        seq![Seq::<char>::empty(), d, Seq::<char>::empty()]
    } else {
        Seq::empty()
    }
}

/// The lines describing item `i`: time and title, duration, planned end.
pub open spec fn timeline_body(item: ItineraryItem) -> Seq<Seq<char>> {
    let dur = match item.duration_minutes {
        Some(d) => seq!["  所要時間: "@ + int_text(d as int) + "分"@],
        None => Seq::<Seq<char>>::empty(),
    };
    match item.start_time {
        Some(t) => {
            let end = match item.duration_minutes {
                Some(d) => match end_time_result(t@, d) {
                    Ok(e) => seq!["  終了予定: "@ + e],
                    Err(_) => Seq::<Seq<char>>::empty(),
                },
                None => Seq::<Seq<char>>::empty(),
            };
            seq![t@ + " "@ + item.title@] + dur + end
        },
        None => seq!["時刻: 未定"@, item.title@] + dur,
    }
}

/// The lines after item `i`: the travel time to the next item of the same
/// day, or a blank line before it.
pub open spec fn timeline_travel(items: Seq<ItineraryItem>, i: int) -> Seq<Seq<char>> {
    let next_same = i + 1 < items.len() && items[i + 1].day == items[i].day;
    match items[i].travel_minutes {
        Some(t) => if next_same {
            seq![Seq::<char>::empty(), "  ↓ 移動 "@ + int_text(t as int) + "分"@, Seq::<char>::empty()]
        } else {
            Seq::empty()
        },
        None => if next_same {
            seq![Seq::<char>::empty()]
        } else {
            Seq::empty()
        },
    }
}

pub open spec fn timeline_upto(items: Seq<ItineraryItem>, n: nat) -> Seq<Seq<char>>
    decreases n,
{
    if n == 0 || n > items.len() {
        Seq::empty()
    } else {
        let i = n - 1;
        timeline_upto(items, (n - 1) as nat) + timeline_header(items, i) + timeline_body(items[i])
            + timeline_travel(items, i)
    }
}

/// The whole timeline of a trip's items.
pub open spec fn timeline_text(items: Seq<ItineraryItem>) -> Seq<Seq<char>> {
    if items.len() == 0 {
        seq!["日程はまだ登録されていません。"@]
    } else {
        timeline_upto(items, items.len())
    }
}

/// Every planned end time can be computed without overflow.
pub open spec fn timeline_arithmetic_fits(items: Seq<ItineraryItem>) -> bool {
    forall|i: int|
        0 <= i < items.len() ==> match (#[trigger] items[i].start_time, items[i].duration_minutes) {
            (Some(t), Some(d)) => end_time_arithmetic_fits(t@, d),
            _ => true,
        }
}

/// Whether `itinerary_timeline_lines` can compute every planned end time.
pub fn timeline_fits(items: &[ItineraryItem]) -> (b: bool)
    ensures
        b == timeline_arithmetic_fits(items@),
{
    let n = items.len();
    let mut i: usize = 0;
    while i < n
        invariant
            n == items@.len(),
            i <= n,
            forall|j: int|
                0 <= j < i ==> match (#[trigger] items@[j].start_time, items@[j].duration_minutes) {
                    (Some(t), Some(d)) => end_time_arithmetic_fits(t@, d),
                    _ => true,
                },
        decreases n - i,
    {
        match (&items[i].start_time, items[i].duration_minutes) {
            (Some(t), Some(d)) => {
                if !end_time_fits(t.as_str(), d) {
                    return false;
                }
            },
            _ => {},
        }
        i = i + 1;
    }
    true
}

fn push_text_line(lines: &mut Vec<String>, s: &str)
    ensures
        strings_view(final(lines)@) == strings_view(old(lines)@).push(s@),
{
    let v = chars_of(s);
    push_line(lines, v.as_slice());
}

fn push_blank(lines: &mut Vec<String>)
    ensures
        strings_view(final(lines)@) == strings_view(old(lines)@).push(Seq::<char>::empty()),
{
    let v: Vec<char> = Vec::new();
    push_line(lines, v.as_slice());
}

fn push_minutes_line(lines: &mut Vec<String>, before: &str, m: i64)
    ensures
        strings_view(final(lines)@) == strings_view(old(lines)@).push(
            before@ + int_text(m as int) + "分"@,
        ),
{
    let mut v: Vec<char> = Vec::new();
    push_str(&mut v, before);
    push_int_text(&mut v, m);
    push_str(&mut v, "分");
    assert(v@ =~= before@ + int_text(m as int) + "分"@);
    push_line(lines, v.as_slice());
}

fn push_item_body(lines: &mut Vec<String>, item: &ItineraryItem)
    requires
        match (item.start_time, item.duration_minutes) {
            (Some(t), Some(d)) => end_time_arithmetic_fits(t@, d),
            _ => true,
        },
    ensures
        strings_view(final(lines)@) =~~= strings_view(old(lines)@) + timeline_body(*item),
{
    match &item.start_time {
        Some(t) => {
            let mut v = chars_of(t.as_str());
            push_str(&mut v, " ");
            push_str(&mut v, item.title.as_str());
            push_line(lines, v.as_slice());
            match item.duration_minutes {
                Some(d) => {
                    push_minutes_line(lines, "  所要時間: ", d);
                    match add_minutes_to_time(t.as_str(), d) {
                        Ok(e) => {
                            let mut w: Vec<char> = Vec::new();
                            push_str(&mut w, "  終了予定: ");
                            push_str(&mut w, e.as_str());
                            push_line(lines, w.as_slice());
                        },
                        Err(_) => {},
                    }
                },
                None => {},
            }
        },
        None => {
            push_text_line(lines, "時刻: 未定");
            push_text_line(lines, item.title.as_str());
            match item.duration_minutes {
                Some(d) => push_minutes_line(lines, "  所要時間: ", d),
                None => {},
            }
        },
    }
}

/// The timeline of a trip's items (in listing order), one line per entry.
pub fn itinerary_timeline_lines(items: &[ItineraryItem]) -> (lines: Vec<String>)
    requires
        timeline_arithmetic_fits(items@),
    ensures
        strings_view(lines@) == timeline_text(items@),
{
    let mut lines: Vec<String> = Vec::new();
    let n = items.len();
    if n == 0 {
        push_text_line(&mut lines, "日程はまだ登録されていません。");
        assert(strings_view(lines@) =~= timeline_text(items@));
        return lines;
    }
    let mut i: usize = 0;
    while i < n
        invariant
            n == items@.len(),
            i <= n,
            timeline_arithmetic_fits(items@),
            strings_view(lines@) == timeline_upto(items@, i as nat),
        decreases n - i,
    {
        let ghost before = strings_view(lines@);
        let item = &items[i];
        if i == 0 || items[i - 1].day != item.day {
            if i > 0 {
                push_blank(&mut lines);
            }
            let mut v: Vec<char> = Vec::new();
            push_str(&mut v, "Day ");
            push_int_text(&mut v, item.day);
            push_line(&mut lines, v.as_slice());
            push_blank(&mut lines);
        }
        let ghost after_header = strings_view(lines@);
        assert(after_header =~~= before + timeline_header(items@, i as int));
        assert(match (items@[i as int].start_time, items@[i as int].duration_minutes) {
            (Some(t), Some(d)) => end_time_arithmetic_fits(t@, d),
            _ => true,
        });
        push_item_body(&mut lines, item);
        let ghost after_body = strings_view(lines@);
        let next_same = i + 1 < n && items[i + 1].day == item.day;
        match item.travel_minutes {
            Some(t) => {
                if next_same {
                    push_blank(&mut lines);
                    push_minutes_line(&mut lines, "  ↓ 移動 ", t);
                    push_blank(&mut lines);
                }
            },
            None => {
                if next_same {
                    push_blank(&mut lines);
                }
            },
        }
        assert(strings_view(lines@) =~~= after_body + timeline_travel(items@, i as int));
        i = i + 1;
    }
    lines
}

/// `- {text}` for each text.
pub open spec fn bullets(texts: Seq<Seq<char>>) -> Seq<Seq<char>> {
    Seq::new(texts.len(), |i: int| "- "@ + texts[i])
}

/// The printed trip doctor report.
pub open spec fn doctor_report_text(
    trip_name: Seq<char>,
    warnings: Seq<Seq<char>>,
    suggestions: Seq<Seq<char>>,
    info: Seq<Seq<char>>,
) -> Seq<Seq<char>> {
    let head = seq!["Trip Doctor"@, "==========="@, Seq::<char>::empty(), "Trip: "@ + trip_name,
        Seq::<char>::empty()];
    if warnings.len() == 0 && suggestions.len() == 0 && info.len() == 0 {
        head + seq!["No major issues found."@]
    } else {
        let w = if warnings.len() > 0 {
            seq!["Warnings"@, "--------"@] + bullets(warnings) + seq![Seq::<char>::empty()]
        } else {
            Seq::<Seq<char>>::empty()
        };
        let s = if suggestions.len() > 0 {
            seq!["Suggestions"@, "-----------"@] + bullets(suggestions) + if info.len() > 0 {
                seq![Seq::<char>::empty()]
            } else {
                Seq::<Seq<char>>::empty()
            }
        } else {
            Seq::<Seq<char>>::empty()
        };
        let i = if info.len() > 0 {
            seq!["Info"@, "----"@] + bullets(info)
        } else {
            Seq::<Seq<char>>::empty()
        };
        head + w + s + i
    }
}

fn push_bullets(lines: &mut Vec<String>, texts: &[String])
    ensures
        strings_view(final(lines)@) == strings_view(old(lines)@) + bullets(strings_view(texts@)),
{
    let ghost base = strings_view(lines@);
    let n = texts.len();
    let mut i: usize = 0;
    while i < n
        invariant
            n == texts@.len(),
            i <= n,
            strings_view(lines@) == base + bullets(strings_view(texts@)).take(i as int),
        decreases n - i,
    {
        let mut v: Vec<char> = Vec::new();
        push_str(&mut v, "- ");
        push_str(&mut v, texts[i].as_str());
        push_line(lines, v.as_slice());
        assert(bullets(strings_view(texts@)).take(i + 1) =~= bullets(strings_view(texts@)).take(
            i as int,
        ).push("- "@ + texts@[i as int]@));
        i = i + 1;
    }
    assert(bullets(strings_view(texts@)).take(n as int) =~= bullets(strings_view(texts@)));
}

/// The report of the trip doctor for trip `trip_name`, line by line.
pub fn doctor_report_lines(trip_name: &str, report: &DoctorReport) -> (lines: Vec<String>)
    ensures
        strings_view(lines@) == doctor_report_text(
            trip_name@,
            strings_view(report.warnings@),
            strings_view(report.suggestions@),
            strings_view(report.info@),
        ),
{
    let mut lines: Vec<String> = Vec::new();
    push_text_line(&mut lines, "Trip Doctor");
    push_text_line(&mut lines, "===========");
    push_blank(&mut lines);
    let mut t: Vec<char> = Vec::new();
    push_str(&mut t, "Trip: ");
    push_str(&mut t, trip_name);
    push_line(&mut lines, t.as_slice());
    push_blank(&mut lines);
    if report.warnings.len() == 0 && report.suggestions.len() == 0 && report.info.len() == 0 {
        push_text_line(&mut lines, "No major issues found.");
        assert(strings_view(lines@) =~~= doctor_report_text(
            trip_name@,
            strings_view(report.warnings@),
            strings_view(report.suggestions@),
            strings_view(report.info@),
        ));
        return lines;
    }
    if report.warnings.len() > 0 {
        push_text_line(&mut lines, "Warnings");
        push_text_line(&mut lines, "--------");
        push_bullets(&mut lines, report.warnings.as_slice());
        push_blank(&mut lines);
    }
    if report.suggestions.len() > 0 {
        push_text_line(&mut lines, "Suggestions");
        push_text_line(&mut lines, "-----------");
        push_bullets(&mut lines, report.suggestions.as_slice());
        if report.info.len() > 0 {
            push_blank(&mut lines);
        }
    }
    if report.info.len() > 0 {
        push_text_line(&mut lines, "Info");
        push_text_line(&mut lines, "----");
        push_bullets(&mut lines, report.info.as_slice());
    }
    assert(strings_view(lines@) =~~= doctor_report_text(
        trip_name@,
        strings_view(report.warnings@),
        strings_view(report.suggestions@),
        strings_view(report.info@),
    ));
    lines
}

} // verus!
