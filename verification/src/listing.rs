//! The tables and detail views that the command line prints for trips,
//! itinerary items, checklist items and expenses, line by line. Columns are
//! left-aligned and padded with spaces to a width counted in characters.

use vstd::prelude::*;
use crate::markdown::fmt_checklist_mark;
use crate::models::{ChecklistItem, Expense, ItineraryItem, Trip};
use crate::money::{amount_display_text, format_amount_display, ExpenseListTarget};
use crate::schedule::{fmt_minutes, minutes_text};
use crate::text::{
    chars_of, int_text, nat_text, push_chars, push_int_text, push_line, push_nat_text, push_str,
    strings_view,
};

verus! {

/// `n` spaces.
pub open spec fn spaces(n: nat) -> Seq<char> {
    Seq::new(n, |i: int| ' ')
}

/// `s` followed by spaces up to `width` characters (`{:<width}`).
pub open spec fn padded(s: Seq<char>, width: nat) -> Seq<char> {
    if s.len() >= width {
        s
    } else {
        s + spaces((width - s.len()) as nat)
    }
}

/// The text of an optional field, `-` when it is absent.
pub open spec fn dash_or(o: Option<String>) -> Seq<char> {
    match o {
        Some(t) => t@,
        None => "-"@,
    }
}

/// An optional number of minutes, `-` when it is absent.
pub open spec fn minutes_or_dash(o: Option<i64>) -> Seq<char> {
    match o {
        Some(m) => minutes_text(m as int),
        None => "-"@,
    }
}

/// `n` dashes.
pub open spec fn rule(n: nat) -> Seq<char> {
    Seq::new(n, |i: int| '-')
}

/// `合計: n 件`.
pub open spec fn total_line(n: nat) -> Seq<char> {
    "合計: "@ + nat_text(n) + " 件"@
}

/// Appends `s` left-aligned in a column of `width` characters.
pub fn push_padded(out: &mut Vec<char>, s: &[char], width: usize)
    ensures
        final(out)@ == old(out)@ + padded(s@, width as nat),
{
    push_chars(out, s);
    if s.len() < width {
        let mut k: usize = s.len();
        while k < width
            invariant
                s@.len() <= k <= width,
                out@ == old(out)@ + s@ + spaces((k - s@.len()) as nat),
            decreases width - k,
        {
            out.push(' ');
            assert(spaces((k + 1 - s@.len()) as nat) =~= spaces((k - s@.len()) as nat).push(' '));
            k = k + 1;
        }
        assert(out@ =~= old(out)@ + padded(s@, width as nat));
    } else {
        assert(out@ =~= old(out)@ + padded(s@, width as nat));
    }
}

/// Appends the text `s` left-aligned in a column of `width` characters.
pub fn push_padded_str(out: &mut Vec<char>, s: &str, width: usize)
    ensures
        final(out)@ == old(out)@ + padded(s@, width as nat),
{
    let v = chars_of(s);
    push_padded(out, v.as_slice(), width);
}

/// Appends the decimal text of `n` left-aligned in a column of `width` characters.
pub fn push_padded_int(out: &mut Vec<char>, n: i64, width: usize)
    ensures
        final(out)@ == old(out)@ + padded(int_text(n as int), width as nat),
{
    let mut v: Vec<char> = Vec::new();
    push_int_text(&mut v, n);
    push_padded(out, v.as_slice(), width);
}

pub(crate) fn push_rule(lines: &mut Vec<String>, n: usize)
    ensures
        strings_view(final(lines)@) == strings_view(old(lines)@).push(rule(n as nat)),
{
    let mut v: Vec<char> = Vec::new();
    let mut k: usize = 0;
    while k < n
        invariant
            k <= n,
            v@ == rule(k as nat),
        decreases n - k,
    {
        v.push('-');
        assert(rule((k + 1) as nat) =~= rule(k as nat).push('-'));
        k = k + 1;
    }
    push_line(lines, v.as_slice());
}

pub(crate) fn push_text_line(lines: &mut Vec<String>, s: &str)
    ensures
        strings_view(final(lines)@) == strings_view(old(lines)@).push(s@),
{
    let v = chars_of(s);
    push_line(lines, v.as_slice());
}

pub(crate) fn push_total_line(lines: &mut Vec<String>, n: usize)
    ensures
        strings_view(final(lines)@) == strings_view(old(lines)@).push(total_line(n as nat)),
{
    let mut v: Vec<char> = Vec::new();
    push_str(&mut v, "合計: ");
    push_nat_text(&mut v, n as u64);
    push_str(&mut v, " 件");
    assert(v@ =~= total_line(n as nat));
    push_line(lines, v.as_slice());
}

/// A labelled detail line, `label` then `value`.
pub(crate) fn push_labelled(lines: &mut Vec<String>, label: &str, value: &[char])
    ensures
        strings_view(final(lines)@) == strings_view(old(lines)@).push(label@ + value@),
{
    let mut v: Vec<char> = Vec::new();
    push_str(&mut v, label);
    push_chars(&mut v, value);
    assert(v@ =~= label@ + value@);
    push_line(lines, v.as_slice());
}

pub(crate) fn push_labelled_str(lines: &mut Vec<String>, label: &str, value: &str)
    ensures
        strings_view(final(lines)@) == strings_view(old(lines)@).push(label@ + value@),
{
    let v = chars_of(value);
    push_labelled(lines, label, v.as_slice());
}

pub(crate) fn push_labelled_int(lines: &mut Vec<String>, label: &str, n: i64)
    ensures
        strings_view(final(lines)@) == strings_view(old(lines)@).push(label@ + int_text(n as int)),
{
    let mut v: Vec<char> = Vec::new();
    push_int_text(&mut v, n);
    push_labelled(lines, label, v.as_slice());
}

pub(crate) fn dash_or_str(o: &Option<String>) -> (s: &str)
    ensures
        s@ == dash_or(*o),
{
    match o {
        Some(t) => t.as_str(),
        None => "-",
    }
}

// ---- trips ----

pub open spec fn trip_header() -> Seq<char> {
    padded("ID"@, 6) + seq![' '] + padded("名前"@, 20) + seq![' '] + padded("開始日"@, 12) + seq![' '] + padded(
        "終了日"@,
        12,
    )
}

pub open spec fn trip_row(t: Trip) -> Seq<char> {
    padded(int_text(t.id as int), 6) + seq![' '] + padded(t.name@, 20) + seq![' '] + padded(
        dash_or(t.start_date),
        12,
    ) + seq![' '] + padded(dash_or(t.end_date), 12)
}

/// The trip table, or a notice when there is no trip.
pub open spec fn trip_list_text(trips: Seq<Trip>) -> Seq<Seq<char>> {
    if trips.len() == 0 {
        seq!["旅行はまだ登録されていません。"@]
    } else {
        seq![trip_header(), rule(52)] + Seq::new(trips.len(), |i: int| trip_row(trips[i])) + seq![
            Seq::<char>::empty(),
            total_line(trips.len()),
        ]
    }
}

fn trip_header_line(lines: &mut Vec<String>)
    ensures
        strings_view(final(lines)@) == strings_view(old(lines)@).push(trip_header()),
{
    let mut v: Vec<char> = Vec::new();
    push_padded_str(&mut v, "ID", 6);
    v.push(' ');
    push_padded_str(&mut v, "名前", 20);
    v.push(' ');
    push_padded_str(&mut v, "開始日", 12);
    v.push(' ');
    push_padded_str(&mut v, "終了日", 12);
    assert(v@ =~= trip_header());
    push_line(lines, v.as_slice());
}

fn trip_row_line(lines: &mut Vec<String>, t: &Trip)
    ensures
        strings_view(final(lines)@) == strings_view(old(lines)@).push(trip_row(*t)),
{
    let mut v: Vec<char> = Vec::new();
    push_padded_int(&mut v, t.id, 6);
    v.push(' ');
    push_padded_str(&mut v, t.name.as_str(), 20);
    v.push(' ');
    push_padded_str(&mut v, dash_or_str(&t.start_date), 12);
    v.push(' ');
    push_padded_str(&mut v, dash_or_str(&t.end_date), 12);
    assert(v@ =~= trip_row(*t));
    push_line(lines, v.as_slice());
}

/// The lines of the trip table.
pub fn trip_list_lines(trips: &[Trip]) -> (lines: Vec<String>)
    ensures
        strings_view(lines@) == trip_list_text(trips@),
{
    let mut lines: Vec<String> = Vec::new();
    if trips.len() == 0 {
        push_text_line(&mut lines, "旅行はまだ登録されていません。");
        assert(strings_view(lines@) =~= trip_list_text(trips@));
        return lines;
    }
    trip_header_line(&mut lines);
    push_rule(&mut lines, 52);
    let ghost head = strings_view(lines@);
    let n = trips.len();
    let mut i: usize = 0;
    while i < n
        invariant
            n == trips@.len(),
            i <= n,
            strings_view(lines@) == head + Seq::new(i as nat, |k: int| trip_row(trips@[k])),
        decreases n - i,
    {
        trip_row_line(&mut lines, &trips[i]);
        assert(Seq::new((i + 1) as nat, |k: int| trip_row(trips@[k])) =~= Seq::new(
            i as nat,
            |k: int| trip_row(trips@[k]),
        ).push(trip_row(trips@[i as int])));
        i = i + 1;
    }
    let empty: Vec<char> = Vec::new();
    push_line(&mut lines, empty.as_slice());
    push_total_line(&mut lines, n);
    assert(strings_view(lines@) =~= trip_list_text(trips@));
    lines
}

/// The detail view of one trip.
pub open spec fn trip_detail_text(t: Trip) -> Seq<Seq<char>> {
    seq![
        "ID        : "@ + int_text(t.id as int),
        "名前      : "@ + t.name@,
        "開始日    : "@ + dash_or(t.start_date),
        "終了日    : "@ + dash_or(t.end_date),
        "作成日時  : "@ + t.created_at@,
        "更新日時  : "@ + t.updated_at@,
    ]
}

pub fn trip_detail_lines(t: &Trip) -> (lines: Vec<String>)
    ensures
        strings_view(lines@) == trip_detail_text(*t),
{
    let mut lines: Vec<String> = Vec::new();
    push_labelled_int(&mut lines, "ID        : ", t.id);
    push_labelled_str(&mut lines, "名前      : ", t.name.as_str());
    push_labelled_str(&mut lines, "開始日    : ", dash_or_str(&t.start_date));
    push_labelled_str(&mut lines, "終了日    : ", dash_or_str(&t.end_date));
    push_labelled_str(&mut lines, "作成日時  : ", t.created_at.as_str());
    push_labelled_str(&mut lines, "更新日時  : ", t.updated_at.as_str());
    assert(strings_view(lines@) =~= trip_detail_text(*t));
    lines
}

// ---- itinerary items ----

pub open spec fn itinerary_header() -> Seq<char> {
    padded("ID"@, 6) + seq![' '] + padded("日目"@, 6) + seq![' '] + padded("時刻"@, 8) + seq![' ']
        + padded("タイトル"@, 16) + seq![' '] + padded("所要"@, 8) + seq![' '] + padded("移動"@, 8)
        + seq![' '] + padded("メモ"@, 12)
}

pub open spec fn itinerary_row_head(it: ItineraryItem) -> Seq<char> {
    padded(int_text(it.id as int), 6) + seq![' '] + padded(int_text(it.day as int), 6) + seq![' ']
        + padded(dash_or(it.start_time), 8) + seq![' '] + padded(it.title@, 16) + seq![' ']
}

pub open spec fn itinerary_row_tail(it: ItineraryItem) -> Seq<char> {
    padded(minutes_or_dash(it.duration_minutes), 8) + seq![' '] + padded(
        minutes_or_dash(it.travel_minutes),
        8,
    ) + seq![' '] + padded(dash_or(it.note), 12)
}

pub open spec fn itinerary_row(it: ItineraryItem) -> Seq<char> {
    itinerary_row_head(it) + itinerary_row_tail(it)
}

/// The itinerary table, or a notice when there is no item.
pub open spec fn itinerary_list_text(items: Seq<ItineraryItem>) -> Seq<Seq<char>> {
    if items.len() == 0 {
        seq!["日程はまだ登録されていません。"@]
    } else {
        seq![itinerary_header(), rule(70)] + Seq::new(
            items.len(),
            |i: int| itinerary_row(items[i]),
        ) + seq![Seq::<char>::empty(), total_line(items.len())]
    }
}

fn itinerary_header_line(lines: &mut Vec<String>)
    ensures
        strings_view(final(lines)@) == strings_view(old(lines)@).push(itinerary_header()),
{
    let mut v: Vec<char> = Vec::new();
    push_padded_str(&mut v, "ID", 6);
    v.push(' ');
    push_padded_str(&mut v, "日目", 6);
    v.push(' ');
    push_padded_str(&mut v, "時刻", 8);
    v.push(' ');
    push_padded_str(&mut v, "タイトル", 16);
    v.push(' ');
    push_padded_str(&mut v, "所要", 8);
    v.push(' ');
    push_padded_str(&mut v, "移動", 8);
    v.push(' ');
    push_padded_str(&mut v, "メモ", 12);
    assert(v@ =~= itinerary_header());
    push_line(lines, v.as_slice());
}

fn push_itinerary_row_head(v: &mut Vec<char>, it: &ItineraryItem)
    ensures
        final(v)@ == old(v)@ + itinerary_row_head(*it),
{
    push_padded_int(v, it.id, 6);
    v.push(' ');
    push_padded_int(v, it.day, 6);
    v.push(' ');
    push_padded_str(v, dash_or_str(&it.start_time), 8);
    v.push(' ');
    push_padded_str(v, it.title.as_str(), 16);
    v.push(' ');
    assert(v@ =~= old(v)@ + itinerary_row_head(*it));
}

fn push_itinerary_row_tail(v: &mut Vec<char>, it: &ItineraryItem)
    ensures
        final(v)@ == old(v)@ + itinerary_row_tail(*it),
{
    let d = fmt_minutes(it.duration_minutes);
    push_padded_str(v, d.as_str(), 8);
    v.push(' ');
    let t = fmt_minutes(it.travel_minutes);
    push_padded_str(v, t.as_str(), 8);
    v.push(' ');
    push_padded_str(v, dash_or_str(&it.note), 12);
    assert(v@ =~= old(v)@ + itinerary_row_tail(*it));
}

fn itinerary_row_line(lines: &mut Vec<String>, it: &ItineraryItem)
    ensures
        strings_view(final(lines)@) == strings_view(old(lines)@).push(itinerary_row(*it)),
{
    let mut v: Vec<char> = Vec::new();
    push_itinerary_row_head(&mut v, it);
    push_itinerary_row_tail(&mut v, it);
    assert(v@ =~= itinerary_row(*it));
    push_line(lines, v.as_slice());
}

/// The lines of the itinerary table.
pub fn itinerary_list_lines(items: &[ItineraryItem]) -> (lines: Vec<String>)
    ensures
        strings_view(lines@) == itinerary_list_text(items@),
{
    let mut lines: Vec<String> = Vec::new();
    if items.len() == 0 {
        push_text_line(&mut lines, "日程はまだ登録されていません。");
        assert(strings_view(lines@) =~= itinerary_list_text(items@));
        return lines;
    }
    itinerary_header_line(&mut lines);
    push_rule(&mut lines, 70);
    let ghost head = strings_view(lines@);
    let n = items.len();
    let mut i: usize = 0;
    while i < n
        invariant
            n == items@.len(),
            i <= n,
            strings_view(lines@) == head + Seq::new(i as nat, |k: int| itinerary_row(items@[k])),
        decreases n - i,
    {
        itinerary_row_line(&mut lines, &items[i]);
        assert(Seq::new((i + 1) as nat, |k: int| itinerary_row(items@[k])) =~= Seq::new(
            i as nat,
            |k: int| itinerary_row(items@[k]),
        ).push(itinerary_row(items@[i as int])));
        i = i + 1;
    }
    let empty: Vec<char> = Vec::new();
    push_line(&mut lines, empty.as_slice());
    push_total_line(&mut lines, n);
    assert(strings_view(lines@) =~= itinerary_list_text(items@));
    lines
}

/// The detail view of one itinerary item.
pub open spec fn itinerary_detail_text(it: ItineraryItem) -> Seq<Seq<char>> {
    seq![
        "ID        : "@ + int_text(it.id as int),
        "旅行 ID   : "@ + int_text(it.trip_id as int),
        "日目      : "@ + int_text(it.day as int),
        "時刻      : "@ + dash_or(it.start_time),
        "並び順    : "@ + int_text(it.sort_order as int),
        "所要時間  : "@ + minutes_or_dash(it.duration_minutes),
        "移動時間  : "@ + minutes_or_dash(it.travel_minutes),
        "タイトル  : "@ + it.title@,
        "メモ      : "@ + dash_or(it.note),
        "作成日時  : "@ + it.created_at@,
        "更新日時  : "@ + it.updated_at@,
    ]
}

pub fn itinerary_detail_lines(it: &ItineraryItem) -> (lines: Vec<String>)
    ensures
        strings_view(lines@) == itinerary_detail_text(*it),
{
    let mut lines: Vec<String> = Vec::new();
    push_labelled_int(&mut lines, "ID        : ", it.id);
    push_labelled_int(&mut lines, "旅行 ID   : ", it.trip_id);
    push_labelled_int(&mut lines, "日目      : ", it.day);
    push_labelled_str(&mut lines, "時刻      : ", dash_or_str(&it.start_time));
    push_labelled_int(&mut lines, "並び順    : ", it.sort_order);
    let d = fmt_minutes(it.duration_minutes);
    push_labelled_str(&mut lines, "所要時間  : ", d.as_str());
    let t = fmt_minutes(it.travel_minutes);
    push_labelled_str(&mut lines, "移動時間  : ", t.as_str());
    push_labelled_str(&mut lines, "タイトル  : ", it.title.as_str());
    push_labelled_str(&mut lines, "メモ      : ", dash_or_str(&it.note));
    push_labelled_str(&mut lines, "作成日時  : ", it.created_at.as_str());
    push_labelled_str(&mut lines, "更新日時  : ", it.updated_at.as_str());
    assert(strings_view(lines@) =~= itinerary_detail_text(*it));
    lines
}

// ---- checklist items ----

pub open spec fn check_mark(done: bool) -> char {
    if done {
        'x'
    } else {
        ' '
    }
}

pub open spec fn checklist_row(c: ChecklistItem) -> Seq<char> {
    seq!['[', check_mark(c.is_done), ']', ' '] + int_text(c.id as int) + seq!['.', ' '] + c.title@
}

/// One `[x] id. title` line per item, or a notice when there is none.
pub open spec fn checklist_list_text(items: Seq<ChecklistItem>) -> Seq<Seq<char>> {
    if items.len() == 0 {
        seq!["チェックリストはまだ登録されていません。"@]
    } else {
        Seq::new(items.len(), |i: int| checklist_row(items[i]))
    }
}

fn checklist_row_line(lines: &mut Vec<String>, c: &ChecklistItem)
    ensures
        strings_view(final(lines)@) == strings_view(old(lines)@).push(checklist_row(*c)),
{
    let mut v: Vec<char> = Vec::new();
    v.push('[');
    v.push(fmt_checklist_mark(c.is_done));
    v.push(']');
    v.push(' ');
    push_int_text(&mut v, c.id);
    v.push('.');
    v.push(' ');
    push_str(&mut v, c.title.as_str());
    assert(v@ =~= checklist_row(*c));
    push_line(lines, v.as_slice());
}

pub fn checklist_list_lines(items: &[ChecklistItem]) -> (lines: Vec<String>)
    ensures
        strings_view(lines@) == checklist_list_text(items@),
{
    let mut lines: Vec<String> = Vec::new();
    if items.len() == 0 {
        push_text_line(&mut lines, "チェックリストはまだ登録されていません。");
        assert(strings_view(lines@) =~= checklist_list_text(items@));
        return lines;
    }
    let n = items.len();
    let mut i: usize = 0;
    while i < n
        invariant
            n == items@.len(),
            i <= n,
            strings_view(lines@) == Seq::new(i as nat, |k: int| checklist_row(items@[k])),
        decreases n - i,
    {
        checklist_row_line(&mut lines, &items[i]);
        assert(Seq::new((i + 1) as nat, |k: int| checklist_row(items@[k])) =~= Seq::new(
            i as nat,
            |k: int| checklist_row(items@[k]),
        ).push(checklist_row(items@[i as int])));
        i = i + 1;
    }
    assert(strings_view(lines@) =~= checklist_list_text(items@));
    lines
}

/// The detail view of one checklist item.
pub open spec fn checklist_detail_text(c: ChecklistItem) -> Seq<Seq<char>> {
    seq![
        "ID        : "@ + int_text(c.id as int),
        "旅行 ID   : "@ + int_text(c.trip_id as int),
        "状態      : "@ + seq!['[', check_mark(c.is_done), ']'],
        "並び順    : "@ + int_text(c.sort_order as int),
        "タイトル  : "@ + c.title@,
        "作成日時  : "@ + c.created_at@,
        "更新日時  : "@ + c.updated_at@,
    ]
}

pub fn checklist_detail_lines(c: &ChecklistItem) -> (lines: Vec<String>)
    ensures
        strings_view(lines@) == checklist_detail_text(*c),
{
    let mut lines: Vec<String> = Vec::new();
    push_labelled_int(&mut lines, "ID        : ", c.id);
    push_labelled_int(&mut lines, "旅行 ID   : ", c.trip_id);
    let mut mark: Vec<char> = Vec::new();
    mark.push('[');
    mark.push(fmt_checklist_mark(c.is_done));
    mark.push(']');
    assert(mark@ =~= seq!['[', check_mark(c.is_done), ']']);
    push_labelled(&mut lines, "状態      : ", mark.as_slice());
    push_labelled_int(&mut lines, "並び順    : ", c.sort_order);
    push_labelled_str(&mut lines, "タイトル  : ", c.title.as_str());
    push_labelled_str(&mut lines, "作成日時  : ", c.created_at.as_str());
    push_labelled_str(&mut lines, "更新日時  : ", c.updated_at.as_str());
    assert(strings_view(lines@) =~= checklist_detail_text(*c));
    lines
}

// ---- expenses ----

pub open spec fn expense_target_label(target: ExpenseListTarget) -> Seq<char> {
    match target {
        ExpenseListTarget::Trip(id) => "Trip "@ + int_text(id as int),
        ExpenseListTarget::Itinerary(id) => "Itinerary "@ + int_text(id as int),
    }
}

pub open spec fn expense_header() -> Seq<char> {
    padded("ID"@, 4) + seq![' '] + padded("Itin."@, 6) + seq![' '] + padded("Amount"@, 16) + seq![
        ' ',
    ] + padded("Title"@, 12) + seq![' '] + padded("Paid By"@, 10)
}

pub open spec fn expense_row(e: Expense) -> Seq<char> {
    padded(int_text(e.id as int), 4) + seq![' '] + padded(int_text(e.itinerary_id as int), 6)
        + seq![' '] + padded(amount_display_text(e.amount as int, e.currency@), 16) + seq![' ']
        + padded(dash_or(e.title), 12) + seq![' '] + padded(dash_or(e.paid_by_name), 10)
}

/// `<target> の Expense (n 件):`, then `（なし）` or the table.
pub open spec fn expense_list_text(target: ExpenseListTarget, expenses: Seq<Expense>) -> Seq<
    Seq<char>,
> {
    let first = expense_target_label(target) + " の Expense ("@ + nat_text(expenses.len())
        + " 件):"@;
    if expenses.len() == 0 {
        seq![first, "  （なし）"@]
    } else {
        seq![first, expense_header()] + Seq::new(expenses.len(), |i: int| expense_row(expenses[i]))
    }
}

fn expense_header_line(lines: &mut Vec<String>)
    ensures
        strings_view(final(lines)@) == strings_view(old(lines)@).push(expense_header()),
{
    let mut v: Vec<char> = Vec::new();
    push_padded_str(&mut v, "ID", 4);
    v.push(' ');
    push_padded_str(&mut v, "Itin.", 6);
    v.push(' ');
    push_padded_str(&mut v, "Amount", 16);
    v.push(' ');
    push_padded_str(&mut v, "Title", 12);
    v.push(' ');
    push_padded_str(&mut v, "Paid By", 10);
    assert(v@ =~= expense_header());
    push_line(lines, v.as_slice());
}

fn expense_row_line(lines: &mut Vec<String>, e: &Expense)
    ensures
        strings_view(final(lines)@) == strings_view(old(lines)@).push(expense_row(*e)),
{
    let mut v: Vec<char> = Vec::new();
    push_padded_int(&mut v, e.id, 4);
    v.push(' ');
    push_padded_int(&mut v, e.itinerary_id, 6);
    v.push(' ');
    let amount = format_amount_display(e.amount, e.currency.as_str());
    push_padded_str(&mut v, amount.as_str(), 16);
    v.push(' ');
    push_padded_str(&mut v, dash_or_str(&e.title), 12);
    v.push(' ');
    push_padded_str(&mut v, dash_or_str(&e.paid_by_name), 10);
    assert(v@ =~= expense_row(*e));
    push_line(lines, v.as_slice());
}

pub fn expense_list_lines(target: ExpenseListTarget, expenses: &[Expense]) -> (lines: Vec<String>)
    ensures
        strings_view(lines@) == expense_list_text(target, expenses@),
{
    let mut lines: Vec<String> = Vec::new();
    let mut first: Vec<char> = Vec::new();
    match target {
        ExpenseListTarget::Trip(id) => {
            push_str(&mut first, "Trip ");
            push_int_text(&mut first, id);
        },
        ExpenseListTarget::Itinerary(id) => {
            push_str(&mut first, "Itinerary ");
            push_int_text(&mut first, id);
        },
    }
    push_str(&mut first, " の Expense (");
    push_nat_text(&mut first, expenses.len() as u64);
    push_str(&mut first, " 件):");
    assert(first@ =~= expense_target_label(target) + " の Expense ("@ + nat_text(
        expenses@.len(),
    ) + " 件):"@);
    push_line(&mut lines, first.as_slice());
    if expenses.len() == 0 {
        push_text_line(&mut lines, "  （なし）");
        assert(strings_view(lines@) =~= expense_list_text(target, expenses@));
        return lines;
    }
    expense_header_line(&mut lines);
    let ghost head = strings_view(lines@);
    let n = expenses.len();
    let mut i: usize = 0;
    while i < n
        invariant
            n == expenses@.len(),
            i <= n,
            strings_view(lines@) == head + Seq::new(i as nat, |k: int| expense_row(expenses@[k])),
        decreases n - i,
    {
        expense_row_line(&mut lines, &expenses[i]);
        assert(Seq::new((i + 1) as nat, |k: int| expense_row(expenses@[k])) =~= Seq::new(
            i as nat,
            |k: int| expense_row(expenses@[k]),
        ).push(expense_row(expenses@[i as int])));
        i = i + 1;
    }
    assert(strings_view(lines@) =~= expense_list_text(target, expenses@));
    lines
}

/// The detail view of one expense.
pub open spec fn expense_detail_text(e: Expense) -> Seq<Seq<char>> {
    seq![
        "Expense ID  : "@ + int_text(e.id as int),
        "Itinerary ID: "@ + int_text(e.itinerary_id as int),
        "Title       : "@ + dash_or(e.title),
        "Amount      : "@ + amount_display_text(e.amount as int, e.currency@),
        "Paid By     : "@ + dash_or(e.paid_by_name),
        "Date        : "@ + dash_or(e.expense_date),
        "Note        : "@ + dash_or(e.note),
    ]
}

pub fn expense_detail_lines(e: &Expense) -> (lines: Vec<String>)
    ensures
        strings_view(lines@) == expense_detail_text(*e),
{
    let mut lines: Vec<String> = Vec::new();
    push_labelled_int(&mut lines, "Expense ID  : ", e.id);
    push_labelled_int(&mut lines, "Itinerary ID: ", e.itinerary_id);
    push_labelled_str(&mut lines, "Title       : ", dash_or_str(&e.title));
    let amount = format_amount_display(e.amount, e.currency.as_str());
    push_labelled_str(&mut lines, "Amount      : ", amount.as_str());
    push_labelled_str(&mut lines, "Paid By     : ", dash_or_str(&e.paid_by_name));
    push_labelled_str(&mut lines, "Date        : ", dash_or_str(&e.expense_date));
    push_labelled_str(&mut lines, "Note        : ", dash_or_str(&e.note));
    assert(strings_view(lines@) =~= expense_detail_text(*e));
    lines
}

} // verus!
