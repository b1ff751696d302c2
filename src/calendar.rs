//! Calendar days and the planner that splits a backfill range into bounded
//! fetch windows.
use chrono::Datelike;
use vstd::prelude::*;

verus! {

/// The largest number of days that one fetch window spans.
pub const MAX_WINDOW_DAYS: i64 = 91;

/// The first date for which the remote source has data.
pub const EARLIEST_DATE: &'static str = "2023-01-01";

/// A calendar day, as its number counted from 0001-01-01 (day 1) in the
/// proleptic Gregorian calendar.
#[derive(Clone, Copy, Debug, PartialEq, Eq, Structural)]
pub struct CalendarDay {
    pub days: i32,
}

/// An inclusive range of calendar days that bounds one historical fetch.
#[derive(Clone, Copy, Debug, PartialEq, Eq, Structural)]
pub struct DateWindow {
    pub start: CalendarDay,
    pub end: CalendarDay,
}

/// The day that `text` names in the form `YYYY-MM-DD`, if it names one.
pub uninterp spec fn day_of_text(text: Seq<char>) -> Option<int>;

/// The `YYYY-MM-DD` form of a day number, if the day is in the supported range.
pub uninterp spec fn text_of_day(days: int) -> Option<Seq<char>>;

/// Relies on chrono's `NaiveDate::parse_from_str` with `%Y-%m-%d` and
/// `Datelike::num_days_from_ce`: the day that the text names, or nothing.
#[verifier::external_body]
fn parse_day_text(text: &str) -> (r: Option<i32>)
    ensures
        match r {
            Some(d) => day_of_text(text@) == Some(d as int),
            None => day_of_text(text@) is None,
        },
{
    chrono::NaiveDate::parse_from_str(text, "%Y-%m-%d").ok().map(|d| d.num_days_from_ce())
}

/// Relies on chrono's `NaiveDate::from_num_days_from_ce_opt` and
/// `format("%Y-%m-%d")`: the text of the day, or nothing out of range.
#[verifier::external_body]
fn format_day(days: i32) -> (r: Option<String>)
    ensures
        match r {
            Some(s) => text_of_day(days as int) == Some(s@),
            None => text_of_day(days as int) is None,
        },
{
    chrono::NaiveDate::from_num_days_from_ce_opt(days).map(|d| d.format("%Y-%m-%d").to_string())
}

impl CalendarDay {
    /// Reads a day written `YYYY-MM-DD`.
    pub fn parse(text: &str) -> (r: Option<CalendarDay>)
        ensures
            match r {
                Some(d) => day_of_text(text@) == Some(d.days as int),
                None => day_of_text(text@) is None,
            },
    {
        match parse_day_text(text) {
            Some(days) => Some(CalendarDay { days }),
            None => None,
        }
    }

    /// Writes the day as `YYYY-MM-DD`.
    pub fn to_text(&self) -> (r: Option<String>)
        ensures
            match r {
                Some(s) => text_of_day(self.days as int) == Some(s@),
                None => text_of_day(self.days as int) is None,
            },
    {
        format_day(self.days)
    }
}

/// The first day of the window that ends on `end`: 90 days before it, so
/// that the window spans [`MAX_WINDOW_DAYS`] days, but not before `earliest`.
pub open spec fn window_start(end: int, earliest: int) -> int {
    if end - 90 > earliest {
        end - 90
    } else {
        earliest
    }
}

/// The windows, as `(start, end)` day pairs, that cover the days after
/// `earliest` up to `end`, latest first: each ends the day before the
/// previous one starts, and the walk stops once the end is not after
/// `earliest`.
pub open spec fn windows_spec(end: int, earliest: int) -> Seq<(int, int)>
    decreases end - earliest + 1,
{
    if end <= earliest {
        seq![]
    } else {
        let start = window_start(end, earliest);
        seq![(start, end)] + windows_spec(start - 1, earliest)
    }
}

/// The `(start, end)` day pair of a window.
pub open spec fn span_of(w: DateWindow) -> (int, int) {
    (w.start.days as int, w.end.days as int)
}

/// The day pairs of a sequence of windows.
pub open spec fn spans_of(ws: Seq<DateWindow>) -> Seq<(int, int)> {
    Seq::new(ws.len(), |k: int| span_of(ws[k]))
}

/// Splits the days after `earliest` up to `today` into windows of at most
/// [`MAX_WINDOW_DAYS`] days, latest first. Nothing is planned when `today`
/// is not after `earliest`.
pub fn plan_windows(today: CalendarDay, earliest: CalendarDay) -> (r: Vec<DateWindow>)
    ensures
        spans_of(r@) == windows_spec(today.days as int, earliest.days as int),
{
    let e = earliest.days as i64;
    let mut end = today.days as i64;
    let mut ws: Vec<DateWindow> = Vec::new();
    while end > e
        invariant
            e == earliest.days,
            i32::MIN - 1 <= end <= today.days,
            spans_of(ws@) + windows_spec(end as int, e as int) == windows_spec(
                today.days as int,
                e as int,
            ),
        decreases end - e + 1,
    {
        let start = if end - (MAX_WINDOW_DAYS - 1) > e {
            end - (MAX_WINDOW_DAYS - 1)
        } else {
            e
        };
        assert(windows_spec(end as int, e as int) == seq![(start as int, end as int)]
            + windows_spec(start - 1, e as int));
        let ghost before = spans_of(ws@);
        ws.push(DateWindow { start: CalendarDay { days: start as i32 }, end: CalendarDay { days: end as i32 } });
        assert(spans_of(ws@) =~= before + seq![(start as int, end as int)]);
        assert(spans_of(ws@) + windows_spec(start - 1, e as int) =~= before + windows_spec(end as int, e as int));
        end = start - 1;
    }
    assert(spans_of(ws@) =~= spans_of(ws@) + windows_spec(end as int, e as int));
    ws
}

/// Plans the backfill from [`EARLIEST_DATE`] up to `today`; nothing comes
/// back only if that date cannot be read.
pub fn backfill_plan(today: CalendarDay) -> (r: Option<Vec<DateWindow>>)
    ensures
        match r {
            Some(ws) => exists|e: int|
                day_of_text(EARLIEST_DATE@) == Some(e) && spans_of(ws@) == windows_spec(
                    today.days as int,
                    e,
                ),
            None => day_of_text(EARLIEST_DATE@) is None,
        },
{
    match CalendarDay::parse(EARLIEST_DATE) {
        Some(earliest) => Some(plan_windows(today, earliest)),
        None => None,
    }
}

/// A planned sequence of windows is latest first and seamless: each window
/// spans one to [`MAX_WINDOW_DAYS`] days, none starts before `earliest`,
/// each ends the day before the previous one starts, and every day from the
/// last start up to `end` lies in one of them.
pub open spec fn is_seamless(ws: Seq<(int, int)>, end: int, earliest: int) -> bool {
    &&& ws.len() > 0
    &&& ws[0].1 == end
    &&& forall|k: int|
        0 <= k < ws.len() ==> earliest <= (#[trigger] ws[k]).0 <= ws[k].1 && ws[k].1 - ws[k].0
            < MAX_WINDOW_DAYS
    &&& forall|k: int| 0 <= k < ws.len() - 1 ==> (#[trigger] ws[k + 1]).1 == ws[k].0 - 1
    &&& forall|k1: int, k2: int|
        0 <= k1 < k2 < ws.len() ==> (#[trigger] ws[k2]).1 < (#[trigger] ws[k1]).0
    &&& forall|d: int| ws.last().0 <= d <= end ==> #[trigger] in_some_window(ws, d)
}

/// Day `d` lies in one of the windows.
pub open spec fn in_some_window(ws: Seq<(int, int)>, d: int) -> bool {
    exists|k: int| 0 <= k < ws.len() && (#[trigger] ws[k]).0 <= d <= ws[k].1
}

proof fn lemma_windows_shape(end: int, earliest: int)
    requires
        end > earliest,
    ensures
        is_seamless(windows_spec(end, earliest), end, earliest),
        windows_spec(end, earliest).last().0 == earliest || windows_spec(end, earliest).last().0
            == earliest + 1,
        (end - earliest) % 91 != 0 ==> windows_spec(end, earliest).last().0 == earliest,
    decreases end - earliest + 1,
{
    assert(MAX_WINDOW_DAYS == 91);
    let ws = windows_spec(end, earliest);
    let start = window_start(end, earliest);
    let rest = windows_spec(start - 1, earliest);
    assert(ws == seq![(start, end)] + rest);
    if start - 1 <= earliest {
        assert(ws =~= seq![(start, end)]);
        assert forall|d: int| ws.last().0 <= d <= end implies #[trigger] in_some_window(ws, d) by {
            assert(ws[0].0 <= d <= ws[0].1);
        }
    } else {
        lemma_windows_shape(start - 1, earliest);
        assert(start == end - 90);
        assert((start - 1 - earliest) % 91 == (end - earliest) % 91);
        assert(ws.last() == rest.last());
        assert forall|k: int| 0 <= k < ws.len() implies earliest <= (#[trigger] ws[k]).0 <= ws[k].1
            && ws[k].1 - ws[k].0 < MAX_WINDOW_DAYS by {
            if k > 0 {
                assert(ws[k] == rest[k - 1]);
            }
        }
        assert forall|k: int| 0 <= k < ws.len() - 1 implies (#[trigger] ws[k + 1]).1 == ws[k].0
            - 1 by {
            assert(ws[k + 1] == rest[k]);
            if k > 0 {
                assert(ws[k] == rest[k - 1]);
                let j = k - 1;
                assert(0 <= j < rest.len() - 1);
                assert(rest[j + 1].1 == rest[j].0 - 1);
            } else {
                assert(ws[0] == (start, end));
                assert(rest[0].1 == start - 1);
            }
        }
        assert forall|k1: int, k2: int| 0 <= k1 < k2 < ws.len() implies (#[trigger] ws[k2]).1 < (
        #[trigger] ws[k1]).0 by {
            assert(ws[k2] == rest[k2 - 1]);
            if k1 > 0 {
                assert(ws[k1] == rest[k1 - 1]);
            } else {
                assert(rest[k2 - 1].1 <= start - 1) by {
                    if k2 - 1 > 0 {
                        assert(rest[k2 - 1].1 < rest[0].0);
                    }
                }
            }
        }
        assert forall|d: int| ws.last().0 <= d <= end implies #[trigger] in_some_window(ws, d) by {
            if d >= start {
                assert(ws[0].0 <= d <= ws[0].1);
            } else {
                assert(in_some_window(rest, d));
                let j = choose|j: int| 0 <= j < rest.len() && (#[trigger] rest[j]).0 <= d <= rest[j].1;
                assert(ws[j + 1] == rest[j]);
            }
        }
    }
}

/// Nothing is planned when `today` is not after `earliest`.
pub proof fn lemma_no_windows_when_caught_up(today: CalendarDay, earliest: CalendarDay)
    requires
        today.days <= earliest.days,
    ensures
        windows_spec(today.days as int, earliest.days as int).len() == 0,
{
}

/// When `today` is after `earliest`, the plan is seamless: the first window
/// ends on `today`, starts strictly decrease, windows neither overlap nor
/// leave a gap, and the last window starts on `earliest` or the day after.
pub proof fn lemma_windows_seamless(today: CalendarDay, earliest: CalendarDay)
    requires
        today.days > earliest.days,
    ensures
        is_seamless(
            windows_spec(today.days as int, earliest.days as int),
            today.days as int,
            earliest.days as int,
        ),
        windows_spec(today.days as int, earliest.days as int).last().0 == earliest.days
            || windows_spec(today.days as int, earliest.days as int).last().0 == earliest.days + 1,
{
    lemma_windows_shape(today.days as int, earliest.days as int);
}

/// When `today` is after `earliest` and the distance between them is not a
/// multiple of [`MAX_WINDOW_DAYS`], the last window starts exactly on
/// `earliest`, so the windows cover every day from `earliest` to `today`.
pub proof fn lemma_windows_cover_range(today: CalendarDay, earliest: CalendarDay)
    requires
        today.days > earliest.days,
        (today.days - earliest.days) % (MAX_WINDOW_DAYS as int) != 0,
    ensures
        is_seamless(
            windows_spec(today.days as int, earliest.days as int),
            today.days as int,
            earliest.days as int,
        ),
        windows_spec(today.days as int, earliest.days as int).last().0 == earliest.days,
{
    assert(MAX_WINDOW_DAYS == 91);
    lemma_windows_shape(today.days as int, earliest.days as int);
}

} // verus!
