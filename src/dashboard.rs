//! The dashboard's decisions: whether the terminal is large enough, what an
//! input event does to the selected device, the colour of each health level,
//! and the cells of the statistics table.
use vstd::prelude::*;
use crate::format::{RATE_PLACEHOLDER, format_rate, spec_format_rate};
use crate::health::Health;
use crate::webdata::{StatDetail, Stats, Variant};

verus! {

/// Fewest terminal columns the layout needs.
pub const MIN_X: i32 = 126;

/// Fewest terminal rows the layout needs.
pub const MIN_Y: i32 = 26;

/// First terminal row below the fixed panel, where log lines start.
pub const LOG_FIRST_ROW: i32 = 21;

/// Whether a terminal of the measured size can hold the layout.
#[derive(Clone, Copy, Debug, PartialEq, Eq, Structural)]
pub enum SizeCheck {
    Fits,
    TooNarrow,
    TooShort,
}

/// Checks the columns first, then the rows.
pub fn check_size(x: i32, y: i32) -> (r: SizeCheck)
    ensures
        x < MIN_X ==> r == SizeCheck::TooNarrow,
        x >= MIN_X && y < MIN_Y ==> r == SizeCheck::TooShort,
        x >= MIN_X && y >= MIN_Y ==> r == SizeCheck::Fits,
{
    if x < MIN_X {
        SizeCheck::TooNarrow
    } else if y < MIN_Y {
        SizeCheck::TooShort
    } else {
        SizeCheck::Fits
    }
}

/// The rows left for log lines on a terminal of `y` rows.
pub fn log_rows(y: i32) -> (r: usize)
    ensures
        y >= LOG_FIRST_ROW ==> r == y - LOG_FIRST_ROW,
        y < LOG_FIRST_ROW ==> r == 0,
{
    if y >= LOG_FIRST_ROW {
        (y - LOG_FIRST_ROW) as usize
    } else {
        0
    }
}

/// One input event of the dashboard loop.
#[derive(Clone, Copy, Debug, PartialEq, Eq, Structural)]
pub enum Event {
    /// A digit key with its value.
    Digit(u32),
    /// The delete key.
    Delete,
    /// Any other key.
    Other,
    /// No key within the input timeout.
    Idle,
}

/// What the loop does after an event.
#[derive(Clone, Copy, Debug, PartialEq, Eq, Structural)]
pub enum Action {
    /// Redraw the current snapshot, clearing the screen first if asked.
    Show { clear: bool },
    /// Fetch a new snapshot and redraw.
    Refresh,
    /// Leave the loop.
    Exit,
    /// Nothing.
    Ignore,
}

/// The selected device and the action after `e`, given the variants of the
/// devices on screen, in order.
pub open spec fn spec_step(current: usize, e: Event, variants: Seq<Variant>) -> (usize, Action) {
    match e {
        Event::Digit(n) => if 1 <= n <= variants.len() {
            let next = (n - 1) as usize;
            (
                next,
                Action::Show {
                    clear: !(current < variants.len() && variants[current as int] == variants[next as int]),
                },
            )
        } else {
            (current, Action::Ignore)
        },
        Event::Delete => (current, Action::Exit),
        Event::Other => (current, Action::Ignore),
        Event::Idle => (current, Action::Refresh),
    }
}

/// Handles one input event: digit `n` selects device `n` (counting from 1)
/// when there is one, clearing the screen when its variant differs from the
/// one shown; delete exits; no key refreshes; anything else is ignored.
pub fn step(current: usize, e: Event, variants: &Vec<Variant>) -> (r: (usize, Action))
    ensures
        r == spec_step(current, e, variants@),
        current < variants@.len() ==> r.0 < variants@.len(),
{
    match e {
        Event::Digit(n) => {
            if 1 <= n && (n as usize) <= variants.len() {
                let next = (n - 1) as usize;
                let same = current < variants.len() && variants[current] == variants[next];
                (next, Action::Show { clear: !same })
            } else {
                (current, Action::Ignore)
            }
        },
        Event::Delete => (current, Action::Exit),
        Event::Other => (current, Action::Ignore),
        Event::Idle => (current, Action::Refresh),
    }
}

/// The selected device after a refresh to `count` devices: kept while it
/// still exists, else the first.
pub fn after_refresh(current: usize, count: usize) -> (r: usize)
    ensures
        current < count ==> r == current,
        current >= count ==> r == 0,
{
    if current < count {
        current
    } else {
        0
    }
}

/// The device selector is shown only for more than one device.
pub fn shows_selector(count: usize) -> (r: bool)
    ensures
        r == (count > 1),
{
    count > 1
}

/// The colour pair of a health level: 1 for `RampUp` up to 5 for `Critical`.
pub open spec fn spec_color_pair(h: Health) -> i16 {
    match h {
        Health::RampUp => 1,
        Health::SlowIncrease => 2,
        Health::Hold => 3,
        Health::SlowDecrease => 4,
        Health::Critical => 5,
    }
}

/// The colour pair of a health level.
pub fn color_pair(h: Health) -> (r: i16)
    ensures
        r == spec_color_pair(h),
{
    match h {
        Health::RampUp => 1,
        Health::SlowIncrease => 2,
        Health::Hold => 3,
        Health::SlowDecrease => 4,
        Health::Critical => 5,
    }
}

/// The colour pair of an optional level; 0 (no colour) for none.
pub fn color_pair_of(h: Option<Health>) -> (r: i16)
    ensures
        r == match h {
            Some(x) => spec_color_pair(x),
            None => 0,
        },
{
    match h {
        Some(x) => color_pair(x),
        None => 0,
    }
}

/// The rate per second, in thousandths, of a lifetime counter over its
/// start and end time; none when no time has passed, the counter is
/// negative, or the product or the elapsed time overflows.
pub open spec fn spec_lifetime_rate(count: int, start: int, end: int) -> Option<int> {
    if end > start && end - start <= i128::MAX && 0 <= count && count * 1000 <= i128::MAX {
        Some((count * 1000) / (end - start))
    } else {
        None
    }
}

/// The rate per second, in thousandths, of a last-minute counter.
pub open spec fn spec_minute_rate(count: int) -> Option<int> {
    if count >= 0 {
        Some(count / 60)
    } else {
        None
    }
}

/// The text of an optional rate.
pub open spec fn rate_cell(r: Option<int>) -> Seq<char> {
    match r {
        Some(v) => spec_format_rate(v),
        None => RATE_PLACEHOLDER@,
    }
}

/// Computes `spec_lifetime_rate`.
pub fn lifetime_rate(count: i128, start: i128, end: i128) -> (r: Option<i128>)
    ensures
        match r {
            Some(v) => spec_lifetime_rate(count as int, start as int, end as int) == Some(v as int),
            None => spec_lifetime_rate(count as int, start as int, end as int) is None,
        },
{
    if end > start && (start >= 0 || end <= i128::MAX + start) && 0 <= count && count <= i128::MAX
        / 1000 {
        let elapsed = end - start;
        let scaled = count * 1000;
        proof {
            assert(scaled / elapsed <= scaled) by (nonlinear_arith)
                requires
                    scaled >= 0,
                    elapsed >= 1,
            ;
            assert(scaled / elapsed >= 0) by (nonlinear_arith)
                requires
                    scaled >= 0,
                    elapsed >= 1,
            ;
        }
        Some(scaled / elapsed)
    } else {
        None
    }
}

fn rate_text(r: Option<i128>) -> (s: String)
    ensures
        s@ == match r {
            Some(v) => spec_format_rate(v as int),
            None => RATE_PLACEHOLDER@,
        },
{
    match r {
        Some(v) => format_rate(v),
        None => String::from_str(RATE_PLACEHOLDER),
    }
}

/// The six counters of a set, in table order: requested, calculated,
/// found, valid, submitted, accepted.
pub open spec fn counters(d: StatDetail) -> Seq<i128> {
    seq![d.requested, d.calculated, d.found, d.valid, d.submitted, d.accepted]
}

/// The twelve rate cells of a statistics row: six lifetime rates, then six
/// last-minute rates.
pub open spec fn row_cells(s: Stats) -> Seq<Seq<char>> {
    Seq::new(
        12,
        |i: int|
            if i < 6 {
                rate_cell(
                    spec_lifetime_rate(
                        counters(s.total)[i] as int,
                        s.total.start_time as int,
                        s.total.end_time as int,
                    ),
                )
            } else {
                rate_cell(spec_minute_rate(counters(s.minute)[i - 6] as int))
            },
    )
}

fn counter_at(d: StatDetail, i: usize) -> (r: i128)
    requires
        i < 6,
    ensures
        r == counters(d)[i as int],
{
    if i == 0 {
        d.requested
    } else if i == 1 {
        d.calculated
    } else if i == 2 {
        d.found
    } else if i == 3 {
        d.valid
    } else if i == 4 {
        d.submitted
    } else {
        d.accepted
    }
}

/// The rate cells of one row of the statistics table.
pub fn stat_row(s: &Stats) -> (r: Vec<String>)
    ensures
        r@.len() == 12,
        forall|i: int| 0 <= i < 12 ==> (#[trigger] r@[i])@ == row_cells(*s)[i],
{
    let mut out: Vec<String> = Vec::new();
    let mut i: usize = 0;
    while i < 6
        invariant
            i <= 6,
            out@.len() == i,
            forall|k: int| 0 <= k < i ==> (#[trigger] out@[k])@ == row_cells(*s)[k],
        decreases 6 - i,
    {
        let c = counter_at(s.total, i);
        out.push(rate_text(lifetime_rate(c, s.total.start_time, s.total.end_time)));
        i = i + 1;
    }
    while i < 12
        invariant
            6 <= i <= 12,
            out@.len() == i,
            forall|k: int| 0 <= k < i ==> (#[trigger] out@[k])@ == row_cells(*s)[k],
        decreases 12 - i,
    {
        let c = counter_at(s.minute, i - 6);
        let m = if c >= 0 {
            Some(c / 60)
        } else {
            None
        };
        out.push(rate_text(m));
        i = i + 1;
    }
    out
}

} // verus!
