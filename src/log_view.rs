//! What the dashboard shows of the backend's log: the window of the file it
//! reads, the lines before a rotation notice, the lines about the selected
//! device, and the colour of each line.
use vstd::prelude::*;
use crate::text::{contains, seq_contains};

verus! {

/// How many bytes from the end of the log are read on each refresh.
pub const LOG_WINDOW: u64 = 80000;

/// A line holding this text says the log was rotated.
pub const ROTATION_MARKER: &'static str = "Received SIGHUP";

/// Lines holding this text concern the fee accounting and are always shown.
pub const FEE_MARKER: &'static str = "Fee";

/// Lines holding this text are warnings.
pub const WARNING_MARKER: &'static str = "WRN";

/// Lines holding this text are errors.
pub const ERROR_MARKER: &'static str = "ERR";

/// The offset at which reading a log of `len` bytes starts: the last
/// `LOG_WINDOW` bytes, or the whole file when it is smaller.
pub fn window_start(len: u64) -> (r: u64)
    ensures
        len > LOG_WINDOW ==> r == len - LOG_WINDOW,
        len <= LOG_WINDOW ==> r == 0,
{
    if len > LOG_WINDOW {
        len - LOG_WINDOW
    } else {
        0
    }
}

/// The lines read before a rotation notice, and whether one was seen: the
/// notice and everything after it are dropped.
pub fn lines_before_rotation(lines: &Vec<String>) -> (r: (Vec<String>, bool))
    ensures
        exists|k: int|
            0 <= k <= lines@.len() && r.0@ == lines@.subrange(0, k) && (forall|j: int|
                0 <= j < k ==> !seq_contains(#[trigger] lines@[j]@, ROTATION_MARKER@)) && (r.1 <==> k
                < lines@.len()) && (k < lines@.len() ==> seq_contains(lines@[k]@, ROTATION_MARKER@)),
{
    let mut out: Vec<String> = Vec::new();
    let mut i: usize = 0;
    while i < lines.len()
        invariant
            i <= lines@.len(),
            out@ == lines@.subrange(0, i as int),
            forall|j: int| 0 <= j < i ==> !seq_contains(#[trigger] lines@[j]@, ROTATION_MARKER@),
        decreases lines@.len() - i,
    {
        if contains(lines[i].as_str(), ROTATION_MARKER) {
            return (out, true);
        }
        out.push(lines[i].clone());
        assert(out@ =~= lines@.subrange(0, i + 1));
        i = i + 1;
    }
    assert(out@ =~= lines@.subrange(0, i as int));
    (out, false)
}

/// The text that marks a log line as being about the statistics named `name`.
pub fn log_tag(name: &str) -> (r: String)
    ensures
        r@ == name@ + ": "@,
{
    let mut tag = String::from_str(name);
    tag.append(": ");
    tag
}

/// A log line concerns the device whose statistics carry `tag`, or the fee.
pub open spec fn line_wanted(line: Seq<char>, tag: Seq<char>) -> bool {
    seq_contains(line, tag) || seq_contains(line, FEE_MARKER@)
}

/// The wanted lines, in order.
pub open spec fn wanted_lines(lines: Seq<String>, tag: Seq<char>) -> Seq<String>
    decreases lines.len(),
{
    if lines.len() == 0 {
        Seq::empty()
    } else if line_wanted(lines.last()@, tag) {
        wanted_lines(lines.drop_last(), tag).push(lines.last())
    } else {
        wanted_lines(lines.drop_last(), tag)
    }
}

/// The last `n` elements of `s` (all of them when there are fewer).
pub open spec fn last_n(s: Seq<String>, n: nat) -> Seq<String> {
    if s.len() <= n {
        s
    } else {
        s.subrange(s.len() - n, s.len() as int)
    }
}

/// The log lines to show for a device: those that mention `tag` or the fee,
/// the most recent `rows` of them, oldest first.
pub fn select_lines(lines: &Vec<String>, tag: &str, rows: usize) -> (r: Vec<String>)
    ensures
        r@ == last_n(wanted_lines(lines@, tag@), rows as nat),
{
    let mut kept: Vec<String> = Vec::new();
    let mut i: usize = 0;
    while i < lines.len()
        invariant
            i <= lines@.len(),
            kept@ == wanted_lines(lines@.subrange(0, i as int), tag@),
        decreases lines@.len() - i,
    {
        let ghost prev = lines@.subrange(0, i as int);
        let ghost next = lines@.subrange(0, i + 1);
        assert(next.drop_last() =~= prev);
        assert(next.last() == lines@[i as int]);
        if contains(lines[i].as_str(), tag) || contains(lines[i].as_str(), FEE_MARKER) {
            kept.push(lines[i].clone());
        }
        i = i + 1;
    }
    assert(lines@.subrange(0, lines@.len() as int) =~= lines@);
    let start: usize = if kept.len() > rows {
        kept.len() - rows
    } else {
        0
    };
    let mut out: Vec<String> = Vec::new();
    let mut k: usize = start;
    while k < kept.len()
        invariant
            start <= k <= kept@.len(),
            out@ == kept@.subrange(start as int, k as int),
        decreases kept@.len() - k,
    {
        out.push(kept[k].clone());
        assert(out@ =~= kept@.subrange(start as int, k + 1));
        k = k + 1;
    }
    assert(kept@.subrange(0, kept@.len() as int) =~= kept@);
    out
}

/// How a log line is coloured.
#[derive(Clone, Copy, Debug, PartialEq, Eq, Structural)]
pub enum LineColor {
    Normal,
    Warning,
    Error,
}

/// Warnings first, then errors; other lines are plain.
pub open spec fn spec_line_color(line: Seq<char>) -> LineColor {
    if seq_contains(line, WARNING_MARKER@) {
        LineColor::Warning
    } else if seq_contains(line, ERROR_MARKER@) {
        LineColor::Error
    } else {
        LineColor::Normal
    }
}

/// The colour of a log line.
pub fn line_color(line: &str) -> (r: LineColor)
    ensures
        r == spec_line_color(line@),
{
    if contains(line, WARNING_MARKER) {
        LineColor::Warning
    } else if contains(line, ERROR_MARKER) {
        LineColor::Error
    } else {
        LineColor::Normal
    }
}

} // verus!
