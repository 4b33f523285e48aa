//! Throttled progress reporting.
//!
//! A [`ProgressReporter`] keeps the time of the last status line and lets a
//! new one through only when the interval has passed since. Times are counts
//! of nanoseconds from a clock that the caller reads. The summary of a pass
//! is never held back.

use vstd::prelude::*;
use vstd::string::StringExecFns;
use crate::engine::ScanPhase;
use crate::text::{decimal, decimal_text, padded, padded_text};

verus! {

/// One second, the interval between status lines unless another is asked for.
pub const DEFAULT_INTERVAL: u64 = 1_000_000_000;

/// The width to which the path of a status line is padded.
pub const PATH_WIDTH: usize = 100;

/// `bytesize::to_string` with decimal unit steps: a byte count for a reader,
/// such as `1.5 KB`. Nothing is claimed of the text.
#[verifier::external_body]
fn human_size(bytes: u64) -> (text: String) {
    bytesize::to_string(bytes, false)
}

/// Whether a status line is due at `now`: more than the interval has passed
/// since the last one.
pub open spec fn is_due(interval: u64, last: u64, now: u64) -> bool {
    now - last > interval
}

/// A status line: a carriage return, so that the line takes the place of
/// the one before it, then the position in the pass, the wasted bytes so
/// far, and the path at hand, padded to a fixed width.
pub open spec fn status_text(current: u64, total: u64, size: Seq<char>, path: Seq<char>) -> Seq<
    char,
> {
    "\r["@ + decimal_text(current as nat) + "/"@ + decimal_text(total as nat) + "]["@ + size
        + "] "@ + padded_text(path, PATH_WIDTH as nat)
}

/// The summary line of a pass. It begins with a carriage return and so takes
/// the place of the last status line.
pub open spec fn summary_text(phase: ScanPhase, size: Seq<char>, count: u64) -> Seq<char> {
    match phase {
        ScanPhase::Prefilter => "\rFirst pass finished, potentially wasted "@ + size + " in "@
            + decimal_text(count as nat) + " duplicated files."@,
        ScanPhase::Confirmation => "\rSecond pass finished, wasted "@ + size + " in "@
            + decimal_text(count as nat) + " duplicated files."@,
    }
}

/// A status line from its parts, the wasted bytes given as text.
pub fn status_line(current: u64, total: u64, size: &str, path: &str) -> (line: String)
    ensures
        line@ == status_text(current, total, size@, path@),
{
    let mut line = String::from_str("\r[");
    line.append(decimal(current).as_str());
    line.append("/");
    line.append(decimal(total).as_str());
    line.append("][");
    line.append(size);
    line.append("] ");
    line.append(padded(path, PATH_WIDTH).as_str());
    line
}

/// The summary line of a pass from its parts, the wasted bytes given as
/// text.
pub fn summary_line(phase: ScanPhase, size: &str, count: u64) -> (line: String)
    ensures
        line@ == summary_text(phase, size@, count),
{
    let mut line = match phase {
        ScanPhase::Prefilter => String::from_str("\rFirst pass finished, potentially wasted "),
        ScanPhase::Confirmation => String::from_str("\rSecond pass finished, wasted "),
    };
    line.append(size);
    line.append(" in ");
    line.append(decimal(count).as_str());
    line.append(" duplicated files.");
    line
}

/// The throttle of the status lines.
#[derive(Clone, Copy, Debug, PartialEq, Eq, Structural)]
pub struct ProgressReporter {
    /// The least time between two status lines.
    pub interval: u64,
    /// When the last status line was let through, or when reporting began.
    pub last: u64,
}

impl ProgressReporter {
    /// A reporter that begins at `now`.
    pub fn new(interval: u64, now: u64) -> (reporter: ProgressReporter)
        ensures
            reporter.interval == interval,
            reporter.last == now,
    {
        ProgressReporter { interval, last: now }
    }

    /// Whether a status line is due at `now`. Where it is, `now` becomes the
    /// time of the last line; where it is not, nothing changes.
    pub fn tick(&mut self, now: u64) -> (due: bool)
        ensures
            due == is_due(old(self).interval, old(self).last, now),
            final(self).interval == old(self).interval,
            final(self).last == if due {
                now
            } else {
                old(self).last
            },
    {
        let due = now > self.last && now - self.last > self.interval;
        if due {
            self.last = now;
        }
        due
    }

    /// The status line for `now`, if one is due: at most one line for each
    /// interval.
    pub fn status(&mut self, now: u64, current: u64, total: u64, wasted: u64, path: &str) -> (line:
        Option<String>)
        ensures
            line is Some == is_due(old(self).interval, old(self).last, now),
            final(self).interval == old(self).interval,
            final(self).last == if line is Some {
                now
            } else {
                old(self).last
            },
            line matches Some(text) ==> exists|size: Seq<char>|
                text@ == #[trigger] status_text(current, total, size, path@),
    {
        if self.tick(now) {
            let size = human_size(wasted);
            let text = status_line(current, total, size.as_str(), path);
            assert(text@ == status_text(current, total, size@, path@));
            Some(text)
        } else {
            None
        }
    }

    /// The summary line of a pass, whatever the time.
    pub fn summary(&self, phase: ScanPhase, wasted: u64, count: u64) -> (line: String)
        ensures
            exists|size: Seq<char>| line@ == #[trigger] summary_text(phase, size, count),
    {
        let size = human_size(wasted);
        let line = summary_line(phase, size.as_str(), count);
        assert(line@ == summary_text(phase, size@, count));
        line
    }
}

} // verus!
