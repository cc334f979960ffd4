//! The line classifier: which of the three patterns a line holds.

use vstd::prelude::*;
use crate::pattern::{
    engine_accepts, engine_captures, first_captures, LineScan, ScanTexts, DURATION_PATTERN,
    POSITION_PATTERN, RATE_PATTERN,
};
use crate::progress::{Progress, Snapshot};

verus! {

/// Whether the engine accepts every pattern that is searched for while the
/// run stands at `s`.
pub open spec fn patterns_accepted(s: Snapshot) -> bool {
    &&& s.total_units is None ==> engine_accepts(DURATION_PATTERN@)
    &&& s.frame_rate is None ==> engine_accepts(RATE_PATTERN@)
    &&& engine_accepts(POSITION_PATTERN@)
}

/// What the searches find in `text` while the run stands at `s`. The duration
/// is searched for only while the total is unknown, the frame rate only while
/// it is unknown, the position always.
pub open spec fn line_scan(s: Snapshot, text: Seq<char>) -> ScanTexts {
    ScanTexts {
        duration: if s.total_units is None {
            engine_captures(DURATION_PATTERN@, text)
        } else {
            None
        },
        rate: if s.frame_rate is None {
            engine_captures(RATE_PATTERN@, text)
        } else {
            None
        },
        position: engine_captures(POSITION_PATTERN@, text),
    }
}

/// Searches `text` for the patterns that the run still needs. `None` where
/// the engine turned one of them down.
pub fn scan_line(progress: &Progress, text: &str) -> (scan: Option<LineScan>)
    ensures
        scan is Some <==> patterns_accepted(progress@),
        scan matches Some(found) ==> found@ == line_scan(progress@, text@),
{
    let known = progress.snapshot();
    let duration = if known.total_units.is_none() {
        match first_captures(DURATION_PATTERN, text) {
            Some(hit) => hit,
            None => return None,
        }
    } else {
        None
    };
    let rate = if known.frame_rate.is_none() {
        match first_captures(RATE_PATTERN, text) {
            Some(hit) => hit,
            None => return None,
        }
    } else {
        None
    };
    let position = match first_captures(POSITION_PATTERN, text) {
        Some(hit) => hit,
        None => return None,
    };
    Some(LineScan { duration, rate, position })
}

} // verus!
