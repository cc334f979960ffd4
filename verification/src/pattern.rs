//! The three line patterns, the engine that searches for them, and what a
//! search hands back.

use vstd::prelude::*;

verus! {

/// What a match took from a line: for each capture group the text that it
/// covers, or `None` where the group took no part in the match. Group 0 is
/// the whole match.
pub type Groups = Vec<Option<String>>;

/// The groups of a match by their texts.
pub type GroupTexts = Seq<Option<Seq<char>>>;

/// What the three line patterns found in one line, each `None` where its
/// pattern was not searched for or did not match.
#[derive(Clone, Debug, PartialEq, Eq)]
pub struct LineScan {
    pub duration: Option<Groups>,
    pub rate: Option<Groups>,
    pub position: Option<Groups>,
}

/// A [`LineScan`] by its texts.
pub struct ScanTexts {
    pub duration: Option<GroupTexts>,
    pub rate: Option<GroupTexts>,
    pub position: Option<GroupTexts>,
}

impl View for LineScan {
    type V = ScanTexts;

    open spec fn view(&self) -> ScanTexts {
        ScanTexts {
            duration: self.duration.deep_view(),
            rate: self.rate.deep_view(),
            position: self.position.deep_view(),
        }
    }
}

/// Finds the line that tells the total duration, and in it the hours, the
/// minutes and the seconds.
pub const DURATION_PATTERN: &'static str = r"Duration: (\d{2}):(\d{2}):(\d{2})\.\d{2}";

/// Finds the frame rate, with or without hundredths.
pub const RATE_PATTERN: &'static str = r"(\d{2}\.\d{2}|\d{2}) fps";

/// Finds the position that a progress line reports, and in it the hours, the
/// minutes and the seconds.
pub const POSITION_PATTERN: &'static str = r"time=(\d{2}):(\d{2}):(\d{2})\.\d{2}";

/// Whether the pattern engine accepts `pattern`.
pub uninterp spec fn engine_accepts(pattern: Seq<char>) -> bool;

/// The capture groups of the leftmost match of `pattern` in `haystack`, or
/// `None` where `pattern` matches nowhere in it.
pub uninterp spec fn engine_captures(pattern: Seq<char>, haystack: Seq<char>) -> Option<GroupTexts>;

/// Compiles `pattern` with `regex::Regex::new` and searches `haystack` with
/// `regex::Regex::captures`. `None` where the engine turns the pattern down;
/// else the leftmost match with each of its groups as the text that the group
/// covers, or `None` where there is no match.
///
/// Believed, not proved: the engine accepts or rejects a pattern by its text
/// alone, and what a search finds depends on the pattern and the haystack
/// alone. Nothing is claimed of which texts match.
///
/// The pattern is compiled at each call, so that a search is a function of
/// two texts. A record is searched a few times at most, and records come no
/// faster than the transcoder redraws its progress line.
#[verifier::external_body]
pub(crate) fn first_captures(pattern: &str, haystack: &str) -> (r: Option<Option<Groups>>)
    ensures
        r is Some <==> engine_accepts(pattern@),
        r matches Some(hit) ==> hit.deep_view() == engine_captures(pattern@, haystack@),
{
    let engine = regex::Regex::new(pattern).ok()?;
    let found = engine.captures(haystack);
    Some(found.map(|c| c.iter().map(|g| g.map(|m| m.as_str().to_owned())).collect()))
}

} // verus!
