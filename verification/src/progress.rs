//! The progress of one run: how far the job is, how far it has to go, and in
//! which unit both are counted.

use vstd::prelude::*;
use crate::metric::{
    clock_seconds, fitting, frame_rate_of, lemma_metric_bounds, read_frame_rate, time_to_secs,
    FrameRate, Metric, MAX_HUNDREDTHS,
};
use crate::pattern::{GroupTexts, Groups, LineScan, ScanTexts};

verus! {

/// The unit in which positions are counted.
#[derive(Clone, Copy, Debug, PartialEq, Eq, Structural)]
pub enum UnitKind {
    Seconds,
    Frames,
}

/// The word that a renderer writes behind a count of seconds.
pub const SECONDS_LABEL: &'static str = " second";

/// The word that a renderer writes behind a count of frames.
pub const FRAMES_LABEL: &'static str = " frame";

impl UnitKind {
    /// The word that a renderer writes behind a count in this unit.
    pub fn label(self) -> (word: &'static str)
        ensures
            word@ == match self {
                UnitKind::Seconds => SECONDS_LABEL@,
                UnitKind::Frames => FRAMES_LABEL@,
            },
    {
        match self {
            UnitKind::Seconds => SECONDS_LABEL,
            UnitKind::Frames => FRAMES_LABEL,
        }
    }
}

/// What a renderer is shown of a run.
#[derive(Clone, Copy, Debug, PartialEq, Eq)]
pub struct Snapshot {
    /// The furthest position that the stream has told so far.
    pub current_units: u64,
    /// The length of the job, once the stream has told it.
    pub total_units: Option<u64>,
    /// The unit of the two counts above.
    pub unit_kind: UnitKind,
    /// The frame rate, once the stream has told it.
    pub frame_rate: Option<FrameRate>,
}

impl Snapshot {
    /// The snapshot of a run of which nothing is known yet.
    pub open spec fn initial() -> Snapshot {
        Snapshot {
            current_units: 0,
            total_units: None,
            unit_kind: UnitKind::Seconds,
            frame_rate: None,
        }
    }

    /// What `secs` seconds count in the unit of the run: the seconds
    /// themselves before the frame rate is known; once it is known, the
    /// seconds times the rate, the fraction of a frame cut off.
    pub open spec fn units(self, secs: nat) -> nat {
        match self.frame_rate {
            Some(rate) => rate.frames(secs),
            None => secs,
        }
    }

    /// What holds of every snapshot of a run: the unit is frames exactly when
    /// the frame rate is known, and the frame rate is one of two digits
    /// before the full stop and two behind it.
    pub open spec fn wf(self) -> bool {
        &&& self.unit_kind == UnitKind::Frames <==> self.frame_rate is Some
        &&& self.frame_rate matches Some(rate) ==> rate.hundredths <= MAX_HUNDREDTHS
    }

    /// Whether the position has reached the total. An unknown total counts as
    /// zero, so that every position has reached it.
    pub open spec fn reached_total(self) -> bool {
        match self.total_units {
            Some(total) => self.current_units >= total,
            None => true,
        }
    }

    /// The snapshot after a search for the total duration. The duration is
    /// taken once: a hit changes nothing where the total is known. A total
    /// that is more than can be counted is a duration that cannot be read.
    pub open spec fn with_duration(self, hit: Option<GroupTexts>) -> Result<Snapshot, Metric> {
        if self.total_units is Some || hit is None {
            Ok(self)
        } else {
            match clock_seconds(hit->0) {
                Some(secs) => match fitting(self.units(secs)) {
                    Some(total) => Ok(Snapshot { total_units: Some(total), ..self }),
                    None => Err(Metric::Duration),
                },
                None => Err(Metric::Duration),
            }
        }
    }

    /// The snapshot after a search for the frame rate. The rate is taken
    /// once; taking it turns the unit to frames and converts both counts:
    /// each is multiplied by the rate, and the fraction of a frame is cut
    /// off. Counts that are then more than can be counted make a frame rate
    /// that cannot be read.
    pub open spec fn with_rate(self, hit: Option<GroupTexts>) -> Result<Snapshot, Metric> {
        if self.frame_rate is Some || hit is None {
            Ok(self)
        } else {
            match frame_rate_of(hit->0) {
                Some(rate) => {
                    let current = fitting(rate.frames(self.current_units as nat));
                    let total = match self.total_units {
                        Some(total) => fitting(rate.frames(total as nat)),
                        None => None,
                    };
                    if current is None || (self.total_units is Some && total is None) {
                        Err(Metric::FrameRate)
                    } else {
                        Ok(
                            Snapshot {
                                current_units: current->0,
                                total_units: total,
                                unit_kind: UnitKind::Frames,
                                frame_rate: Some(rate),
                            },
                        )
                    }
                },
                None => Err(Metric::FrameRate),
            }
        }
    }

    /// The snapshot after a search for the position. A position behind the
    /// furthest one so far is ignored: the count never goes back. A position
    /// that is more than can be counted is one that cannot be read.
    pub open spec fn with_position(self, hit: Option<GroupTexts>) -> Result<Snapshot, Metric> {
        if hit is None {
            Ok(self)
        } else {
            match clock_seconds(hit->0) {
                Some(secs) => match fitting(self.units(secs)) {
                    Some(reached) => if reached > self.current_units {
                        Ok(Snapshot { current_units: reached, ..self })
                    } else {
                        Ok(self)
                    },
                    None => Err(Metric::Position),
                },
                None => Err(Metric::Position),
            }
        }
    }

    /// The snapshot after one line: the duration, the frame rate and the
    /// position are taken in this order, and the first number that cannot be
    /// read ends it.
    pub open spec fn absorb(self, scan: ScanTexts) -> Result<Snapshot, Metric> {
        match self.with_duration(scan.duration) {
            Ok(timed) => match timed.with_rate(scan.rate) {
                Ok(rated) => rated.with_position(scan.position),
                Err(metric) => Err(metric),
            },
            Err(metric) => Err(metric),
        }
    }
}

/// Whether `later` can be a snapshot of the run of which `earlier` was one
/// before. Across a run:
/// - the frame rate, once known, stays as it is, and with it the unit;
/// - the total, once known, is only ever converted: when the frame rate
///   becomes known it is multiplied by the rate, the fraction of a frame cut
///   off, and it never changes otherwise;
/// - the position never goes back, except where it is converted to frames at
///   a frame rate below one frame per second.
pub open spec fn follows(earlier: Snapshot, later: Snapshot) -> bool {
    let converted = earlier.frame_rate is None && later.frame_rate is Some;
    &&& earlier.frame_rate is Some ==> later.frame_rate == earlier.frame_rate
    &&& earlier.total_units matches Some(total) ==> later.total_units == Some(
        if converted {
            later.frame_rate->0.frames(total as nat) as u64
        } else {
            total
        },
    )
    &&& later.current_units >= earlier.current_units || (converted
        && later.frame_rate->0.hundredths < 100)
}

/// The total and the frame rate are each taken once: where one of them is
/// known, a later line that holds it again changes nothing by it, whatever
/// that line says.
pub proof fn lemma_taken_once(s: Snapshot, hit: Option<GroupTexts>)
    ensures
        s.total_units is Some ==> s.with_duration(hit) == Ok::<Snapshot, Metric>(s),
        s.frame_rate is Some ==> s.with_rate(hit) == Ok::<Snapshot, Metric>(s),
{
}

/// At a frame rate of one frame per second or more, seconds count no fewer
/// frames than they are, and later seconds count no fewer frames than
/// earlier ones at any rate.
pub proof fn lemma_frames_grow(rate: FrameRate, earlier: nat, later: nat)
    requires
        earlier <= later,
    ensures
        rate.frames(earlier) <= rate.frames(later),
        rate.hundredths >= 100 ==> rate.frames(later) >= later,
{
    let h = rate.hundredths as nat;
    assert(earlier * h <= later * h) by (nonlinear_arith)
        requires
            earlier <= later,
    ;
    assert(h >= 100 ==> later * h >= later * 100) by (nonlinear_arith);
}

/// A line keeps a snapshot well-formed.
pub proof fn lemma_absorb_wf(s: Snapshot, scan: ScanTexts)
    requires
        s.wf(),
        s.absorb(scan) is Ok,
    ensures
        s.absorb(scan)->Ok_0.wf(),
{
    lemma_with_duration(s, scan.duration);
    let timed = s.with_duration(scan.duration)->Ok_0;
    lemma_with_rate(timed, scan.rate);
    let rated = timed.with_rate(scan.rate)->Ok_0;
    lemma_with_position(rated, scan.position);
}

/// The snapshot after a line follows the snapshot before it.
pub proof fn lemma_absorb_follows(s: Snapshot, scan: ScanTexts)
    requires
        s.wf(),
        s.absorb(scan) is Ok,
    ensures
        follows(s, s.absorb(scan)->Ok_0),
{
    lemma_with_duration(s, scan.duration);
    let timed = s.with_duration(scan.duration)->Ok_0;
    lemma_with_rate(timed, scan.rate);
    let rated = timed.with_rate(scan.rate)->Ok_0;
    lemma_with_position(rated, scan.position);
    let last = rated.with_position(scan.position)->Ok_0;
    lemma_follows_chain(s, timed, rated);
    lemma_follows_chain(s, rated, last);
}

/// Every snapshot follows itself.
pub proof fn lemma_follows_self(s: Snapshot)
    ensures
        follows(s, s),
{
}

/// What follows a snapshot that follows another, follows that other too.
pub proof fn lemma_follows_chain(a: Snapshot, b: Snapshot, c: Snapshot)
    requires
        a.wf(),
        b.wf(),
        c.wf(),
        follows(a, b),
        follows(b, c),
    ensures
        follows(a, c),
{
}

/// Taking the duration keeps a snapshot well-formed, and what comes out
/// follows what went in.
proof fn lemma_with_duration(s: Snapshot, hit: Option<GroupTexts>)
    requires
        s.wf(),
        s.with_duration(hit) is Ok,
    ensures
        s.with_duration(hit)->Ok_0.wf(),
        follows(s, s.with_duration(hit)->Ok_0),
{
}

/// Taking the frame rate keeps a snapshot well-formed, and what comes out
/// follows what went in.
proof fn lemma_with_rate(s: Snapshot, hit: Option<GroupTexts>)
    requires
        s.wf(),
        s.with_rate(hit) is Ok,
    ensures
        s.with_rate(hit)->Ok_0.wf(),
        follows(s, s.with_rate(hit)->Ok_0),
{
    if s.frame_rate is None && hit is Some {
        lemma_metric_bounds(hit->0);
        let rate = frame_rate_of(hit->0)->0;
        lemma_frames_grow(rate, s.current_units as nat, s.current_units as nat);
    }
}

/// Taking the position keeps a snapshot well-formed, and what comes out
/// follows what went in.
proof fn lemma_with_position(s: Snapshot, hit: Option<GroupTexts>)
    requires
        s.wf(),
        s.with_position(hit) is Ok,
    ensures
        s.with_position(hit)->Ok_0.wf(),
        follows(s, s.with_position(hit)->Ok_0),
{
}

/// The progress of one run. It starts with nothing known and changes only by
/// what the lines of the stream tell.
#[derive(Clone, Copy, Debug)]
pub struct Progress {
    state: Snapshot,
}

/// The snapshot inside a result.
pub open spec fn result_view(r: Result<Progress, Metric>) -> Result<Snapshot, Metric> {
    match r {
        Ok(progress) => Ok(progress@),
        Err(metric) => Err(metric),
    }
}

impl View for Progress {
    type V = Snapshot;

    closed spec fn view(&self) -> Snapshot {
        self.state
    }
}

impl Progress {
    #[verifier::type_invariant]
    spec fn holds(self) -> bool {
        self.state.wf()
    }

    /// The progress of a run of which nothing is known yet.
    pub fn new() -> (p: Progress)
        ensures
            p@ == Snapshot::initial(),
    {
        Progress {
            state: Snapshot {
                current_units: 0,
                total_units: None,
                unit_kind: UnitKind::Seconds,
                frame_rate: None,
            },
        }
    }

    /// What a renderer is shown.
    pub fn snapshot(&self) -> (s: Snapshot)
        ensures
            s == self@,
            s.wf(),
    {
        proof {
            use_type_invariant(self);
        }
        self.state
    }

    /// Counts `secs` seconds in the unit of the run. `None` where they are
    /// more than can be counted.
    pub fn count(&self, secs: u64) -> (units: Option<u64>)
        ensures
            units == fitting(self@.units(secs as nat)),
    {
        match self.state.frame_rate {
            Some(rate) => rate.frames_in(secs),
            None => Some(secs),
        }
    }

    /// Takes the result of the search for the total duration.
    pub fn note_duration(self, hit: &Option<Groups>) -> (r: Result<Progress, Metric>)
        ensures
            result_view(r) == self@.with_duration(hit.deep_view()),
    {
        proof {
            use_type_invariant(self);
        }
        if self.state.total_units.is_some() {
            return Ok(self);
        }
        let groups = match hit {
            Some(groups) => groups,
            None => return Ok(self),
        };
        let secs = match time_to_secs(groups) {
            Some(secs) => secs,
            None => return Err(Metric::Duration),
        };
        match self.count(secs) {
            Some(total) => Ok(Progress { state: Snapshot { total_units: Some(total), ..self.state } }),
            None => Err(Metric::Duration),
        }
    }

    /// Takes the result of the search for the frame rate.
    pub fn note_rate(self, hit: &Option<Groups>) -> (r: Result<Progress, Metric>)
        ensures
            result_view(r) == self@.with_rate(hit.deep_view()),
    {
        proof {
            use_type_invariant(self);
        }
        if self.state.frame_rate.is_some() {
            return Ok(self);
        }
        let groups = match hit {
            Some(groups) => groups,
            None => return Ok(self),
        };
        let rate = match read_frame_rate(groups) {
            Some(rate) => rate,
            None => return Err(Metric::FrameRate),
        };
        let current_units = match rate.frames_in(self.state.current_units) {
            Some(current) => current,
            None => return Err(Metric::FrameRate),
        };
        let total_units = match self.state.total_units {
            Some(total) => match rate.frames_in(total) {
                Some(converted) => Some(converted),
                None => return Err(Metric::FrameRate),
            },
            None => None,
        };
        Ok(
            Progress {
                state: Snapshot {
                    current_units,
                    total_units,
                    unit_kind: UnitKind::Frames,
                    frame_rate: Some(rate),
                },
            },
        )
    }

    /// Takes the result of the search for the position.
    pub fn note_position(self, hit: &Option<Groups>) -> (r: Result<Progress, Metric>)
        ensures
            result_view(r) == self@.with_position(hit.deep_view()),
    {
        proof {
            use_type_invariant(self);
        }
        let groups = match hit {
            Some(groups) => groups,
            None => return Ok(self),
        };
        let secs = match time_to_secs(groups) {
            Some(secs) => secs,
            None => return Err(Metric::Position),
        };
        match self.count(secs) {
            Some(reached) => if reached > self.state.current_units {
                Ok(Progress { state: Snapshot { current_units: reached, ..self.state } })
            } else {
                Ok(self)
            },
            None => Err(Metric::Position),
        }
    }

    /// Takes what the three searches found in one line: the duration, the
    /// frame rate and the position, in this order.
    pub fn absorb(self, scan: &LineScan) -> (r: Result<Progress, Metric>)
        ensures
            result_view(r) == self@.absorb(scan@),
    {
        let timed = match self.note_duration(&scan.duration) {
            Ok(p) => p,
            Err(metric) => return Err(metric),
        };
        let rated = match timed.note_rate(&scan.rate) {
            Ok(p) => p,
            Err(metric) => return Err(metric),
        };
        rated.note_position(&scan.position)
    }

    /// Whether the position has reached the total.
    pub fn reached_total(&self) -> (b: bool)
        ensures
            b == self@.reached_total(),
    {
        match self.state.total_units {
            Some(total) => self.state.current_units >= total,
            None => true,
        }
    }
}

} // verus!
