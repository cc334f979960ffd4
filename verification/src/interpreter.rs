//! The phase controller: what to read next, and what each read means.
//!
//! A run begins in the header, where each line is preceded by a look at its
//! first bytes. Those bytes tell the overwrite question and the start of the
//! transcoder's work from ordinary lines. From the start of the work on,
//! records end with a carriage return, and the first read that brings nothing
//! ends the run.

use vstd::prelude::*;
use vstd::utf8::{decode_utf8, valid_utf8};
use crate::classifier::{line_scan, patterns_accepted, scan_line};
use crate::cursor::{ReadRequest, ReadResult, ReadView};
use crate::error::{message_of, new_error, Error, ErrorKind};
use crate::pattern::{LineScan, ScanTexts};
use crate::progress::{
    follows, lemma_absorb_follows, lemma_absorb_wf, lemma_follows_self, Progress, Snapshot,
};
use crate::text::{decode, strip_line_breaks, without_line_breaks, CARRIAGE_RETURN, LINE_FEED};

verus! {

/// How many bytes are looked at before a header line is read.
pub const LOOKAHEAD: usize = 5;

/// The closing bracket, which ends the overwrite question.
pub const PROMPT_END: u8 = 93;

/// The pause before each read once the transcoder is at work, in
/// milliseconds.
pub const IDLE_MILLIS: u64 = 100;

/// The bytes `File `, with which the overwrite question begins.
pub open spec fn prompt_mark() -> Seq<u8> {
    seq![70u8, 105u8, 108u8, 101u8, 32u8]
}

/// The bytes `Press`, with which the transcoder announces its work.
pub open spec fn start_mark() -> Seq<u8> {
    seq![80u8, 114u8, 101u8, 115u8, 115u8]
}

/// Where a run stands.
#[derive(Clone, Copy, Debug, PartialEq, Eq, Structural)]
pub enum Phase {
    /// In the header, before the transcoder is at work.
    AwaitingHeader,
    /// The overwrite question has begun and is read to its end.
    PromptPending,
    /// The transcoder is at work and redraws its progress line.
    SteadyState,
    /// The run is over.
    Terminated,
}

impl Phase {
    /// The place of the phase in the course of a run.
    pub open spec fn rank(self) -> nat {
        match self {
            Phase::AwaitingHeader => 0,
            Phase::PromptPending => 1,
            Phase::SteadyState => 2,
            Phase::Terminated => 3,
        }
    }
}

/// What the caller is to do after a read was taken.
#[derive(Clone, Debug, PartialEq, Eq)]
pub enum Effect {
    /// Nothing.
    Idle,
    /// Show these bytes to the user as they are, at once.
    Prompt(Vec<u8>),
    /// The total or the unit became known: draw the snapshot.
    Metadata(Snapshot),
    /// A position was told: draw the snapshot, and above it the line,
    /// where the position has reached the total.
    Position { snapshot: Snapshot, echo: Option<Vec<u8>> },
    /// The run ended in order: draw the snapshot a last time.
    Finished(Snapshot),
    /// The run was abandoned.
    Failed(Error),
}

/// An [`Effect`] by its contents.
pub enum EffectView {
    Idle,
    Prompt(Seq<u8>),
    Metadata(Snapshot),
    Position { snapshot: Snapshot, echo: Option<Seq<u8>> },
    Finished(Snapshot),
    Failed { kind: ErrorKind, message: Seq<char> },
}

impl View for Effect {
    type V = EffectView;

    open spec fn view(&self) -> EffectView {
        match self {
            Effect::Idle => EffectView::Idle,
            Effect::Prompt(text) => EffectView::Prompt(text@),
            Effect::Metadata(snapshot) => EffectView::Metadata(*snapshot),
            Effect::Position { snapshot, echo } => EffectView::Position {
                snapshot: *snapshot,
                echo: match echo {
                    Some(line) => Some(line@),
                    None => None,
                },
            },
            Effect::Finished(snapshot) => EffectView::Finished(*snapshot),
            Effect::Failed(error) => EffectView::Failed {
                kind: error.kind,
                message: error.message@,
            },
        }
    }
}

impl EffectView {
    /// The snapshot that the effect brings, where it brings one.
    pub open spec fn snapshot(self) -> Option<Snapshot> {
        match self {
            EffectView::Metadata(snapshot) => Some(snapshot),
            EffectView::Position { snapshot, .. } => Some(snapshot),
            EffectView::Finished(snapshot) => Some(snapshot),
            _ => None,
        }
    }

    /// Whether the effect tells the end of the run.
    pub open spec fn is_last(self) -> bool {
        self is Finished || self is Failed
    }
}

/// The state of a run: its phase, the bytes that were looked at and await
/// their record, and the progress.
pub struct Run {
    pub phase: Phase,
    pub lookahead: Option<Seq<u8>>,
    pub progress: Snapshot,
}

impl Run {
    /// A run of which nothing was read yet.
    pub open spec fn initial() -> Run {
        Run { phase: Phase::AwaitingHeader, lookahead: None, progress: Snapshot::initial() }
    }

    /// What is read next.
    pub open spec fn request(self) -> ReadRequest {
        match self.phase {
            Phase::AwaitingHeader => if self.lookahead is None {
                ReadRequest::Exact(LOOKAHEAD)
            } else {
                ReadRequest::Until(LINE_FEED)
            },
            Phase::PromptPending => ReadRequest::Until(PROMPT_END),
            Phase::SteadyState => ReadRequest::Until(CARRIAGE_RETURN),
            Phase::Terminated => ReadRequest::Stop,
        }
    }

    /// The bytes that were looked at and await their record.
    pub open spec fn held(self) -> Seq<u8> {
        match self.lookahead {
            Some(prefix) => prefix,
            None => Seq::empty(),
        }
    }

    /// This run, over.
    pub open spec fn ended(self) -> Run {
        Run { phase: Phase::Terminated, lookahead: None, progress: self.progress }
    }

    /// The run is abandoned.
    pub open spec fn fail(self, kind: ErrorKind, message: Seq<char>) -> (Run, EffectView) {
        (self.ended(), EffectView::Failed { kind, message })
    }

    /// The run ends in order.
    pub open spec fn finish(self) -> (Run, EffectView) {
        (self.ended(), EffectView::Finished(self.progress))
    }

    /// The run after a look at the first bytes of a header line.
    pub open spec fn look(self, prefix: Seq<u8>) -> Run {
        Run {
            phase: if prefix == prompt_mark() {
                Phase::PromptPending
            } else if prefix == start_mark() {
                Phase::SteadyState
            } else {
                Phase::AwaitingHeader
            },
            lookahead: Some(prefix),
            progress: self.progress,
        }
    }

    /// What a record that was searched means to the caller: a position where
    /// one was found, else news of the total or the unit where one of them
    /// was found, else nothing.
    pub open spec fn report(found: ScanTexts, progress: Snapshot, record: Seq<u8>) -> EffectView {
        if found.position is Some {
            EffectView::Position {
                snapshot: progress,
                echo: if progress.reached_total() {
                    Some(without_line_breaks(record))
                } else {
                    None
                },
            }
        } else if found.duration is Some || found.rate is Some {
            EffectView::Metadata(progress)
        } else {
            EffectView::Idle
        }
    }

    /// The run after a record was searched. `scan` is `None` where the
    /// pattern engine turned a pattern down.
    pub open spec fn conclude(self, record: Seq<u8>, scan: Option<ScanTexts>) -> (Run, EffectView) {
        match scan {
            None => self.fail(ErrorKind::PatternRejected, message_of(ErrorKind::PatternRejected)),
            Some(found) => match self.progress.absorb(found) {
                Err(metric) => self.fail(
                    ErrorKind::MalformedMetric(metric),
                    message_of(ErrorKind::MalformedMetric(metric)),
                ),
                Ok(progress) => (
                    Run { phase: self.phase, lookahead: None, progress },
                    Run::report(found, progress, record),
                ),
            },
        }
    }

    /// The run after a whole record. An empty record is the mark of the end,
    /// and a record that is no text ends the run as well; any other is
    /// searched.
    pub open spec fn take_record(self, record: Seq<u8>) -> (Run, EffectView) {
        if record.len() == 0 || !valid_utf8(record) {
            self.finish()
        } else {
            self.conclude(
                record,
                if patterns_accepted(self.progress) {
                    Some(line_scan(self.progress, decode_utf8(record)))
                } else {
                    None
                },
            )
        }
    }

    /// The run after a read, and what the caller is to do.
    pub open spec fn accept(self, outcome: ReadView) -> (Run, EffectView) {
        match self.phase {
            Phase::Terminated => (self, EffectView::Idle),
            Phase::AwaitingHeader => match outcome {
                ReadView::Failure(said) => self.fail(ErrorKind::ReadFailure, said),
                ReadView::EndOfStream(_) => self.fail(
                    ErrorKind::UnexpectedEndOfStream,
                    message_of(ErrorKind::UnexpectedEndOfStream),
                ),
                ReadView::Bytes(bytes) => if self.lookahead is None {
                    (self.look(bytes), EffectView::Idle)
                } else {
                    self.take_record(self.held() + bytes)
                },
            },
            Phase::PromptPending => match outcome {
                ReadView::Failure(said) => self.fail(ErrorKind::ReadFailure, said),
                ReadView::EndOfStream(_) => self.fail(
                    ErrorKind::UnexpectedEndOfStream,
                    message_of(ErrorKind::UnexpectedEndOfStream),
                ),
                ReadView::Bytes(bytes) => (
                    Run { phase: Phase::SteadyState, lookahead: None, progress: self.progress },
                    EffectView::Prompt(self.held() + bytes),
                ),
            },
            Phase::SteadyState => match outcome {
                ReadView::Failure(said) => self.fail(ErrorKind::ReadFailure, said),
                ReadView::EndOfStream(bytes) => self.take_record(self.held() + bytes),
                ReadView::Bytes(bytes) => self.take_record(self.held() + bytes),
            },
        }
    }
}

/// A read ends the run exactly where its effect tells the end; the progress
/// after it follows the progress before it; and a snapshot that the effect
/// brings is the progress after it.
pub proof fn lemma_accept(run: Run, outcome: ReadView)
    requires
        run.phase != Phase::Terminated,
        run.progress.wf(),
    ensures
        run.accept(outcome).0.progress.wf(),
        follows(run.progress, run.accept(outcome).0.progress),
        run.accept(outcome).1.is_last() <==> run.accept(outcome).0.phase == Phase::Terminated,
        run.accept(outcome).1.snapshot() matches Some(shown) ==> shown == run.accept(
            outcome,
        ).0.progress,
{
    lemma_follows_self(run.progress);
    let record = match outcome {
        ReadView::Bytes(bytes) => run.held() + bytes,
        ReadView::EndOfStream(bytes) => run.held() + bytes,
        ReadView::Failure(_) => Seq::empty(),
    };
    if record.len() > 0 && valid_utf8(record) && patterns_accepted(run.progress) {
        let scan = line_scan(run.progress, decode_utf8(record));
        if run.progress.absorb(scan) is Ok {
            lemma_absorb_wf(run.progress, scan);
            lemma_absorb_follows(run.progress, scan);
        }
    }
}

/// A run only moves forward: from the header to the work and to its end. The
/// overwrite question is entered from the header alone and left with the
/// next read, and a run that is over stays over.
pub proof fn lemma_phase_order(run: Run, outcome: ReadView)
    ensures
        run.accept(outcome).0.phase.rank() >= run.phase.rank(),
        run.accept(outcome).0.phase == Phase::PromptPending ==> run.phase
            == Phase::AwaitingHeader,
        run.phase == Phase::Terminated ==> run.accept(outcome) == (run, EffectView::Idle),
{
}

/// The overwrite question is relayed as it came. A run in the header that
/// looks at the bytes `File ` asks for everything up to the closing bracket;
/// what it is then given is shown to the user behind those bytes, unchanged;
/// and from there on the run reads up to carriage returns.
pub proof fn lemma_prompt_relay(run: Run, rest: Seq<u8>)
    requires
        run.phase == Phase::AwaitingHeader,
        run.lookahead is None,
    ensures
        ({
            let asked = run.accept(ReadView::Bytes(prompt_mark())).0;
            let (relayed, effect) = asked.accept(ReadView::Bytes(rest));
            &&& run.request() == ReadRequest::Exact(LOOKAHEAD)
            &&& asked.phase == Phase::PromptPending
            &&& asked.request() == ReadRequest::Until(PROMPT_END)
            &&& effect == EffectView::Prompt(prompt_mark() + rest)
            &&& relayed.phase == Phase::SteadyState
            &&& relayed.request() == ReadRequest::Until(CARRIAGE_RETURN)
            &&& relayed.progress == run.progress
        }),
{
}

/// The interpreter of one run.
pub struct Interpreter {
    phase: Phase,
    lookahead: Option<Vec<u8>>,
    progress: Progress,
}

impl View for Interpreter {
    type V = Run;

    closed spec fn view(&self) -> Run {
        Run {
            phase: self.phase,
            lookahead: match self.lookahead {
                Some(prefix) => Some(prefix@),
                None => None,
            },
            progress: self.progress@,
        }
    }
}

/// Whether `bytes` are the five bytes `a` to `e`.
fn is_mark(bytes: &Vec<u8>, a: u8, b: u8, c: u8, d: u8, e: u8) -> (same: bool)
    ensures
        same == (bytes@ == seq![a, b, c, d, e]),
{
    if bytes.len() == 5 {
        let same = bytes[0] == a && bytes[1] == b && bytes[2] == c && bytes[3] == d && bytes[4]
            == e;
        proof {
            let mark = seq![a, b, c, d, e];
            if same {
                assert(bytes@ =~= mark);
            } else {
                assert(mark[0] == a && mark[1] == b && mark[2] == c && mark[3] == d && mark[4]
                    == e);
            }
        }
        same
    } else {
        assert(seq![a, b, c, d, e].len() == 5);
        false
    }
}

impl Interpreter {
    /// The interpreter of a run of which nothing was read yet.
    pub fn new() -> (interpreter: Interpreter)
        ensures
            interpreter@ == Run::initial(),
    {
        Interpreter { phase: Phase::AwaitingHeader, lookahead: None, progress: Progress::new() }
    }

    /// Where the run stands.
    pub fn phase(&self) -> (phase: Phase)
        ensures
            phase == self@.phase,
    {
        self.phase
    }

    /// What a renderer is shown of the run.
    pub fn snapshot(&self) -> (snapshot: Snapshot)
        ensures
            snapshot == self@.progress,
            snapshot.wf(),
    {
        self.progress.snapshot()
    }

    /// What the caller is to read next.
    pub fn next_read(&self) -> (request: ReadRequest)
        ensures
            request == self@.request(),
    {
        match self.phase {
            Phase::AwaitingHeader => if self.lookahead.is_none() {
                ReadRequest::Exact(LOOKAHEAD)
            } else {
                ReadRequest::Until(LINE_FEED)
            },
            Phase::PromptPending => ReadRequest::Until(PROMPT_END),
            Phase::SteadyState => ReadRequest::Until(CARRIAGE_RETURN),
            Phase::Terminated => ReadRequest::Stop,
        }
    }

    /// How long the caller is to pause before the next read, in
    /// milliseconds: a fixed while once the transcoder is at work, so that a
    /// slow progress line is not spun on, and not at all before.
    pub fn idle_millis(&self) -> (pause: u64)
        ensures
            pause == if self@.phase == Phase::SteadyState {
                IDLE_MILLIS
            } else {
                0
            },
    {
        match self.phase {
            Phase::SteadyState => IDLE_MILLIS,
            _ => 0,
        }
    }

    /// Abandons the run.
    fn fail(&mut self, kind: ErrorKind, message: &str) -> (effect: Effect)
        ensures
            (final(self)@, effect@) == old(self)@.fail(kind, message@),
    {
        self.phase = Phase::Terminated;
        self.lookahead = None;
        Effect::Failed(new_error(kind, message))
    }

    /// Ends the run in order.
    fn finish(&mut self) -> (effect: Effect)
        ensures
            (final(self)@, effect@) == old(self)@.finish(),
    {
        self.phase = Phase::Terminated;
        self.lookahead = None;
        Effect::Finished(self.progress.snapshot())
    }

    /// Takes the bytes that were looked at, joined to `bytes`.
    fn join(&mut self, bytes: Vec<u8>) -> (record: Vec<u8>)
        ensures
            record@ == old(self)@.held() + bytes@,
            final(self)@ == (Run { lookahead: None, ..old(self)@ }),
    {
        let mut bytes = bytes;
        match self.lookahead.take() {
            Some(prefix) => {
                let mut record = prefix;
                record.append(&mut bytes);
                record
            },
            None => {
                assert(Seq::<u8>::empty() + bytes@ == bytes@);
                bytes
            },
        }
    }

    /// Takes what the searches found in `record`, or `None` where the
    /// pattern engine turned a pattern down, and says what the caller is to
    /// do.
    pub fn conclude(&mut self, record: &[u8], scan: Option<LineScan>) -> (effect: Effect)
        ensures
            (final(self)@, effect@) == old(self)@.conclude(
                record@,
                match scan {
                    Some(found) => Some(found@),
                    None => None,
                },
            ),
    {
        let found = match scan {
            Some(found) => found,
            None => return self.fail(ErrorKind::PatternRejected, ErrorKind::PatternRejected.describe()),
        };
        match self.progress.absorb(&found) {
            Err(metric) => {
                let kind = ErrorKind::MalformedMetric(metric);
                self.fail(kind, kind.describe())
            },
            Ok(progress) => {
                self.progress = progress;
                self.lookahead = None;
                if found.position.is_some() {
                    let echo = if progress.reached_total() {
                        Some(strip_line_breaks(record))
                    } else {
                        None
                    };
                    Effect::Position { snapshot: progress.snapshot(), echo }
                } else if found.duration.is_some() || found.rate.is_some() {
                    Effect::Metadata(progress.snapshot())
                } else {
                    Effect::Idle
                }
            },
        }
    }

    /// Takes a whole record.
    fn take_record(&mut self, record: Vec<u8>) -> (effect: Effect)
        ensures
            (final(self)@, effect@) == old(self)@.take_record(record@),
    {
        if record.len() == 0 {
            return self.finish();
        }
        match decode(record.as_slice()) {
            None => self.finish(),
            Some(text) => {
                let scan = scan_line(&self.progress, text);
                self.conclude(record.as_slice(), scan)
            },
        }
    }

    /// Takes what a read came to, and says what the caller is to do.
    ///
    /// - A read that failed abandons the run, with what the source said.
    /// - In the header, the bytes of a look ahead are held back. Where they
    ///   are `File `, the overwrite question is read next; where they are
    ///   `Press`, the transcoder is at work from here on. The line that is
    ///   read behind them is joined to them and searched as one record.
    /// - The overwrite question, read up to its closing bracket, is handed
    ///   out behind the bytes that were held back, to be shown as it came;
    ///   the transcoder is at work from here on.
    /// - At work, each record is joined to what was held back and searched.
    ///   The last record of a stream may lack its delimiter.
    /// - An empty record ends the run in order, and so does a record that is
    ///   no UTF-8 text.
    /// - A stream that runs dry in the header or in the question abandons
    ///   the run.
    /// - A run that is over takes nothing.
    pub fn accept(&mut self, outcome: ReadResult) -> (effect: Effect)
        ensures
            (final(self)@, effect@) == old(self)@.accept(outcome@),
    {
        match self.phase {
            Phase::Terminated => Effect::Idle,
            Phase::AwaitingHeader => match outcome {
                ReadResult::Failure(said) => self.fail(ErrorKind::ReadFailure, said.as_str()),
                ReadResult::EndOfStream(_) => self.fail(
                    ErrorKind::UnexpectedEndOfStream,
                    ErrorKind::UnexpectedEndOfStream.describe(),
                ),
                ReadResult::Bytes(bytes) => if self.lookahead.is_none() {
                    if is_mark(&bytes, 70, 105, 108, 101, 32) {
                        // File 'test.mp4' already exists. Overwrite? [y/N]
                        self.phase = Phase::PromptPending;
                    } else if is_mark(&bytes, 80, 114, 101, 115, 115) {
                        // Press [q] to stop, [?] for help
                        self.phase = Phase::SteadyState;
                    }
                    self.lookahead = Some(bytes);
                    Effect::Idle
                } else {
                    let record = self.join(bytes);
                    self.take_record(record)
                },
            },
            Phase::PromptPending => match outcome {
                ReadResult::Failure(said) => self.fail(ErrorKind::ReadFailure, said.as_str()),
                ReadResult::EndOfStream(_) => self.fail(
                    ErrorKind::UnexpectedEndOfStream,
                    ErrorKind::UnexpectedEndOfStream.describe(),
                ),
                ReadResult::Bytes(bytes) => {
                    let prompt = self.join(bytes);
                    self.phase = Phase::SteadyState;
                    Effect::Prompt(prompt)
                },
            },
            Phase::SteadyState => match outcome {
                ReadResult::Failure(said) => self.fail(ErrorKind::ReadFailure, said.as_str()),
                ReadResult::EndOfStream(bytes) => {
                    let record = self.join(bytes);
                    self.take_record(record)
                },
                ReadResult::Bytes(bytes) => {
                    let record = self.join(bytes);
                    self.take_record(record)
                },
            },
        }
    }
}

} // verus!
