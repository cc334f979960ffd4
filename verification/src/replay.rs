//! A whole run over a stream that is held in memory.

use vstd::prelude::*;
use crate::cursor::{lemma_span_before, serve, span_before, ByteCursor, ReadRequest};
use crate::error::{message_of, ErrorKind};
use crate::interpreter::{
    lemma_accept, prompt_mark, Effect, EffectView, Interpreter, Phase, Run, LOOKAHEAD, PROMPT_END,
};
use crate::progress::{follows, lemma_follows_chain, lemma_follows_self, Snapshot};
use crate::text::CARRIAGE_RETURN;

verus! {

/// The effects by their contents.
pub open spec fn views(effects: Seq<Effect>) -> Seq<EffectView> {
    Seq::new(effects.len(), |i: int| effects[i]@)
}

/// One step of a run over `bytes`: the run after its next read, what the
/// caller is to do, and the bytes that are left.
pub open spec fn step(run: Run, bytes: Seq<u8>) -> (Run, EffectView, Seq<u8>) {
    let (outcome, rest) = serve(bytes, run.request());
    let (next, effect) = run.accept(outcome);
    (next, effect, rest)
}

/// A step that does not end the run takes bytes from the stream, or else
/// uses up the bytes that were looked at.
pub proof fn lemma_step_advances(run: Run, bytes: Seq<u8>)
    requires
        run.phase != Phase::Terminated,
        step(run, bytes).0.phase != Phase::Terminated,
    ensures
        step(run, bytes).2.len() < bytes.len() || (step(run, bytes).2.len() == bytes.len() && step(
            run,
            bytes,
        ).0.held().len() < run.held().len()),
{
    match run.request() {
        ReadRequest::Until(delimiter) => {
            lemma_span_before(bytes, delimiter);
        },
        _ => {},
    }
}

/// What the caller is to do, step by step, over a run that starts at `run`
/// and reads `bytes`.
pub open spec fn unfold(run: Run, bytes: Seq<u8>) -> Seq<EffectView>
    decreases bytes.len(), run.held().len(),
{
    if run.phase == Phase::Terminated {
        Seq::empty()
    } else {
        let (next, effect, rest) = step(run, bytes);
        if next.phase == Phase::Terminated {
            seq![effect]
        } else {
            proof {
                lemma_step_advances(run, bytes);
            }
            seq![effect] + unfold(next, rest)
        }
    }
}

/// A run that is not over is its next step, and then the run from there.
pub proof fn lemma_unfold_step(run: Run, bytes: Seq<u8>)
    requires
        run.phase != Phase::Terminated,
    ensures
        unfold(run, bytes) == seq![step(run, bytes).1] + unfold(step(run, bytes).0, step(run, bytes).2),
{
    let (next, effect, rest) = step(run, bytes);
    if next.phase == Phase::Terminated {
        assert(unfold(next, rest) =~= Seq::empty());
        assert(seq![effect] + Seq::empty() =~= seq![effect]);
    }
}

/// A run ends once: the last thing that the caller is told is the end of the
/// run, and nothing before it is.
pub proof fn lemma_run_ends_once(run: Run, bytes: Seq<u8>)
    requires
        run.phase != Phase::Terminated,
    ensures
        unfold(run, bytes).len() >= 1,
        unfold(run, bytes).last().is_last(),
        forall|i: int| 0 <= i < unfold(run, bytes).len() - 1 ==> !unfold(run, bytes)[i].is_last(),
    decreases bytes.len(), run.held().len(),
{
    let (next, effect, rest) = step(run, bytes);
    if next.phase != Phase::Terminated {
        lemma_step_advances(run, bytes);
        lemma_run_ends_once(next, rest);
        let tail = unfold(next, rest);
        assert(unfold(run, bytes) == seq![effect] + tail);
        assert(unfold(run, bytes).last() == tail.last());
        assert forall|i: int| 0 <= i < unfold(run, bytes).len() - 1 implies !unfold(
            run,
            bytes,
        )[i].is_last() by {
            if i > 0 {
                assert(unfold(run, bytes)[i] == tail[i - 1]);
            }
        }
    }
}

/// Every snapshot that a run shows is well-formed and follows the progress
/// with which the run began.
pub proof fn lemma_run_follows(run: Run, bytes: Seq<u8>, i: int)
    requires
        run.progress.wf(),
        0 <= i < unfold(run, bytes).len(),
        unfold(run, bytes)[i].snapshot() is Some,
    ensures
        unfold(run, bytes)[i].snapshot()->0.wf(),
        follows(run.progress, unfold(run, bytes)[i].snapshot()->0),
    decreases bytes.len(), run.held().len(),
{
    let (next, effect, rest) = step(run, bytes);
    lemma_accept(run, serve(bytes, run.request()).0);
    if i > 0 {
        lemma_step_advances(run, bytes);
        let tail = unfold(next, rest);
        assert(unfold(run, bytes)[i] == tail[i - 1]);
        lemma_run_follows(next, rest, i - 1);
        lemma_follows_chain(run.progress, next.progress, tail[i - 1].snapshot()->0);
    }
}

/// The snapshots of a run are in order: of any two that the run shows, the
/// later follows the earlier. So the position never goes back but by the
/// conversion at a frame rate below one, the total is kept but for that
/// conversion, and the unit turns from seconds to frames at most once.
pub proof fn lemma_run_is_ordered(run: Run, bytes: Seq<u8>, i: int, j: int)
    requires
        run.progress.wf(),
        0 <= i <= j < unfold(run, bytes).len(),
        unfold(run, bytes)[i].snapshot() is Some,
        unfold(run, bytes)[j].snapshot() is Some,
    ensures
        follows(unfold(run, bytes)[i].snapshot()->0, unfold(run, bytes)[j].snapshot()->0),
    decreases bytes.len(), run.held().len(),
{
    let (next, effect, rest) = step(run, bytes);
    lemma_accept(run, serve(bytes, run.request()).0);
    if j == 0 {
        lemma_follows_self(effect.snapshot()->0);
    } else {
        lemma_step_advances(run, bytes);
        let tail = unfold(next, rest);
        assert(unfold(run, bytes)[j] == tail[j - 1]);
        if i == 0 {
            lemma_run_follows(next, rest, j - 1);
        } else {
            assert(unfold(run, bytes)[i] == tail[i - 1]);
            lemma_run_is_ordered(next, rest, i - 1, j - 1);
        }
    }
}

/// A stream that begins with the bytes `File ` and holds a closing bracket
/// behind them has its overwrite question relayed: the caller is told
/// nothing for the look at the first bytes, then to show the stream up to
/// that bracket, unchanged; and the run goes on behind the bracket, reading
/// up to carriage returns, with nothing known yet.
pub proof fn lemma_prompt_stream(stream: Seq<u8>)
    requires
        LOOKAHEAD <= stream.len(),
        stream.take(LOOKAHEAD as int) == prompt_mark(),
        span_before(stream.skip(LOOKAHEAD as int), PROMPT_END) < stream.len() - LOOKAHEAD,
    ensures
        ({
            let end = LOOKAHEAD + span_before(stream.skip(LOOKAHEAD as int), PROMPT_END) + 1;
            let relayed = Run {
                phase: Phase::SteadyState,
                lookahead: None,
                progress: Snapshot::initial(),
            };
            &&& relayed.request() == ReadRequest::Until(CARRIAGE_RETURN)
            &&& unfold(Run::initial(), stream) == seq![
                EffectView::Idle,
                EffectView::Prompt(stream.take(end)),
            ] + unfold(relayed, stream.skip(end))
        }),
{
    let first = Run::initial();
    let behind = stream.skip(LOOKAHEAD as int);
    let span = span_before(behind, PROMPT_END);
    let end = LOOKAHEAD + span + 1;
    let asked = step(first, stream).0;
    let relayed = step(asked, behind).0;
    lemma_unfold_step(first, stream);
    lemma_unfold_step(asked, behind);
    assert(prompt_mark() + behind.take(span as int + 1) =~= stream.take(end));
    assert(behind.skip(span as int + 1) =~= stream.skip(end));
    assert(seq![EffectView::Idle] + (seq![EffectView::Prompt(stream.take(end))] + unfold(
        relayed,
        stream.skip(end),
    )) =~= seq![EffectView::Idle, EffectView::Prompt(stream.take(end))] + unfold(
        relayed,
        stream.skip(end),
    ));
}

/// A stream that runs dry in the header or in the overwrite question is an
/// unexpected end: the run fails with it, and is told nothing else.
pub proof fn lemma_end_before_work(run: Run, bytes: Seq<u8>)
    requires
        run.phase == Phase::AwaitingHeader || run.phase == Phase::PromptPending,
        serve(bytes, run.request()).0 is EndOfStream,
    ensures
        unfold(run, bytes) == seq![
            EffectView::Failed {
                kind: ErrorKind::UnexpectedEndOfStream,
                message: message_of(ErrorKind::UnexpectedEndOfStream),
            },
        ],
{
}

/// A stream of fewer bytes than a look at a header line takes is an
/// unexpected end.
pub proof fn lemma_short_stream(stream: Seq<u8>)
    requires
        stream.len() < LOOKAHEAD,
    ensures
        unfold(Run::initial(), stream) == seq![
            EffectView::Failed {
                kind: ErrorKind::UnexpectedEndOfStream,
                message: message_of(ErrorKind::UnexpectedEndOfStream),
            },
        ],
{
    lemma_end_before_work(Run::initial(), stream);
}

/// Once the transcoder is at work, the end of the stream is the end of the
/// run: with nothing left to read and no bytes held, the run ends in order
/// and shows its progress a last time, whether or not the total ever became
/// known.
pub proof fn lemma_end_at_work(run: Run)
    requires
        run.phase == Phase::SteadyState,
        run.lookahead is None,
    ensures
        unfold(run, Seq::empty()) == seq![EffectView::Finished(run.progress)],
{
    assert(run.held() + Seq::<u8>::empty() =~= Seq::empty());
}

/// Runs the interpreter over `stream` from its first byte until the run is
/// over, and hands out what a caller would have been told to do, in order.
pub fn replay(stream: Vec<u8>) -> (effects: Vec<Effect>)
    ensures
        views(effects@) == unfold(Run::initial(), stream@),
{
    let ghost whole = stream@;
    let mut cursor = ByteCursor::new(stream);
    let mut interpreter = Interpreter::new();
    let mut effects: Vec<Effect> = Vec::new();
    assert(views(effects@) =~= Seq::empty());
    assert(Seq::<EffectView>::empty() + unfold(interpreter@, cursor.remaining()) == unfold(
        Run::initial(),
        whole,
    ));
    let mut running = true;
    while running
        invariant
            running == (interpreter@.phase != Phase::Terminated),
            views(effects@) + unfold(interpreter@, cursor.remaining()) == unfold(
                Run::initial(),
                whole,
            ),
        decreases
                if running { 1nat } else { 0nat },
                cursor.remaining().len(),
                interpreter@.held().len(),
    {
        let ghost before = interpreter@;
        let ghost bytes = cursor.remaining();
        let ghost told = views(effects@);
        let request = interpreter.next_read();
        let outcome = cursor.read(request);
        let effect = interpreter.accept(outcome);
        effects.push(effect);
        running = match interpreter.phase() {
            Phase::Terminated => false,
            _ => true,
        };
        proof {
            assert(views(effects@) =~= told + seq![effect@]);
            assert((interpreter@, effect@, cursor.remaining()) == step(before, bytes));
            if running {
                lemma_step_advances(before, bytes);
                assert(unfold(before, bytes) == seq![effect@] + unfold(
                    interpreter@,
                    cursor.remaining(),
                ));
                assert(told + (seq![effect@] + unfold(interpreter@, cursor.remaining())) =~= (told
                    + seq![effect@]) + unfold(interpreter@, cursor.remaining()));
            } else {
                assert(unfold(before, bytes) == seq![effect@]);
                assert(unfold(interpreter@, cursor.remaining()) =~= Seq::empty());
                assert(told + seq![effect@] =~= (told + seq![effect@]) + Seq::empty());
            }
        }
    }
    assert(unfold(interpreter@, cursor.remaining()) =~= Seq::empty());
    assert(views(effects@) + Seq::empty() =~= views(effects@));
    effects
}

} // verus!
