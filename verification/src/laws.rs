//! Session-level laws of the orchestrator, proved over its transition
//! relation `step_model`: recovery retries are bounded by the configured
//! failure limit, `Stopped` is terminal, and a clean session cycle leaves
//! both ring buffers empty and resets the remote session exactly once.

use vstd::prelude::*;

use crate::orchestrator::ActionModel;
use crate::orchestrator::EventModel;
use crate::orchestrator::Model;
use crate::orchestrator::Phase;
use crate::orchestrator::model_wf;
use crate::orchestrator::step_model;
use crate::ring_buffer::push_result;
use crate::session::ErrorKind;

verus! {

/// The state after a sequence of events, applied in order.
pub open spec fn apply_events(m: Model, events: Seq<EventModel>) -> Model
    decreases events.len(),
{
    if events.len() == 0 {
        m
    } else {
        apply_events(step_model(m, events[0]).0, events.skip(1))
    }
}

/// The actions emitted while applying a sequence of events, in order.
pub open spec fn actions_of(m: Model, events: Seq<EventModel>) -> Seq<ActionModel>
    decreases events.len(),
{
    if events.len() == 0 {
        Seq::empty()
    } else {
        seq![step_model(m, events[0]).1] + actions_of(step_model(m, events[0]).0, events.skip(1))
    }
}

/// How many of the actions ask the service to reset the session: the
/// dedicated best-effort reset at shutdown, and the reset that opens
/// every recovery attempt.
pub open spec fn session_resets(actions: Seq<ActionModel>) -> nat
    decreases actions.len(),
{
    if actions.len() == 0 {
        0
    } else {
        (if actions[0] is ResetSession || actions[0] is RecoverSession {
            1nat
        } else {
            0nat
        }) + session_resets(actions.skip(1))
    }
}

/// Every step preserves well-formedness and never touches the
/// configuration.
pub proof fn lemma_step_preserves_wf(m: Model, e: EventModel)
    requires
        model_wf(m),
    ensures
        model_wf(step_model(m, e).0),
        step_model(m, e).0.chunk == m.chunk,
        step_model(m, e).0.capture_cap == m.capture_cap,
        step_model(m, e).0.playback_cap == m.playback_cap,
        step_model(m, e).0.limit == m.limit,
{
}

/// Applying events distributes over concatenation, for both the final
/// state and the emitted actions.
pub proof fn lemma_apply_events_concat(m: Model, left: Seq<EventModel>, right: Seq<EventModel>)
    ensures
        apply_events(m, left + right) == apply_events(apply_events(m, left), right),
        actions_of(m, left + right) == actions_of(m, left) + actions_of(
            apply_events(m, left),
            right,
        ),
    decreases left.len(),
{
    if left.len() == 0 {
        assert(left + right =~= right);
        assert(actions_of(m, left) + actions_of(apply_events(m, left), right) =~= actions_of(
            m,
            right,
        ));
    } else {
        assert((left + right)[0] == left[0]);
        assert((left + right).skip(1) =~= left.skip(1) + right);
        lemma_apply_events_concat(step_model(m, left[0]).0, left.skip(1), right);
        assert(actions_of(m, left + right) =~= actions_of(m, left) + actions_of(
            apply_events(m, left),
            right,
        ));
    }
}

/// Reset counting distributes over concatenation.
pub proof fn lemma_session_resets_concat(left: Seq<ActionModel>, right: Seq<ActionModel>)
    ensures
        session_resets(left + right) == session_resets(left) + session_resets(right),
    decreases left.len(),
{
    if left.len() == 0 {
        assert(left + right =~= right);
    } else {
        assert((left + right)[0] == left[0]);
        assert((left + right).skip(1) =~= left.skip(1) + right);
        lemma_session_resets_concat(left.skip(1), right);
    }
}

/// `k` failed probes of the same kind, in a row.
pub open spec fn probe_failures(k: nat, kind: ErrorKind) -> Seq<EventModel> {
    Seq::new(k, |i: int| EventModel::ProbeFailed(kind))
}

/// `k` recovery attempts, in a row.
pub open spec fn recover_actions(k: nat) -> Seq<ActionModel> {
    Seq::new(k, |i: int| ActionModel::RecoverSession)
}

/// One recoverable conversion failure, then `k` failed probes, then a
/// successful one.
pub open spec fn recovery_events(k: nat, kind: ErrorKind) -> Seq<EventModel> {
    seq![EventModel::ConversionFailed(kind)] + (probe_failures(k, kind) + seq![
        EventModel::ProbeSucceeded,
    ])
}

/// The actions of a recovery that stays within the limit: one recovery
/// attempt per failure, then nothing more.
pub open spec fn recovery_actions(k: nat) -> Seq<ActionModel> {
    seq![ActionModel::RecoverSession] + (recover_actions(k) + seq![ActionModel::Wait])
}

/// A recoverable conversion failure followed by failed probes until the
/// consecutive count reaches the given limit.
pub open spec fn exhaustion_events(limit: nat, kind: ErrorKind) -> Seq<EventModel> {
    seq![EventModel::ConversionFailed(kind)] + probe_failures((limit - 1) as nat, kind)
}

/// The machine back in Running with the failure count cleared.
pub open spec fn resumed(m: Model) -> Model {
    Model { phase: Phase::Running, failures: 0, ..m }
}

/// The machine stopped for good, the failure count at the limit.
pub open spec fn stopped_at_limit(m: Model) -> Model {
    Model { phase: Phase::Stopped, failures: m.limit, ..m }
}

/// Inside recovery, `k` more failed probes followed by one successful
/// probe — with the failure count staying under the limit — return the
/// machine to Running with the count cleared and nothing else changed;
/// each failed probe asks for exactly one recovery attempt.
proof fn lemma_probe_retries(m: Model, k: nat, kind: ErrorKind)
    requires
        model_wf(m),
        m.phase is ErrorRecovery,
        m.failures + k < m.limit,
    ensures
        apply_events(m, probe_failures(k, kind) + seq![EventModel::ProbeSucceeded]) == resumed(m),
        actions_of(m, probe_failures(k, kind) + seq![EventModel::ProbeSucceeded])
            == recover_actions(k) + seq![ActionModel::Wait],
    decreases k,
{
    reveal_with_fuel(apply_events, 3);
    reveal_with_fuel(actions_of, 3);
    let events = probe_failures(k, kind) + seq![EventModel::ProbeSucceeded];
    if k == 0 {
        assert(events =~= seq![EventModel::ProbeSucceeded]);
        assert(events.skip(1) =~= Seq::<EventModel>::empty());
        assert(apply_events(m, events) == resumed(m));
        assert(actions_of(m, events) =~= recover_actions(0) + seq![ActionModel::Wait]);
    } else {
        assert(events[0] == EventModel::ProbeFailed(kind));
        let m1 = step_model(m, events[0]).0;
        assert(m1 == Model { phase: Phase::ErrorRecovery, failures: m.failures + 1, ..m });
        assert(events.skip(1) =~= probe_failures((k - 1) as nat, kind) + seq![
            EventModel::ProbeSucceeded,
        ]);
        lemma_probe_retries(m1, (k - 1) as nat, kind);
        assert(resumed(m1) == resumed(m));
        assert(actions_of(m, events) =~= recover_actions(k) + seq![ActionModel::Wait]);
    }
}

/// Law: from Running with a clear failure count, one recoverable
/// conversion failure followed by fewer failed probes than the limit
/// allows and then a successful probe brings the orchestrator back to
/// exactly the state it was in — it resumes Running; every attempt below
/// the limit asks only for a session reset and a new probe.
pub proof fn lemma_recovery_within_limit(m: Model, k: nat, kind: ErrorKind)
    requires
        model_wf(m),
        m.phase is Running,
        m.failures == 0,
        k + 1 < m.limit,
    ensures
        apply_events(m, recovery_events(k, kind)) == m,
        actions_of(m, recovery_events(k, kind)) == recovery_actions(k),
{
    reveal_with_fuel(apply_events, 3);
    reveal_with_fuel(actions_of, 3);
    let first = seq![EventModel::ConversionFailed(kind)];
    let rest = probe_failures(k, kind) + seq![EventModel::ProbeSucceeded];
    let m1 = step_model(m, EventModel::ConversionFailed(kind)).0;
    assert(m1 == Model { phase: Phase::ErrorRecovery, failures: m.failures + 1, ..m });
    assert(first.skip(1) =~= Seq::<EventModel>::empty());
    assert(apply_events(m, first) == m1);
    assert(actions_of(m, first) =~= seq![ActionModel::RecoverSession]);
    lemma_apply_events_concat(m, first, rest);
    lemma_probe_retries(m1, k, kind);
    assert(resumed(m1) == m);
}

/// Inside recovery, failed probes alone run the count from its current
/// value up to the limit: every attempt below the limit asks for one
/// recovery, and the attempt that reaches it stops the machine with a
/// single fatal action.
proof fn lemma_probe_exhaustion(m: Model, kind: ErrorKind)
    requires
        model_wf(m),
        m.phase is ErrorRecovery,
    ensures
        apply_events(m, probe_failures((m.limit - m.failures) as nat, kind)) == stopped_at_limit(m),
        actions_of(m, probe_failures((m.limit - m.failures) as nat, kind)) == recover_actions(
            (m.limit - m.failures - 1) as nat,
        ) + seq![ActionModel::Fatal(kind)],
    decreases m.limit - m.failures,
{
    reveal_with_fuel(apply_events, 3);
    reveal_with_fuel(actions_of, 3);
    let d = (m.limit - m.failures) as nat;
    let events = probe_failures(d, kind);
    assert(d >= 1);
    assert(events[0] == EventModel::ProbeFailed(kind));
    let m1 = step_model(m, events[0]).0;
    if d == 1 {
        assert(m1 == stopped_at_limit(m));
        assert(events.skip(1) =~= Seq::<EventModel>::empty());
        assert(actions_of(m, events) =~= recover_actions(0) + seq![ActionModel::Fatal(kind)]);
    } else {
        assert(m1 == Model { phase: Phase::ErrorRecovery, failures: m.failures + 1, ..m });
        assert(events.skip(1) =~= probe_failures((d - 1) as nat, kind));
        lemma_probe_exhaustion(m1, kind);
        assert(stopped_at_limit(m1) == stopped_at_limit(m));
        assert(actions_of(m, events) =~= recover_actions((m.limit - m.failures - 1) as nat) + seq![
            ActionModel::Fatal(kind),
        ]);
    }
}

/// Law: from Running with a clear failure count, recoverable failures in
/// unbroken succession stop the orchestrator the moment their count
/// reaches the configured limit: every failure below the limit asks for
/// exactly one recovery attempt, and the machine transitions to Stopped
/// exactly once, surfacing one fatal action.
pub proof fn lemma_recovery_exhausted(m: Model, kind: ErrorKind)
    requires
        model_wf(m),
        m.phase is Running,
        m.failures == 0,
    ensures
        apply_events(m, exhaustion_events(m.limit, kind)) == stopped_at_limit(m),
        actions_of(m, exhaustion_events(m.limit, kind)) == recover_actions((m.limit - 1) as nat)
            + seq![ActionModel::Fatal(kind)],
{
    reveal_with_fuel(apply_events, 3);
    reveal_with_fuel(actions_of, 3);
    let first = seq![EventModel::ConversionFailed(kind)];
    let rest = probe_failures((m.limit - 1) as nat, kind);
    let m1 = step_model(m, EventModel::ConversionFailed(kind)).0;
    assert(first.skip(1) =~= Seq::<EventModel>::empty());
    lemma_apply_events_concat(m, first, rest);
    if m.limit == 1 {
        assert(m1 == stopped_at_limit(m));
        assert(rest =~= Seq::<EventModel>::empty());
        assert(actions_of(m, first + rest) =~= seq![ActionModel::Fatal(kind)]);
        assert(recover_actions(0) + seq![ActionModel::Fatal(kind)] =~= seq![ActionModel::Fatal(
            kind,
        )]);
    } else {
        assert(m1 == Model { phase: Phase::ErrorRecovery, failures: 1, ..m });
        lemma_probe_exhaustion(m1, kind);
        assert(rest =~= probe_failures((m1.limit - m1.failures) as nat, kind));
        assert(stopped_at_limit(m1) == stopped_at_limit(m));
        assert(actions_of(m, first + rest) =~= recover_actions((m.limit - 1) as nat) + seq![
            ActionModel::Fatal(kind),
        ]);
    }
}

/// Law: Stopped is terminal.  No event moves the machine out of it, and
/// it never again asks for a probe, a conversion, a recovery attempt or a
/// reset — at most it answers a playback request.
pub proof fn lemma_stopped_is_final(m: Model, e: EventModel)
    requires
        m.phase is Stopped,
    ensures
        step_model(m, e).0.phase is Stopped,
        step_model(m, e).1 is Wait || step_model(m, e).1 is Play,
{
}

/// The three events of one successful conversion round: a captured batch
/// at least one chunk long, the cadence tick, and a well-formed converted
/// reply.
pub open spec fn round_events(data: Seq<u32>, reply: Seq<u8>) -> Seq<EventModel> {
    seq![
        EventModel::SamplesCaptured(data),
        EventModel::Tick,
        EventModel::ChunkConverted(reply),
    ]
}

/// The events of a run of successful conversion rounds, in order.
pub open spec fn rounds_events(rounds: Seq<(Seq<u32>, Seq<u8>)>) -> Seq<EventModel>
    decreases rounds.len(),
{
    if rounds.len() == 0 {
        Seq::empty()
    } else {
        round_events(rounds[0].0, rounds[0].1) + rounds_events(rounds.skip(1))
    }
}

/// One successful round keeps the machine Running with a clear failure
/// count, leaves the capture buffer empty, and asks for no session reset.
proof fn lemma_one_round(m: Model, data: Seq<u32>, reply: Seq<u8>)
    requires
        model_wf(m),
        m.phase is Running,
        data.len() >= m.chunk,
        reply.len() % 4 == 0,
    ensures
        model_wf(apply_events(m, round_events(data, reply))),
        apply_events(m, round_events(data, reply)).phase is Running,
        apply_events(m, round_events(data, reply)).failures == 0,
        apply_events(m, round_events(data, reply)).chunk == m.chunk,
        apply_events(m, round_events(data, reply)).capture_cap == m.capture_cap,
        apply_events(m, round_events(data, reply)).playback_cap == m.playback_cap,
        apply_events(m, round_events(data, reply)).limit == m.limit,
        session_resets(actions_of(m, round_events(data, reply))) == 0,
{
    reveal_with_fuel(apply_events, 4);
    reveal_with_fuel(actions_of, 4);
    reveal_with_fuel(session_resets, 4);
    let events = round_events(data, reply);
    let m1 = step_model(m, events[0]).0;
    let m2 = step_model(m1, events[1]).0;
    let m3 = step_model(m2, events[2]).0;
    lemma_step_preserves_wf(m, events[0]);
    assert(m1.capture == push_result(m.capture, data, m.capture_cap));
    assert(m1.capture.len() >= m.chunk);
    lemma_step_preserves_wf(m1, events[1]);
    assert(m2.phase is Running && m2.failures == m.failures);
    lemma_step_preserves_wf(m2, events[2]);
    assert(m3.phase is Running && m3.failures == 0);
    assert(events.skip(1) =~= seq![events[1], events[2]]);
    assert(events.skip(1).skip(1) =~= seq![events[2]]);
    assert(seq![events[2]].skip(1) =~= Seq::<EventModel>::empty());
    assert(apply_events(m, events) == m3);
    assert(actions_of(m, events) =~= seq![
        step_model(m, events[0]).1,
        step_model(m1, events[1]).1,
        step_model(m2, events[2]).1,
    ]);
    assert(session_resets(actions_of(m, events)) == 0) by {
        let acts = actions_of(m, events);
        assert(acts.skip(1) =~= seq![step_model(m1, events[1]).1, step_model(m2, events[2]).1]);
        assert(acts.skip(1).skip(1) =~= seq![step_model(m2, events[2]).1]);
        assert(seq![step_model(m2, events[2]).1].skip(1) =~= Seq::<ActionModel>::empty());
    }
}

/// A run of successful rounds keeps the machine Running and asks for no
/// session reset.
proof fn lemma_rounds_keep_running(m: Model, rounds: Seq<(Seq<u32>, Seq<u8>)>)
    requires
        model_wf(m),
        m.phase is Running,
        forall|i: int|
            0 <= i < rounds.len() ==> (#[trigger] rounds[i]).0.len() >= m.chunk
                && rounds[i].1.len() % 4 == 0,
    ensures
        model_wf(apply_events(m, rounds_events(rounds))),
        apply_events(m, rounds_events(rounds)).phase is Running,
        apply_events(m, rounds_events(rounds)).chunk == m.chunk,
        apply_events(m, rounds_events(rounds)).capture_cap == m.capture_cap,
        apply_events(m, rounds_events(rounds)).playback_cap == m.playback_cap,
        apply_events(m, rounds_events(rounds)).limit == m.limit,
        session_resets(actions_of(m, rounds_events(rounds))) == 0,
    decreases rounds.len(),
{
    if rounds.len() == 0 {
    } else {
        let first = round_events(rounds[0].0, rounds[0].1);
        let rest = rounds_events(rounds.skip(1));
        lemma_one_round(m, rounds[0].0, rounds[0].1);
        lemma_apply_events_concat(m, first, rest);
        let m1 = apply_events(m, first);
        assert(forall|i: int|
            0 <= i < rounds.skip(1).len() ==> (#[trigger] rounds.skip(1)[i]).0.len() >= m1.chunk
                && rounds.skip(1)[i].1.len() % 4 == 0);
        lemma_rounds_keep_running(m1, rounds.skip(1));
        lemma_session_resets_concat(actions_of(m, first), actions_of(m1, rest));
    }
}

/// Law: a clean cycle — start, a successful health probe, any number of
/// successful chunk conversions, then a stop — ends Stopped, leaves both
/// ring buffers empty, and asks the service for exactly one session
/// reset: the best-effort one issued during shutdown.
#[verifier::rlimit(100)]
pub proof fn lemma_clean_cycle_resets_once(m: Model, rounds: Seq<(Seq<u32>, Seq<u8>)>)
    requires
        model_wf(m),
        m.phase is Idle,
        forall|i: int|
            0 <= i < rounds.len() ==> (#[trigger] rounds[i]).0.len() >= m.chunk
                && rounds[i].1.len() % 4 == 0,
    ensures
        ({
            let events = seq![EventModel::StartRequested, EventModel::ProbeSucceeded]
                + rounds_events(rounds) + seq![
                EventModel::StopRequested,
                EventModel::StreamsStopped,
            ];
            &&& apply_events(m, events).phase is Stopped
            &&& apply_events(m, events).capture == Seq::<u32>::empty()
            &&& apply_events(m, events).playback == Seq::<u32>::empty()
            &&& session_resets(actions_of(m, events)) == 1
        }),
{
    reveal_with_fuel(apply_events, 4);
    reveal_with_fuel(actions_of, 4);
    reveal_with_fuel(session_resets, 4);
    let prologue = seq![EventModel::StartRequested, EventModel::ProbeSucceeded];
    let middle = rounds_events(rounds);
    let epilogue = seq![EventModel::StopRequested, EventModel::StreamsStopped];
    let events = prologue + middle + epilogue;

    // After the prologue the machine is Running with a clear count.
    let ms = step_model(m, EventModel::StartRequested).0;
    let mr = step_model(ms, EventModel::ProbeSucceeded).0;
    assert(prologue.skip(1) =~= seq![EventModel::ProbeSucceeded]);
    assert(seq![EventModel::ProbeSucceeded].skip(1) =~= Seq::<EventModel>::empty());
    assert(apply_events(m, prologue) == mr);
    assert(actions_of(m, prologue) =~= seq![ActionModel::Probe, ActionModel::Wait]);
    assert(mr.phase is Running && mr.failures == 0 && mr.chunk == m.chunk);

    lemma_apply_events_concat(m, prologue, middle + epilogue);
    lemma_apply_events_concat(mr, middle, epilogue);
    assert(prologue + middle + epilogue =~= prologue + (middle + epilogue));

    lemma_rounds_keep_running(mr, rounds);
    let mc = apply_events(mr, middle);

    // The epilogue: stop clears both buffers, closing the streams answers
    // with the one shutdown reset.
    let md = step_model(mc, EventModel::StopRequested).0;
    let mf = step_model(md, EventModel::StreamsStopped).0;
    assert(md.phase is Draining && md.capture == Seq::<u32>::empty() && md.playback
        == Seq::<u32>::empty());
    assert(mf.phase is Stopped && mf.capture == Seq::<u32>::empty() && mf.playback
        == Seq::<u32>::empty());
    assert(epilogue.skip(1) =~= seq![EventModel::StreamsStopped]);
    assert(seq![EventModel::StreamsStopped].skip(1) =~= Seq::<EventModel>::empty());
    assert(apply_events(mc, epilogue) == mf);
    assert(actions_of(mc, epilogue) =~= seq![ActionModel::StopStreams, ActionModel::ResetSession]);
    assert(apply_events(m, events) == mf);

    // Count the resets: none before the epilogue, exactly one inside it.
    lemma_session_resets_concat(
        actions_of(m, prologue),
        actions_of(mr, middle) + actions_of(mc, epilogue),
    );
    lemma_session_resets_concat(actions_of(mr, middle), actions_of(mc, epilogue));
    assert(session_resets(actions_of(m, prologue)) == 0) by {
        let acts = actions_of(m, prologue);
        assert(acts =~= seq![ActionModel::Probe, ActionModel::Wait]);
        assert(acts.skip(1) =~= seq![ActionModel::Wait]);
        assert(seq![ActionModel::Wait].skip(1) =~= Seq::<ActionModel>::empty());
    }
    assert(session_resets(actions_of(mc, epilogue)) == 1) by {
        let acts = actions_of(mc, epilogue);
        assert(acts =~= seq![ActionModel::StopStreams, ActionModel::ResetSession]);
        assert(acts.skip(1) =~= seq![ActionModel::ResetSession]);
        assert(seq![ActionModel::ResetSession].skip(1) =~= Seq::<ActionModel>::empty());
    }
    assert(actions_of(m, events) == actions_of(m, prologue) + (actions_of(mr, middle) + actions_of(
        mc,
        epilogue,
    )));
}

} // verus!
