//! The coordinator of one streaming session.
//!
//! The orchestrator is a state machine: the surrounding loop reports what
//! happened (an `Event`) and is told what to do next (an `Action`).  All
//! device and network work — probing the service, sending a chunk,
//! resetting the session, starting and stopping streams — happens outside,
//! between steps; a step itself only moves samples between the two ring
//! buffers and decides.  A single lock around the orchestrator therefore
//! gives every step a bounded critical section that is never held across
//! a network call, which is what the real-time capture and playback
//! callbacks need.
//!
//! The whole transition relation is the spec function `step_model`, and
//! the executable `step` is proved to follow it exactly; the session-level
//! laws (recovery retries bounded by the failure limit, exactly one
//! session reset in a clean cycle) are proved about `step_model` in the
//! `laws` module.

use vstd::prelude::*;

use crate::codec::decode_samples;
use crate::codec::decoded;
use crate::codec::encode_samples;
use crate::codec::encoded;
use crate::ring_buffer::RingBuffer;
use crate::ring_buffer::push_result;
use crate::session::Chunk;
use crate::session::ErrorKind;
use crate::session::SessionParams;

verus! {

/// Lifecycle of one monitoring session.  `ErrorRecovery` is reachable
/// only from `Running`; `Stopped` is terminal.
#[derive(Clone, Copy, Debug, PartialEq, Eq, Structural)]
pub enum Phase {
    Idle,
    Starting,
    Running,
    ErrorRecovery,
    Draining,
    Stopped,
}

/// Streaming configuration.  The chunk cadence, buffer sizes and retry
/// budget are deliberate choices made at setup time, not constants of the
/// pipeline.
#[derive(Clone, Copy, Debug)]
pub struct Config {
    /// Samples per conversion chunk (one chunk is taken per tick).
    pub chunk_samples: usize,
    /// Capacity of the capture-side ring buffer, in samples.
    pub capture_capacity: usize,
    /// Capacity of the playback-side ring buffer, in samples.
    pub playback_capacity: usize,
    /// Consecutive recoverable failures tolerated before giving up.
    pub max_failures: u32,
}

impl Config {
    /// A usable configuration: chunks are non-empty, at least one failure
    /// ends the session rather than zero, and the capture buffer can hold
    /// a whole chunk.
    pub open spec fn valid(&self) -> bool {
        &&& self.chunk_samples >= 1
        &&& self.max_failures >= 1
        &&& self.capture_capacity >= self.chunk_samples
    }
}

/// What happened, as the surrounding loop reports it to the orchestrator.
pub enum Event {
    /// The user asked the session to start.
    StartRequested,
    /// Opening or starting an audio device failed during startup.
    DeviceFailed,
    /// A health probe of the conversion service succeeded.
    ProbeSucceeded,
    /// A health probe failed, with the failure's kind.
    ProbeFailed(ErrorKind),
    /// The capture callback delivered a batch of samples.
    SamplesCaptured(Vec<u32>),
    /// The chunk cadence elapsed.
    Tick,
    /// The service answered the conversion in flight with these bytes.
    ChunkConverted(Vec<u8>),
    /// The conversion in flight failed, with the failure's kind.
    ConversionFailed(ErrorKind),
    /// The playback callback needs exactly this many samples, now.
    PlaybackRequested(usize),
    /// The user asked the session to stop.
    StopRequested,
    /// Both device streams have been closed.
    StreamsStopped,
}

/// What the surrounding loop must do after a step.
pub enum Action {
    /// Nothing; wait for the next event.
    Wait,
    /// Probe the service's health and report the outcome.
    Probe,
    /// Send this chunk for conversion and report the outcome.
    Convert(Chunk),
    /// Recover: reset the remote session best-effort, back off, then
    /// probe and report the outcome.
    RecoverSession,
    /// Hand exactly these samples to the playback callback.
    Play(Vec<u32>),
    /// Close both device streams and report when done.
    StopStreams,
    /// Reset the remote session best-effort; the session is over.
    ResetSession,
    /// The session is over because of this unrecoverable failure.
    Fatal(ErrorKind),
}

/// Ghost mirror of `Event`, over mathematical sequences.
pub enum EventModel {
    StartRequested,
    DeviceFailed,
    ProbeSucceeded,
    ProbeFailed(ErrorKind),
    SamplesCaptured(Seq<u32>),
    Tick,
    ChunkConverted(Seq<u8>),
    ConversionFailed(ErrorKind),
    PlaybackRequested(nat),
    StopRequested,
    StreamsStopped,
}

/// Ghost mirror of `Action`; a conversion request is its sequence number
/// and its payload bytes.
pub enum ActionModel {
    Wait,
    Probe,
    Convert(nat, Seq<u8>),
    RecoverSession,
    Play(Seq<u32>),
    StopStreams,
    ResetSession,
    Fatal(ErrorKind),
}

impl View for Event {
    type V = EventModel;

    open spec fn view(&self) -> EventModel {
        match self {
            Event::StartRequested => EventModel::StartRequested,
            Event::DeviceFailed => EventModel::DeviceFailed,
            Event::ProbeSucceeded => EventModel::ProbeSucceeded,
            Event::ProbeFailed(kind) => EventModel::ProbeFailed(*kind),
            Event::SamplesCaptured(data) => EventModel::SamplesCaptured(data@),
            Event::Tick => EventModel::Tick,
            Event::ChunkConverted(bytes) => EventModel::ChunkConverted(bytes@),
            Event::ConversionFailed(kind) => EventModel::ConversionFailed(*kind),
            Event::PlaybackRequested(count) => EventModel::PlaybackRequested(*count as nat),
            Event::StopRequested => EventModel::StopRequested,
            Event::StreamsStopped => EventModel::StreamsStopped,
        }
    }
}

impl View for Action {
    type V = ActionModel;

    open spec fn view(&self) -> ActionModel {
        match self {
            Action::Wait => ActionModel::Wait,
            Action::Probe => ActionModel::Probe,
            Action::Convert(chunk) => ActionModel::Convert(chunk.seq as nat, chunk.payload@),
            Action::RecoverSession => ActionModel::RecoverSession,
            Action::Play(samples) => ActionModel::Play(samples@),
            Action::StopStreams => ActionModel::StopStreams,
            Action::ResetSession => ActionModel::ResetSession,
            Action::Fatal(kind) => ActionModel::Fatal(*kind),
        }
    }
}

/// Ghost state of the orchestrator: its phase, the configuration it was
/// built with, the failure and sequence counters, and the contents of the
/// two ring buffers.
pub struct Model {
    pub phase: Phase,
    pub chunk: nat,
    pub capture_cap: nat,
    pub playback_cap: nat,
    pub limit: nat,
    pub failures: nat,
    pub next_seq: nat,
    pub capture: Seq<u32>,
    pub playback: Seq<u32>,
}

/// `count` samples of silence: the all-zero sample word.
pub open spec fn silence(count: nat) -> Seq<u32> {
    Seq::new(count, |i: int| 0u32)
}

/// Chunk sequence numbers only ever grow; they saturate at the largest
/// representable value instead of wrapping.
pub open spec fn next_seq_number(seq_no: nat) -> nat {
    if seq_no < u64::MAX {
        seq_no + 1
    } else {
        seq_no
    }
}

/// Well-formedness of the ghost state: the configuration is usable, the
/// buffers respect their capacities, the failure count never passes the
/// limit and is strictly below it wherever another failure can still
/// arrive, and the sequence counter is representable.
pub open spec fn model_wf(m: Model) -> bool {
    &&& m.chunk >= 1
    &&& m.limit >= 1
    &&& m.capture_cap >= m.chunk
    &&& m.failures <= m.limit
    &&& ((m.phase is Running || m.phase is ErrorRecovery) ==> m.failures < m.limit)
    &&& m.capture.len() <= m.capture_cap
    &&& m.playback.len() <= m.playback_cap
    &&& m.next_seq <= u64::MAX
}

/// Outcome of one more recoverable failure of the given kind: a recovery
/// attempt while the consecutive count stays below the limit, a single
/// fatal stop once it reaches it.
pub open spec fn fail_model(m: Model, kind: ErrorKind) -> (Model, ActionModel) {
    if m.failures + 1 >= m.limit {
        (Model { phase: Phase::Stopped, failures: m.failures + 1, ..m }, ActionModel::Fatal(kind))
    } else {
        (
            Model { phase: Phase::ErrorRecovery, failures: m.failures + 1, ..m },
            ActionModel::RecoverSession,
        )
    }
}

/// The whole transition relation: the state and action after one event.
/// Events that make no sense in the current phase are ignored (`Wait`),
/// except a playback request, which is always answered in full — with
/// buffered audio when enough is there, with silence otherwise.
pub open spec fn step_model(m: Model, e: EventModel) -> (Model, ActionModel) {
    match e {
        EventModel::StartRequested => if m.phase is Idle {
            (Model { phase: Phase::Starting, ..m }, ActionModel::Probe)
        } else {
            (m, ActionModel::Wait)
        },
        EventModel::DeviceFailed => if m.phase is Starting {
            (Model { phase: Phase::Stopped, ..m }, ActionModel::Fatal(ErrorKind::Device))
        } else {
            (m, ActionModel::Wait)
        },
        EventModel::ProbeSucceeded => if m.phase is Starting || m.phase is ErrorRecovery {
            (Model { phase: Phase::Running, failures: 0, ..m }, ActionModel::Wait)
        } else {
            (m, ActionModel::Wait)
        },
        EventModel::ProbeFailed(kind) => if m.phase is Starting {
            (Model { phase: Phase::Stopped, ..m }, ActionModel::Fatal(kind))
        } else if m.phase is ErrorRecovery {
            fail_model(m, kind)
        } else {
            (m, ActionModel::Wait)
        },
        EventModel::SamplesCaptured(data) => if m.phase is Starting || m.phase is Running
            || m.phase is ErrorRecovery {
            (
                Model { capture: push_result(m.capture, data, m.capture_cap), ..m },
                ActionModel::Wait,
            )
        } else {
            (m, ActionModel::Wait)
        },
        EventModel::Tick => if m.phase is Running && m.capture.len() >= m.chunk {
            (
                Model { capture: Seq::empty(), next_seq: next_seq_number(m.next_seq), ..m },
                ActionModel::Convert(
                    m.next_seq,
                    encoded(m.capture.skip(m.capture.len() - m.chunk)),
                ),
            )
        } else {
            (m, ActionModel::Wait)
        },
        EventModel::ChunkConverted(bytes) => if m.phase is Running {
            if bytes.len() % 4 == 0 {
                (
                    Model {
                        playback: push_result(m.playback, decoded(bytes), m.playback_cap),
                        failures: 0,
                        ..m
                    },
                    ActionModel::Wait,
                )
            } else {
                fail_model(m, ErrorKind::Service)
            }
        } else {
            (m, ActionModel::Wait)
        },
        EventModel::ConversionFailed(kind) => if m.phase is Running {
            fail_model(m, kind)
        } else {
            (m, ActionModel::Wait)
        },
        EventModel::PlaybackRequested(count) => if m.playback.len() >= count {
            (
                Model { playback: m.playback.skip(count as int), ..m },
                ActionModel::Play(m.playback.take(count as int)),
            )
        } else {
            (m, ActionModel::Play(silence(count)))
        },
        EventModel::StopRequested => if m.phase is Starting || m.phase is Running
            || m.phase is ErrorRecovery {
            (
                Model {
                    phase: Phase::Draining,
                    capture: Seq::empty(),
                    playback: Seq::empty(),
                    ..m
                },
                ActionModel::StopStreams,
            )
        } else if m.phase is Idle {
            (Model { phase: Phase::Stopped, ..m }, ActionModel::Wait)
        } else {
            (m, ActionModel::Wait)
        },
        EventModel::StreamsStopped => if m.phase is Draining {
            (Model { phase: Phase::Stopped, ..m }, ActionModel::ResetSession)
        } else {
            (m, ActionModel::Wait)
        },
    }
}

/// The ghost state of a freshly created orchestrator.
pub open spec fn init_model(config: Config) -> Model {
    Model {
        phase: Phase::Idle,
        chunk: config.chunk_samples as nat,
        capture_cap: config.capture_capacity as nat,
        playback_cap: config.playback_capacity as nat,
        limit: config.max_failures as nat,
        failures: 0,
        next_seq: 0,
        capture: Seq::empty(),
        playback: Seq::empty(),
    }
}

/// The coordinator of one streaming session: owns the two ring buffers,
/// the session parameters and the failure and sequence counters, and
/// steps through `Phase` as events arrive.
pub struct Orchestrator {
    phase: Phase,
    config: Config,
    params: SessionParams,
    capture: RingBuffer,
    playback: RingBuffer,
    failures: u32,
    next_seq: u64,
}

impl View for Orchestrator {
    type V = Model;

    closed spec fn view(&self) -> Model {
        Model {
            phase: self.phase,
            chunk: self.config.chunk_samples as nat,
            capture_cap: self.config.capture_capacity as nat,
            playback_cap: self.config.playback_capacity as nat,
            limit: self.config.max_failures as nat,
            failures: self.failures as nat,
            next_seq: self.next_seq as nat,
            capture: self.capture@,
            playback: self.playback@,
        }
    }
}

impl Orchestrator {
    /// Well-formedness: the ghost state is well-formed and each ring
    /// buffer's capacity is the configured one.
    pub closed spec fn wf(&self) -> bool {
        &&& model_wf(self@)
        &&& self.capture.cap() == self.config.capture_capacity as nat
        &&& self.playback.cap() == self.config.playback_capacity as nat
    }

    /// The session parameters this orchestrator drives.
    pub closed spec fn params_spec(&self) -> SessionParams {
        self.params
    }

    /// A fresh, idle orchestrator for one session.
    pub fn new(config: Config, params: SessionParams) -> (r: Orchestrator)
        requires
            config.valid(),
        ensures
            r.wf(),
            model_wf(r@),
            r@ == init_model(config),
            r.params_spec() == params,
    {
        let capture = RingBuffer::new(config.capture_capacity);
        let playback = RingBuffer::new(config.playback_capacity);
        Orchestrator {
            phase: Phase::Idle,
            config,
            params,
            capture,
            playback,
            failures: 0,
            next_seq: 0,
        }
    }

    /// The session parameters, for the loop performing the actions.
    pub fn params(&self) -> (p: &SessionParams)
        ensures
            *p == self.params_spec(),
    {
        &self.params
    }

    /// The current phase.
    pub fn phase(&self) -> (p: Phase)
        ensures
            p == self@.phase,
    {
        self.phase
    }

    /// Samples waiting in the capture buffer (advisory under concurrency).
    pub fn buffered_capture(&self) -> (n: usize)
        ensures
            n == self@.capture.len(),
    {
        self.capture.len()
    }

    /// Samples waiting in the playback buffer (advisory under concurrency).
    pub fn buffered_playback(&self) -> (n: usize)
        ensures
            n == self@.playback.len(),
    {
        self.playback.len()
    }

    /// One more recoverable failure: enter recovery, or stop for good
    /// once the consecutive count reaches the configured limit.
    fn fail(&mut self, kind: ErrorKind) -> (action: Action)
        requires
            old(self).wf(),
            old(self)@.phase is Running || old(self)@.phase is ErrorRecovery,
        ensures
            final(self).wf(),
            final(self)@ == fail_model(old(self)@, kind).0,
            action@ == fail_model(old(self)@, kind).1,
            final(self).params_spec() == old(self).params_spec(),
    {
        self.failures = self.failures + 1;
        if self.failures >= self.config.max_failures {
            self.phase = Phase::Stopped;
            Action::Fatal(kind)
        } else {
            self.phase = Phase::ErrorRecovery;
            Action::RecoverSession
        }
    }

    /// Feeds one event to the machine and answers with the one action the
    /// surrounding loop must take.  The step follows `step_model` exactly.
    pub fn step(&mut self, event: Event) -> (action: Action)
        requires
            old(self).wf(),
        ensures
            final(self).wf(),
            model_wf(final(self)@),
            final(self)@ == step_model(old(self)@, event@).0,
            action@ == step_model(old(self)@, event@).1,
            final(self).params_spec() == old(self).params_spec(),
    {
        match event {
            Event::StartRequested => {
                if self.phase == Phase::Idle {
                    self.phase = Phase::Starting;
                    Action::Probe
                } else {
                    Action::Wait
                }
            },
            Event::DeviceFailed => {
                if self.phase == Phase::Starting {
                    self.phase = Phase::Stopped;
                    Action::Fatal(ErrorKind::Device)
                } else {
                    Action::Wait
                }
            },
            Event::ProbeSucceeded => {
                if self.phase == Phase::Starting || self.phase == Phase::ErrorRecovery {
                    self.phase = Phase::Running;
                    self.failures = 0;
                }
                Action::Wait
            },
            Event::ProbeFailed(kind) => {
                if self.phase == Phase::Starting {
                    self.phase = Phase::Stopped;
                    Action::Fatal(kind)
                } else if self.phase == Phase::ErrorRecovery {
                    self.fail(kind)
                } else {
                    Action::Wait
                }
            },
            Event::SamplesCaptured(data) => {
                if self.phase == Phase::Starting || self.phase == Phase::Running || self.phase
                    == Phase::ErrorRecovery {
                    self.capture.push(data.as_slice());
                }
                Action::Wait
            },
            Event::Tick => {
                if self.phase == Phase::Running {
                    let available = self.capture.len();
                    if available >= self.config.chunk_samples {
                        if available > self.config.chunk_samples {
                            // Bounded latency: drop backlog beyond one chunk.
                            let _backlog = self.capture.take(
                                available - self.config.chunk_samples,
                            );
                        }
                        let ghost fresh = old(self)@.capture.skip(
                            old(self)@.capture.len() - old(self)@.chunk,
                        );
                        proof {
                            assert(self.capture@ =~= fresh);
                        }
                        let samples = self.capture.take(self.config.chunk_samples);
                        proof {
                            assert(samples@ =~= fresh);
                            assert(self.capture@ =~= Seq::<u32>::empty());
                        }
                        let payload = encode_samples(samples.as_slice());
                        let seq_no = self.next_seq;
                        if self.next_seq < u64::MAX {
                            self.next_seq = self.next_seq + 1;
                        }
                        Action::Convert(Chunk { seq: seq_no, payload })
                    } else {
                        Action::Wait
                    }
                } else {
                    Action::Wait
                }
            },
            Event::ChunkConverted(bytes) => {
                if self.phase == Phase::Running {
                    match decode_samples(bytes.as_slice()) {
                        Some(samples) => {
                            self.playback.push(samples.as_slice());
                            self.failures = 0;
                            Action::Wait
                        },
                        None => self.fail(ErrorKind::Service),
                    }
                } else {
                    Action::Wait
                }
            },
            Event::ConversionFailed(kind) => {
                if self.phase == Phase::Running {
                    self.fail(kind)
                } else {
                    Action::Wait
                }
            },
            Event::PlaybackRequested(count) => {
                let available = self.playback.len();
                if available >= count {
                    let out = self.playback.take(count);
                    Action::Play(out)
                } else {
                    let out = vec![0u32; count];
                    proof {
                        assert(out@ =~= silence(count as nat));
                    }
                    Action::Play(out)
                }
            },
            Event::StopRequested => {
                if self.phase == Phase::Starting || self.phase == Phase::Running || self.phase
                    == Phase::ErrorRecovery {
                    self.phase = Phase::Draining;
                    self.capture.clear();
                    self.playback.clear();
                    Action::StopStreams
                } else if self.phase == Phase::Idle {
                    self.phase = Phase::Stopped;
                    Action::Wait
                } else {
                    Action::Wait
                }
            },
            Event::StreamsStopped => {
                if self.phase == Phase::Draining {
                    self.phase = Phase::Stopped;
                    Action::ResetSession
                } else {
                    Action::Wait
                }
            },
        }
    }
}

} // verus!
