use makebeliv::Action;
use makebeliv::Config;
use makebeliv::ErrorKind;
use makebeliv::Event;
use makebeliv::Orchestrator;
use makebeliv::Phase;
use makebeliv::SessionParams;
use makebeliv::encode_samples;

fn test_config() -> Config {
    Config {
        chunk_samples: 4,
        capture_capacity: 16,
        playback_capacity: 16,
        max_failures: 3,
    }
}

fn test_params() -> SessionParams {
    SessionParams {
        model: "default".to_string(),
        pitch_shift: 3,
        session_id: "session-under-test".to_string(),
    }
}

fn started(config: Config) -> Orchestrator {
    let mut orch = Orchestrator::new(config, test_params());
    assert!(matches!(orch.step(Event::StartRequested), Action::Probe));
    assert!(matches!(orch.step(Event::ProbeSucceeded), Action::Wait));
    assert_eq!(orch.phase(), Phase::Running);
    orch
}

fn is_reset(action: &Action) -> bool {
    matches!(action, Action::ResetSession | Action::RecoverSession)
}

#[test]
fn starts_idle_with_empty_buffers() {
    let orch = Orchestrator::new(test_config(), test_params());
    assert_eq!(orch.phase(), Phase::Idle);
    assert_eq!(orch.buffered_capture(), 0);
    assert_eq!(orch.buffered_playback(), 0);
    assert_eq!(orch.params().pitch_shift, 3);
    assert_eq!(orch.params().model, "default");
}

#[test]
fn tick_converts_exactly_one_chunk() {
    let mut orch = started(test_config());
    assert!(matches!(orch.step(Event::SamplesCaptured(vec![1, 2, 3, 4])), Action::Wait));
    assert_eq!(orch.buffered_capture(), 4);
    match orch.step(Event::Tick) {
        Action::Convert(chunk) => {
            assert_eq!(chunk.seq, 0);
            assert_eq!(chunk.payload, encode_samples(&[1, 2, 3, 4]));
        },
        other => panic!("expected a conversion request, got {:?}", action_name(&other)),
    }
    assert_eq!(orch.buffered_capture(), 0);
}

#[test]
fn tick_waits_until_a_whole_chunk_is_buffered() {
    let mut orch = started(test_config());
    orch.step(Event::SamplesCaptured(vec![1, 2]));
    assert!(matches!(orch.step(Event::Tick), Action::Wait));
    assert_eq!(orch.buffered_capture(), 2);
}

#[test]
fn tick_drops_backlog_down_to_one_chunk() {
    let mut orch = started(test_config());
    orch.step(Event::SamplesCaptured(vec![1, 2, 3, 4, 5, 6, 7, 8, 9, 10]));
    match orch.step(Event::Tick) {
        Action::Convert(chunk) => {
            // Only the newest chunk's worth survives; older backlog is dropped.
            assert_eq!(chunk.payload, encode_samples(&[7, 8, 9, 10]));
        },
        other => panic!("expected a conversion request, got {:?}", action_name(&other)),
    }
    assert_eq!(orch.buffered_capture(), 0);
}

#[test]
fn chunk_sequence_numbers_grow() {
    let mut orch = started(test_config());
    for expected_seq in 0..3u64 {
        orch.step(Event::SamplesCaptured(vec![1, 2, 3, 4]));
        match orch.step(Event::Tick) {
            Action::Convert(chunk) => assert_eq!(chunk.seq, expected_seq),
            other => panic!("expected a conversion request, got {:?}", action_name(&other)),
        }
        orch.step(Event::ChunkConverted(encode_samples(&[0, 0, 0, 0])));
    }
}

#[test]
fn converted_audio_is_played_back_in_order() {
    let mut orch = started(test_config());
    orch.step(Event::SamplesCaptured(vec![1, 2, 3, 4]));
    orch.step(Event::Tick);
    let reply = encode_samples(&[41, 42, 43, 44]);
    assert!(matches!(orch.step(Event::ChunkConverted(reply)), Action::Wait));
    assert_eq!(orch.buffered_playback(), 4);
    match orch.step(Event::PlaybackRequested(4)) {
        Action::Play(samples) => assert_eq!(samples, vec![41, 42, 43, 44]),
        other => panic!("expected playback samples, got {:?}", action_name(&other)),
    }
    assert_eq!(orch.buffered_playback(), 0);
}

#[test]
fn playback_underrun_degrades_to_silence() {
    let mut orch = started(test_config());
    orch.step(Event::SamplesCaptured(vec![1, 2, 3, 4]));
    orch.step(Event::Tick);
    orch.step(Event::ChunkConverted(encode_samples(&[9, 9])));
    match orch.step(Event::PlaybackRequested(5)) {
        Action::Play(samples) => assert_eq!(samples, vec![0, 0, 0, 0, 0]),
        other => panic!("expected silence, got {:?}", action_name(&other)),
    }
    // The all-or-nothing read left the two buffered samples in place.
    assert_eq!(orch.buffered_playback(), 2);
}

#[test]
fn malformed_reply_counts_as_service_failure() {
    let mut orch = started(test_config());
    orch.step(Event::SamplesCaptured(vec![1, 2, 3, 4]));
    orch.step(Event::Tick);
    let action = orch.step(Event::ChunkConverted(vec![1, 2, 3]));
    assert!(matches!(action, Action::RecoverSession));
    assert_eq!(orch.phase(), Phase::ErrorRecovery);
}

#[test]
fn recovery_within_limit_resumes_running() {
    let mut orch = started(test_config());
    assert!(matches!(
        orch.step(Event::ConversionFailed(ErrorKind::Connection)),
        Action::RecoverSession
    ));
    assert_eq!(orch.phase(), Phase::ErrorRecovery);
    assert!(matches!(
        orch.step(Event::ProbeFailed(ErrorKind::Connection)),
        Action::RecoverSession
    ));
    assert_eq!(orch.phase(), Phase::ErrorRecovery);
    assert!(matches!(orch.step(Event::ProbeSucceeded), Action::Wait));
    assert_eq!(orch.phase(), Phase::Running);
}

#[test]
fn exceeding_the_retry_limit_stops_exactly_once() {
    let mut orch = started(test_config());
    let mut fatal_count = 0;
    assert!(matches!(
        orch.step(Event::ConversionFailed(ErrorKind::Connection)),
        Action::RecoverSession
    ));
    assert!(matches!(
        orch.step(Event::ProbeFailed(ErrorKind::Connection)),
        Action::RecoverSession
    ));
    // The third consecutive failure reaches max_failures = 3.
    match orch.step(Event::ProbeFailed(ErrorKind::Connection)) {
        Action::Fatal(kind) => {
            fatal_count += 1;
            assert_eq!(kind, ErrorKind::Connection);
        },
        other => panic!("expected a fatal stop, got {:?}", action_name(&other)),
    }
    assert_eq!(orch.phase(), Phase::Stopped);
    // No further retries: every later event is ignored or answered with
    // silence, and the machine stays Stopped.
    for _ in 0..3 {
        match orch.step(Event::ProbeFailed(ErrorKind::Connection)) {
            Action::Wait => {},
            Action::Fatal(_) => panic!("stopped machine surfaced a second fatal action"),
            other => panic!("stopped machine acted: {:?}", action_name(&other)),
        }
        assert_eq!(orch.phase(), Phase::Stopped);
    }
    assert!(matches!(orch.step(Event::Tick), Action::Wait));
    assert_eq!(fatal_count, 1);
}

#[test]
fn clean_cycle_resets_session_exactly_once() {
    let mut orch = started(test_config());
    let mut resets = 0;
    for _ in 0..5 {
        let a1 = orch.step(Event::SamplesCaptured(vec![1, 2, 3, 4]));
        let a2 = orch.step(Event::Tick);
        assert!(matches!(a2, Action::Convert(_)));
        let a3 = orch.step(Event::ChunkConverted(encode_samples(&[5, 6, 7, 8])));
        for action in [&a1, &a2, &a3] {
            if is_reset(action) {
                resets += 1;
            }
        }
    }
    let stop = orch.step(Event::StopRequested);
    assert!(matches!(stop, Action::StopStreams));
    assert_eq!(orch.phase(), Phase::Draining);
    let after = orch.step(Event::StreamsStopped);
    assert!(matches!(after, Action::ResetSession));
    if is_reset(&after) {
        resets += 1;
    }
    assert_eq!(orch.phase(), Phase::Stopped);
    assert_eq!(orch.buffered_capture(), 0);
    assert_eq!(orch.buffered_playback(), 0);
    assert_eq!(resets, 1);
}

#[test]
fn device_failure_while_starting_is_fatal() {
    let mut orch = Orchestrator::new(test_config(), test_params());
    orch.step(Event::StartRequested);
    match orch.step(Event::DeviceFailed) {
        Action::Fatal(kind) => assert_eq!(kind, ErrorKind::Device),
        other => panic!("expected a fatal stop, got {:?}", action_name(&other)),
    }
    assert_eq!(orch.phase(), Phase::Stopped);
}

#[test]
fn failed_initial_probe_is_fatal() {
    let mut orch = Orchestrator::new(test_config(), test_params());
    orch.step(Event::StartRequested);
    match orch.step(Event::ProbeFailed(ErrorKind::Connection)) {
        Action::Fatal(kind) => assert_eq!(kind, ErrorKind::Connection),
        other => panic!("expected a fatal stop, got {:?}", action_name(&other)),
    }
    assert_eq!(orch.phase(), Phase::Stopped);
}

#[test]
fn capture_keeps_filling_during_recovery() {
    let mut orch = started(test_config());
    orch.step(Event::ConversionFailed(ErrorKind::Service));
    assert_eq!(orch.phase(), Phase::ErrorRecovery);
    orch.step(Event::SamplesCaptured(vec![1, 2, 3]));
    assert_eq!(orch.buffered_capture(), 3);
    // But no conversion is attempted while recovering.
    assert!(matches!(orch.step(Event::Tick), Action::Wait));
}

#[test]
fn stop_while_idle_goes_straight_to_stopped() {
    let mut orch = Orchestrator::new(test_config(), test_params());
    assert!(matches!(orch.step(Event::StopRequested), Action::Wait));
    assert_eq!(orch.phase(), Phase::Stopped);
}

#[test]
fn captured_samples_are_ignored_once_stopped() {
    let mut orch = started(test_config());
    orch.step(Event::StopRequested);
    orch.step(Event::StreamsStopped);
    assert_eq!(orch.phase(), Phase::Stopped);
    assert!(matches!(orch.step(Event::SamplesCaptured(vec![1, 2, 3])), Action::Wait));
    assert_eq!(orch.buffered_capture(), 0);
}

#[test]
fn playback_requests_are_always_answered_in_full() {
    // Even after a fatal stop the playback callback gets exactly what it
    // asked for, so the output hardware is never starved of a buffer.
    let mut orch = started(test_config());
    orch.step(Event::ConversionFailed(ErrorKind::Connection));
    orch.step(Event::ProbeFailed(ErrorKind::Connection));
    orch.step(Event::ProbeFailed(ErrorKind::Connection));
    assert_eq!(orch.phase(), Phase::Stopped);
    match orch.step(Event::PlaybackRequested(3)) {
        Action::Play(samples) => assert_eq!(samples, vec![0, 0, 0]),
        other => panic!("expected silence, got {:?}", action_name(&other)),
    }
}

fn action_name(action: &Action) -> &'static str {
    match action {
        Action::Wait => "Wait",
        Action::Probe => "Probe",
        Action::Convert(_) => "Convert",
        Action::RecoverSession => "RecoverSession",
        Action::Play(_) => "Play",
        Action::StopStreams => "StopStreams",
        Action::ResetSession => "ResetSession",
        Action::Fatal(_) => "Fatal",
    }
}
