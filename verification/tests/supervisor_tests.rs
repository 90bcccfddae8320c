use trellico::provider::Provider;
use trellico::status::{check_pilot_available, check_provider_available, VersionProbe};
use trellico::stream::{exit_code_of, stream_step, terminal_event, ReadResult, StreamStep, TerminalEvent};
use trellico::supervisor::ProcessRegistry;

fn start(reg: &mut ProcessRegistry, folder: &str) -> u64 {
    reg.start(Provider::Pilot, "run it", &folder.to_string(), None)
        .expect("identity space not exhausted")
}

#[test]
fn identities_are_distinct() {
    let mut reg = ProcessRegistry::new();
    let a = start(&mut reg, "/f");
    let b = start(&mut reg, "/f");
    let c = start(&mut reg, "/g");
    assert_ne!(a, b);
    assert_ne!(b, c);
    assert_ne!(a, c);
    assert_eq!(reg.count(), 3);
}

#[test]
fn identities_are_not_reused() {
    let mut reg = ProcessRegistry::new();
    let a = start(&mut reg, "/f");
    reg.finish(a);
    let b = start(&mut reg, "/f");
    assert_ne!(a, b);
}

#[test]
fn stop_sets_only_the_named_flag() {
    let mut reg = ProcessRegistry::new();
    let a = start(&mut reg, "/f");
    let b = start(&mut reg, "/f");
    reg.stop(Some(a));
    assert!(reg.is_stop_requested(a));
    assert!(!reg.is_stop_requested(b));
}

#[test]
fn stop_without_identity_reaches_all() {
    let mut reg = ProcessRegistry::new();
    let ids = [start(&mut reg, "/f"), start(&mut reg, "/g"), start(&mut reg, "/h")];
    reg.stop(None);
    for id in ids {
        assert!(reg.is_stop_requested(id));
    }
}

#[test]
fn stop_of_unknown_identity_is_a_no_op() {
    let mut reg = ProcessRegistry::new();
    let a = start(&mut reg, "/f");
    reg.stop(Some(a + 1000));
    assert_eq!(reg.count(), 1);
    assert!(!reg.is_stop_requested(a));
}

#[test]
fn finish_deregisters_exactly_one() {
    let mut reg = ProcessRegistry::new();
    let a = start(&mut reg, "/f");
    let b = start(&mut reg, "/f");
    reg.finish(a);
    assert_eq!(reg.count(), 1);
    assert!(!reg.is_stop_requested(a));
    reg.finish(a);
    assert_eq!(reg.count(), 1);
    reg.finish(b);
    assert_eq!(reg.count(), 0);
}

#[test]
fn cancellation_wins_over_any_read() {
    for read in [
        ReadResult::Data(b"text".to_vec()),
        ReadResult::Eof,
        ReadResult::Closed,
        ReadResult::Failed("e".to_string()),
    ] {
        assert!(matches!(stream_step(true, &read), StreamStep::Kill));
    }
}

#[test]
fn decodable_chunk_is_emitted_verbatim() {
    let step = stream_step(false, &ReadResult::Data("héllo".as_bytes().to_vec()));
    match step {
        StreamStep::Emit(s) => assert_eq!(s, "héllo"),
        other => panic!("expected emit, got {:?}", other),
    }
}

#[test]
fn undecodable_chunk_is_dropped() {
    // A multi-byte sequence cut at the chunk boundary does not decode.
    let step = stream_step(false, &ReadResult::Data(vec![0xE2, 0x82]));
    assert!(matches!(step, StreamStep::Skip));
}

#[test]
fn eof_and_closed_terminal_stop_silently() {
    assert!(matches!(stream_step(false, &ReadResult::Eof), StreamStep::Stop));
    assert!(matches!(stream_step(false, &ReadResult::Closed), StreamStep::Stop));
}

#[test]
fn read_failure_is_reported() {
    let step = stream_step(false, &ReadResult::Failed("broken pipe".to_string()));
    match step {
        StreamStep::Fail(m) => assert_eq!(m, "Read error: broken pipe"),
        other => panic!("expected fail, got {:?}", other),
    }
}

#[test]
fn exit_codes_map_into_signed_range() {
    assert_eq!(exit_code_of(0), 0);
    assert_eq!(exit_code_of(42), 42);
    assert_eq!(exit_code_of(0x7fff_ffff), 0x7fff_ffff);
    assert_eq!(exit_code_of(0x8000_0000), -1);
}

#[test]
fn exactly_one_terminal_event() {
    match terminal_event(7, Ok(0)) {
        TerminalEvent::Exit { process_id, code } => {
            assert_eq!(process_id, 7);
            assert_eq!(code, 0);
        }
        other => panic!("expected exit, got {:?}", other),
    }
    match terminal_event(8, Err("spawn failed".to_string())) {
        TerminalEvent::Error { process_id, error } => {
            assert_eq!(process_id, 8);
            assert_eq!(error, "spawn failed");
        }
        other => panic!("expected error, got {:?}", other),
    }
}

#[test]
fn provider_status_not_found() {
    let s = check_provider_available(Provider::Amp, &VersionProbe::NotFound, false);
    assert!(!s.available);
    assert_eq!(
        s.error.as_deref(),
        Some("Amp is not installed. Please install it from https://ampcode.com")
    );
    assert_eq!(s.error_type.as_deref(), Some("not_installed"));
    assert!(s.auth_instructions.is_none());
}

#[test]
fn provider_status_ran_ok() {
    let s = check_provider_available(Provider::Amp, &VersionProbe::RanOk, true);
    assert!(s.available);
    assert!(s.error.is_none());
    let s = check_provider_available(Provider::Amp, &VersionProbe::RanOk, false);
    assert!(!s.available);
    assert_eq!(s.error_type.as_deref(), Some("not_logged_in"));
    assert_eq!(s.auth_instructions.as_deref(), Some("Run 'amp login' to authenticate"));
}

#[test]
fn provider_status_failure_with_auth_output() {
    let probe = VersionProbe::RanWithFailure {
        stderr: "You are NOT LOGGED IN".to_string(),
        stdout: String::new(),
    };
    let s = check_provider_available(Provider::Pilot, &probe, false);
    assert!(!s.available);
    assert_eq!(s.error_type.as_deref(), Some("not_logged_in"));
    assert_eq!(
        s.error.as_deref(),
        Some("Pilot is not logged in. Please run 'pilot' in your terminal to authenticate.")
    );
}

#[test]
fn provider_status_unknown_failure() {
    let probe = VersionProbe::RanWithFailure {
        stderr: "segfault".to_string(),
        stdout: String::new(),
    };
    let s = check_provider_available(Provider::Amp, &probe, false);
    assert_eq!(s.error.as_deref(), Some("Amp error: segfault"));
    assert_eq!(s.error_type.as_deref(), Some("unknown"));
}

#[test]
fn provider_status_run_failed() {
    let probe = VersionProbe::RunFailed { message: "permission denied".to_string() };
    let s = check_provider_available(Provider::Amp, &probe, false);
    assert_eq!(s.error.as_deref(), Some("Failed to run Amp: permission denied"));
    assert_eq!(s.error_type.as_deref(), Some("not_installed"));
}

#[test]
fn pilot_status_branches() {
    let s = check_pilot_available(&VersionProbe::RanOk);
    assert!(s.available);
    let s = check_pilot_available(&VersionProbe::NotFound);
    assert_eq!(
        s.error.as_deref(),
        Some("Pilot is not installed. Please install it from https://pilot.dev")
    );
    let s = check_pilot_available(&VersionProbe::RanWithFailure {
        stderr: "boom".to_string(),
        stdout: String::new(),
    });
    assert_eq!(s.error.as_deref(), Some("Pilot error: boom"));
    assert_eq!(s.error_type.as_deref(), Some("unknown"));
    let s = check_pilot_available(&VersionProbe::RunFailed { message: "no exec".to_string() });
    assert_eq!(s.error.as_deref(), Some("Failed to run Pilot: no exec"));
}
