use mac_changer::error::MacError;
use mac_changer::mac::MacAddress;
use mac_changer::network::NetworkCard;
use mac_changer::orchestrator::{Action, ChangeAttempt, CommandFailure, Event, Outcome, Phase, Platform};

fn target() -> MacAddress {
    MacAddress::parse("02:11:22:33:44:55").unwrap()
}

fn card(permanent: bool) -> NetworkCard {
    NetworkCard {
        interface: "eth0".to_string(),
        vendor: None,
        supports_mac_change: true,
        permanent_change_supported: permanent,
        driver: "e1000e".to_string(),
    }
}

fn failure(stderr: &str, stdout: &str) -> CommandFailure {
    CommandFailure {
        command: "ip".to_string(),
        args: vec!["link".to_string(), "set".to_string(), "dev".to_string(), "eth0".to_string(), "down".to_string()],
        stdout: stdout.to_string(),
        stderr: stderr.to_string(),
    }
}

fn up_to_drained(permanent: bool, can_persist: bool) -> ChangeAttempt {
    let a = ChangeAttempt::new(Platform::Linux, "eth0", target(), permanent);
    assert_eq!(a.phase(), Phase::Idle);
    assert_eq!(a.pending(), Action::CheckPrivilege);
    let a = a.advance(Event::Privilege(true));
    assert_eq!(a.phase(), Phase::PrivilegeChecked);
    assert_eq!(a.pending(), Action::VerifyInterface);
    let a = a.advance(Event::Interface(Ok(card(can_persist))));
    assert_eq!(a.phase(), Phase::InterfaceVerified);
    assert_eq!(a.pending(), Action::DrainService);
    let a = a.advance(Event::Service);
    assert_eq!(a.phase(), Phase::ServiceDrained);
    assert_eq!(a.pending(), Action::SetLinkDown);
    a
}

fn up_to_restored(permanent: bool, can_persist: bool) -> ChangeAttempt {
    let a = up_to_drained(permanent, can_persist);
    let a = a.advance(Event::Command(Ok(())));
    assert_eq!(a.phase(), Phase::LinkDown);
    assert_eq!(a.pending(), Action::SetAddress);
    let a = a.advance(Event::Command(Ok(())));
    assert_eq!(a.phase(), Phase::AddressSet);
    assert_eq!(a.pending(), Action::SetLinkUp);
    let a = a.advance(Event::Command(Ok(())));
    assert_eq!(a.phase(), Phase::LinkUp);
    assert_eq!(a.pending(), Action::RestoreService);
    let a = a.advance(Event::Service);
    assert_eq!(a.phase(), Phase::ServiceRestored);
    assert_eq!(a.pending(), Action::SettleThenReadAddress);
    a
}

#[test]
fn clean_run_ends_done_with_the_requested_address() {
    let a = up_to_restored(false, true);
    let a = a.advance(Event::Address(Ok("02:11:22:33:44:55".to_string())));
    assert_eq!(a.phase(), Phase::Done);
    assert_eq!(a.pending(), Action::Finished);
    assert!(a.is_finished());
    assert_eq!(a.attempts(), 1);
    match a.outcome() {
        Some(Outcome::Done { applied, permanent }) => {
            assert_eq!(applied.get_bytes(), target().get_bytes());
            assert!(!permanent);
        }
        other => panic!("unexpected outcome {:?}", other),
    }
}

#[test]
fn read_back_is_compared_by_octets() {
    for text in ["02-11-22-33-44-55", "0211.2233.4455", "021122334455", "02:11:22:33:44:55"] {
        let a = up_to_restored(false, false);
        let a = a.advance(Event::Address(Ok(text.to_uppercase())));
        assert_eq!(a.phase(), Phase::Done);
        assert_eq!(a.observed().unwrap(), &text.to_uppercase());
    }
}

#[test]
fn link_down_succeeds_on_the_third_try() {
    let a = up_to_drained(false, true);
    let a = a.advance(Event::Command(Err(failure("RTNETLINK answers: Device or resource busy", ""))));
    assert_eq!(a.phase(), Phase::ServiceDrained);
    assert_eq!(a.pending(), Action::PauseThenSetLinkDown);
    assert_eq!(a.attempts(), 1);
    let a = a.advance(Event::Command(Err(failure("busy again", ""))));
    assert_eq!(a.phase(), Phase::ServiceDrained);
    assert_eq!(a.pending(), Action::PauseThenSetLinkDown);
    assert_eq!(a.attempts(), 2);
    let a = a.advance(Event::Command(Ok(())));
    assert_eq!(a.phase(), Phase::LinkDown);
    assert_eq!(a.attempts(), 3);
    assert_eq!(a.last_failure().unwrap().stderr, "busy again");
    let a = a.advance(Event::Command(Ok(())));
    let a = a.advance(Event::Command(Ok(())));
    let a = a.advance(Event::Service);
    let a = a.advance(Event::Address(Ok("02:11:22:33:44:55".to_string())));
    assert_eq!(a.phase(), Phase::Done);
    assert!(matches!(a.outcome(), Some(Outcome::Done { .. })));
}

#[test]
fn link_down_gives_up_after_three_failures() {
    let a = up_to_drained(false, true);
    let a = a.advance(Event::Command(Err(failure("first", ""))));
    let a = a.advance(Event::Command(Err(failure("second", ""))));
    let a = a.advance(Event::Command(Err(failure("third", "ignored"))));
    assert_eq!(a.phase(), Phase::Aborted);
    assert_eq!(a.pending(), Action::Finished);
    assert_eq!(a.attempts(), 3);
    let last = a.last_failure().unwrap();
    assert_eq!(last.stderr, "third");
    assert_eq!(last.command, "ip");
    assert_eq!(last.args.len(), 5);
    match a.outcome() {
        Some(Outcome::Aborted(e)) => assert_eq!(e, MacError::SystemError("third".to_string())),
        other => panic!("unexpected outcome {:?}", other),
    }
    let a = a.advance(Event::Command(Ok(())));
    assert_eq!(a.phase(), Phase::Aborted);
}

#[test]
fn mismatch_after_change_aborts_with_both_addresses() {
    let a = up_to_restored(false, true);
    let a = a.advance(Event::Address(Ok("02:11:22:33:44:56".to_string())));
    assert_eq!(a.phase(), Phase::Aborted);
    match a.outcome() {
        Some(Outcome::Aborted(e)) => assert_eq!(
            e,
            MacError::ValidationFailed(
                "MAC address change verification failed. Expected 02:11:22:33:44:55, got 02:11:22:33:44:56"
                    .to_string()
            )
        ),
        other => panic!("unexpected outcome {:?}", other),
    }
    assert_eq!(a.observed().unwrap(), "02:11:22:33:44:56");
}

#[test]
fn unreadable_read_back_aborts() {
    let a = up_to_restored(false, true);
    let a = a.advance(Event::Address(Ok("not an address".to_string())));
    assert_eq!(a.phase(), Phase::Aborted);
    let a = up_to_restored(false, true);
    let a = a.advance(Event::Address(Err(MacError::SystemError("no such device".to_string()))));
    match a.outcome() {
        Some(Outcome::Aborted(e)) => assert_eq!(e, MacError::SystemError("no such device".to_string())),
        other => panic!("unexpected outcome {:?}", other),
    }
}

#[test]
fn unelevated_caller_is_turned_away() {
    let a = ChangeAttempt::new(Platform::Linux, "eth0", target(), false);
    let a = a.advance(Event::Privilege(false));
    assert_eq!(a.phase(), Phase::Aborted);
    match a.outcome() {
        Some(Outcome::Aborted(e)) => assert_eq!(
            e,
            MacError::PermissionDenied(
                "This program must be run with root privileges. Please use sudo.".to_string()
            )
        ),
        other => panic!("unexpected outcome {:?}", other),
    }
    let w = ChangeAttempt::new(Platform::Windows, "Ethernet", target(), false);
    let w = w.advance(Event::Privilege(false));
    match w.outcome() {
        Some(Outcome::Aborted(e)) => assert_eq!(
            e,
            MacError::PermissionDenied(
                "This program must be run with Administrator privileges. Please use as admin.".to_string()
            )
        ),
        other => panic!("unexpected outcome {:?}", other),
    }
}

#[test]
fn missing_or_fixed_interface_fails_validation() {
    let a = ChangeAttempt::new(Platform::Linux, "eth9", target(), false);
    let a = a.advance(Event::Privilege(true));
    let a = a.advance(Event::Interface(Err(MacError::ValidationFailed("Interface eth9 not found".to_string()))));
    match a.outcome() {
        Some(Outcome::Aborted(e)) => {
            assert_eq!(e, MacError::ValidationFailed("Interface eth9 not found".to_string()))
        }
        other => panic!("unexpected outcome {:?}", other),
    }
    let b = ChangeAttempt::new(Platform::Linux, "ppp0", target(), false);
    let b = b.advance(Event::Privilege(true));
    let mut fixed = card(false);
    fixed.supports_mac_change = false;
    let b = b.advance(Event::Interface(Ok(fixed)));
    match b.outcome() {
        Some(Outcome::Aborted(e)) => assert_eq!(
            e,
            MacError::ValidationFailed("Interface ppp0 does not support MAC address changes".to_string())
        ),
        other => panic!("unexpected outcome {:?}", other),
    }
}

#[test]
fn address_set_and_link_up_are_not_retried() {
    let a = up_to_drained(false, true);
    let a = a.advance(Event::Command(Ok(())));
    let a = a.advance(Event::Command(Err(failure("", "RTNETLINK answers: Operation not permitted"))));
    assert_eq!(a.phase(), Phase::Aborted);
    match a.outcome() {
        Some(Outcome::Aborted(e)) => {
            assert_eq!(e, MacError::SystemError("RTNETLINK answers: Operation not permitted".to_string()))
        }
        other => panic!("unexpected outcome {:?}", other),
    }
    let b = up_to_drained(false, true);
    let b = b.advance(Event::Command(Ok(())));
    let b = b.advance(Event::Command(Ok(())));
    let b = b.advance(Event::Command(Err(failure("", ""))));
    match b.outcome() {
        Some(Outcome::Aborted(e)) => assert_eq!(e, MacError::SystemError("Unknown error".to_string())),
        other => panic!("unexpected outcome {:?}", other),
    }
}

#[test]
fn permanent_change_is_persisted_where_supported() {
    let a = up_to_restored(true, true);
    let a = a.advance(Event::Address(Ok("02:11:22:33:44:55".to_string())));
    assert_eq!(a.phase(), Phase::Verified);
    assert_eq!(a.pending(), Action::PersistAddress);
    assert!(a.outcome().is_none());
    let a = a.advance(Event::Command(Ok(())));
    assert_eq!(a.phase(), Phase::Done);
    match a.outcome() {
        Some(Outcome::Done { applied, permanent }) => {
            assert_eq!(applied.as_string(), "02:11:22:33:44:55");
            assert!(permanent);
        }
        other => panic!("unexpected outcome {:?}", other),
    }
}

#[test]
fn permanent_change_is_downgraded_where_unsupported() {
    let a = up_to_restored(true, false);
    let a = a.advance(Event::Address(Ok("02:11:22:33:44:55".to_string())));
    assert_eq!(a.phase(), Phase::Done);
    assert!(a.permanent());
    match a.outcome() {
        Some(Outcome::Done { permanent, .. }) => assert!(!permanent),
        other => panic!("unexpected outcome {:?}", other),
    }
}

#[test]
fn failed_persistence_aborts() {
    let a = up_to_restored(true, true);
    let a = a.advance(Event::Address(Ok("02:11:22:33:44:55".to_string())));
    let a = a.advance(Event::Command(Err(failure("Failed to write udev rule", ""))));
    assert_eq!(a.phase(), Phase::Aborted);
    match a.outcome() {
        Some(Outcome::Aborted(e)) => {
            assert_eq!(e, MacError::SystemError("Failed to write udev rule".to_string()))
        }
        other => panic!("unexpected outcome {:?}", other),
    }
}

#[test]
fn reports_that_answer_nothing_change_nothing() {
    let a = ChangeAttempt::new(Platform::Linux, "eth0", target(), false);
    let a = a.advance(Event::Service);
    assert_eq!(a.phase(), Phase::Idle);
    let a = a.advance(Event::Command(Ok(())));
    assert_eq!(a.phase(), Phase::Idle);
    let a = a.advance(Event::Address(Ok("02:11:22:33:44:55".to_string())));
    assert_eq!(a.phase(), Phase::Idle);
    assert!(a.outcome().is_none());
    assert_eq!(a.interface(), "eth0");
    assert_eq!(a.target().get_bytes(), target().get_bytes());
}

#[test]
fn unsupported_platform_ends_before_it_starts() {
    let a = ChangeAttempt::new(Platform::Other, "eth0", target(), false);
    assert_eq!(a.phase(), Phase::Aborted);
    assert_eq!(a.pending(), Action::Finished);
    match a.outcome() {
        Some(Outcome::Aborted(e)) => {
            assert_eq!(e, MacError::UnsupportedPlatform("Unsupported operating system".to_string()))
        }
        other => panic!("unexpected outcome {:?}", other),
    }
}

#[test]
fn denied_address_never_reaches_the_host() {
    let a = ChangeAttempt::screened(Platform::Linux, "eth0", target(), false, false);
    assert_eq!(a.phase(), Phase::Aborted);
    assert_eq!(a.pending(), Action::Finished);
    let a = a.advance(Event::Privilege(true));
    assert_eq!(a.pending(), Action::Finished);
    match a.outcome() {
        Some(Outcome::Aborted(e)) => assert_eq!(
            e,
            MacError::ValidationFailed("MAC address is not allowed by the filter".to_string())
        ),
        other => panic!("unexpected outcome {:?}", other),
    }
    let b = ChangeAttempt::screened(Platform::Linux, "eth0", target(), false, true);
    assert_eq!(b.phase(), Phase::Idle);
}

#[test]
fn only_the_retry_and_the_read_back_wait() {
    assert_eq!(Action::PauseThenSetLinkDown.delay_seconds(), 1);
    assert_eq!(Action::SettleThenReadAddress.delay_seconds(), 1);
    for action in [
        Action::CheckPrivilege,
        Action::VerifyInterface,
        Action::DrainService,
        Action::SetLinkDown,
        Action::SetAddress,
        Action::SetLinkUp,
        Action::RestoreService,
        Action::PersistAddress,
        Action::Finished,
    ] {
        assert_eq!(action.delay_seconds(), 0);
    }
}
