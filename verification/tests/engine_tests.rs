use oxitone_preview::engine::{audible, check_plugin, check_transport, check_transport_command, fault_report, reserved_plugin, valid_digest, Admission, SnapshotGate, TransportCommand, TransportPosition};

fn digest() -> String {
    "0123456789abcdefABCDEF".repeat(3)[..64].to_string()
}

#[test]
fn snapshot_digests_are_64_hex_digits() {
    assert!(valid_digest(&digest()));
    assert!(!valid_digest(&digest()[..63].to_string()));
    assert!(!valid_digest(&format!("{}0", digest())));
    let mut odd = digest();
    odd.replace_range(10..11, "g");
    assert!(!valid_digest(&odd));
    assert!(!valid_digest(&"é".repeat(32)), "64 bytes but not hex");
}

#[test]
fn only_newer_snapshots_are_considered() {
    let mut gate = SnapshotGate::new();
    assert!(matches!(gate.consider(5, &digest(), false), Admission::Admit));
    assert!(matches!(gate.consider(5, &digest(), false), Admission::Stale));
    assert!(matches!(gate.consider(4, &digest(), false), Admission::Stale));
    match gate.consider(6, &"nope".to_string(), false) {
        Admission::Refuse(e) => assert_eq!(e.message, "invalid snapshot hash"),
        _ => panic!("refusal expected"),
    }
    assert_eq!(gate.seen, Some(6), "a refused revision still counts as seen");
    match gate.consider(7, &digest(), true) {
        Admission::Refuse(e) => assert_eq!(e.message, "restart preview to change sample rate or block size during a session"),
        _ => panic!("refusal expected"),
    }
}

#[test]
fn builtin_plugin_ids_are_reserved() {
    assert!(reserved_plugin(&"oxitone.wavetable".to_string()));
    assert!(reserved_plugin(&"oxitone.".to_string()));
    assert!(!reserved_plugin(&"vendor.texture".to_string()));
    assert!(!reserved_plugin(&"oxitone".to_string()));
}

#[test]
fn the_audible_frame_lags_the_cursor_while_playing() {
    assert_eq!(audible(1000, 128, 64, true), 808);
    assert_eq!(audible(100, 128, 64, true), 0);
    assert_eq!(audible(1000, 128, 64, false), 1000);
}

#[test]
fn transport_commands_need_one_position_and_an_ordered_loop() {
    let none = TransportPosition { frame: None, beat_given: false, beat_negative: false, seconds_given: false };
    assert!(check_transport(true, &none, None).is_ok());
    assert_eq!(check_transport(false, &none, None).unwrap_err().message, "no accepted project");
    let two = TransportPosition { frame: Some(3), beat_given: true, beat_negative: false, seconds_given: false };
    assert_eq!(check_transport(true, &two, None).unwrap_err().message, "transport position is ambiguous");
    let negative = TransportPosition { frame: None, beat_given: true, beat_negative: true, seconds_given: false };
    assert_eq!(check_transport(true, &negative, None).unwrap_err().message, "beat must be non-negative");
    assert_eq!(check_transport(true, &none, Some((8, 8))).unwrap_err().message, "loop end must follow start");
    assert!(check_transport(true, &none, Some((8, 9))).is_ok());
}

#[test]
fn only_transport_commands_reach_the_engine_and_seek_needs_a_position() {
    let none = TransportPosition { frame: None, beat_given: false, beat_negative: false, seconds_given: false };
    let frame = TransportPosition { frame: Some(480), beat_given: false, beat_negative: false, seconds_given: false };
    let seconds = TransportPosition { frame: None, beat_given: false, beat_negative: false, seconds_given: true };
    assert_eq!(
        check_transport_command(TransportCommand::Other, true, &frame, None).unwrap_err().message,
        "preview transport only"
    );
    assert_eq!(
        check_transport_command(TransportCommand::Other, false, &none, Some((8, 8))).unwrap_err().message,
        "preview transport only"
    );
    assert_eq!(
        check_transport_command(TransportCommand::Seek, true, &none, None).unwrap_err().message,
        "seek requires position"
    );
    assert_eq!(
        check_transport_command(TransportCommand::Seek, true, &none, Some((8, 8))).unwrap_err().message,
        "loop end must follow start"
    );
    assert_eq!(
        check_transport_command(TransportCommand::Seek, false, &none, None).unwrap_err().message,
        "no accepted project"
    );
    assert!(check_transport_command(TransportCommand::Seek, true, &frame, None).is_ok());
    assert!(check_transport_command(TransportCommand::Seek, true, &seconds, None).is_ok());
    assert!(check_transport_command(TransportCommand::Play, true, &none, Some((8, 9))).is_ok());
    assert!(check_transport_command(TransportCommand::Pause, true, &none, None).is_ok());
    assert!(check_transport_command(TransportCommand::Stop, true, &none, None).is_ok());
}

#[test]
fn plugins_may_not_claim_builtin_or_registered_ids() {
    assert!(check_plugin(&"vendor.texture".to_string(), false).is_ok());
    assert_eq!(
        check_plugin(&"oxitone.reverb".to_string(), false).unwrap_err().message,
        "duplicate or reserved plugin ID/version"
    );
    assert!(check_plugin(&"vendor.texture".to_string(), true).is_err());
}

#[test]
fn the_fault_report_lists_faulting_plugins() {
    let plugins = vec![("vendor.a".to_string(), 2), ("vendor.b".to_string(), 0), ("vendor.c".to_string(), 10)];
    assert_eq!(fault_report(&plugins), (12, "vendor.a: 2, vendor.c: 10".to_string()));
    assert_eq!(fault_report(&vec![]), (0, String::new()));
}
