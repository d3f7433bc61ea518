use shortcut_catapult::systemd::{
    listeners, parse_count, parse_process_id, service_unit, socket_unit, ListenError,
    LISTEN_FDS_START,
};

#[test]
fn service_unit_holds_the_binary_path() {
    let unit = service_unit("/usr/local/bin/shortcut-catapult");
    assert!(unit.contains("ExecStart=/"));
    assert_eq!(
        unit,
        "[Unit]\n\
         Description=Shortcut Catapult URL redirection service\n\
         Requires=shortcut-catapult.socket\n\
         \n\
         [Service]\n\
         Type=notify\n\
         ExecStart=/usr/local/bin/shortcut-catapult daemon --systemd\n\
         StandardOutput=journal\n\
         StandardError=journal\n\
         Restart=on-failure\n\
         \n\
         [Install]\n\
         WantedBy=default.target\n"
    );
}

#[test]
fn socket_unit_holds_the_port() {
    assert_eq!(
        socket_unit(9999),
        "[Unit]\n\
         Description=Shortcut Catapult Socket\n\
         PartOf=shortcut-catapult.service\n\
         \n\
         [Socket]\n\
         ListenStream=127.0.0.1:9999\n\
         Accept=false\n\
         \n\
         [Install]\n\
         WantedBy=sockets.target\n"
    );
    assert!(socket_unit(0).contains("ListenStream=127.0.0.1:0\n"));
    assert!(socket_unit(8081).contains("ListenStream=127.0.0.1:8081\n"));
    assert!(socket_unit(u16::MAX).contains("ListenStream=127.0.0.1:65535\n"));
}

#[test]
fn daemon_systemd_mode_requires_socket_activation() {
    let err = listeners(None, None, 42).unwrap_err();
    assert_eq!(err, ListenError::NotActivated);
    assert_eq!(err.message(), "Not running under systemd socket activation");
}

#[test]
fn listeners_start_at_the_first_descriptor() {
    assert_eq!(LISTEN_FDS_START, 3);
    assert_eq!(listeners(Some("42"), Some("1"), 42), Ok(vec![3]));
    assert_eq!(listeners(Some("42"), Some("3"), 42), Ok(vec![3, 4, 5]));
    assert_eq!(listeners(Some("+42"), Some("+2"), 42), Ok(vec![3, 4]));
}

#[test]
fn listeners_reject_what_is_not_for_this_process() {
    assert_eq!(listeners(Some("41"), Some("1"), 42), Err(ListenError::PidMismatch));
    assert_eq!(listeners(Some("x"), Some("1"), 42), Err(ListenError::InvalidPid));
    assert_eq!(listeners(Some(""), Some("1"), 42), Err(ListenError::InvalidPid));
    assert_eq!(listeners(Some("-42"), Some("1"), 42), Err(ListenError::InvalidPid));
    assert_eq!(listeners(Some("4294967296"), Some("1"), 42), Err(ListenError::InvalidPid));
    // The process id is looked at before the count.
    assert_eq!(listeners(Some("41"), None, 42), Err(ListenError::PidMismatch));
}

#[test]
fn listeners_reject_a_bad_count() {
    assert_eq!(listeners(Some("42"), None, 42), Err(ListenError::FdsNotSet));
    assert_eq!(listeners(Some("42"), Some("one"), 42), Err(ListenError::InvalidFds));
    assert_eq!(listeners(Some("42"), Some(" 1"), 42), Err(ListenError::InvalidFds));
    assert_eq!(listeners(Some("42"), Some("2147483648"), 42), Err(ListenError::InvalidFds));
    assert_eq!(listeners(Some("42"), Some("0"), 42), Err(ListenError::NoSockets));
    assert_eq!(listeners(Some("42"), Some("-1"), 42), Err(ListenError::NoSockets));
    assert_eq!(listeners(Some("42"), Some("2147483645"), 42), Err(ListenError::InvalidFds));
}

#[test]
fn listen_errors_in_words() {
    assert_eq!(ListenError::InvalidPid.message(), "Invalid LISTEN_PID");
    assert_eq!(ListenError::PidMismatch.message(), "LISTEN_PID does not match current process");
    assert_eq!(ListenError::FdsNotSet.message(), "LISTEN_FDS not set");
    assert_eq!(ListenError::InvalidFds.message(), "Invalid LISTEN_FDS");
    assert_eq!(ListenError::NoSockets.message(), "No listening sockets provided by systemd");
}

#[test]
fn process_ids_parse_as_the_standard_library_parses_them() {
    for text in [
        "0", "7", "007", "+7", "42", "4294967295", "4294967296", "99999999999999999999", "", "+",
        "-", "-0", "-7", "++7", "7+", "4 2", " 42", "42 ", "4_2", "0x10", "\u{663}",
    ] {
        assert_eq!(parse_process_id(text), text.parse::<u32>().ok(), "{:?}", text);
    }
}

#[test]
fn counts_parse_as_the_standard_library_parses_them() {
    for text in [
        "0", "7", "007", "+7", "-7", "-0", "+0", "2147483647", "2147483648", "-2147483648",
        "-2147483649", "99999999999999999999", "-99999999999999999999", "", "+", "-", "+-7",
        "--7", "7-", " 7", "7 ", "1_0", "\u{663}",
    ] {
        assert_eq!(parse_count(text), text.parse::<i32>().ok(), "{:?}", text);
    }
}
