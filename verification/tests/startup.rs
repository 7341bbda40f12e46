use remote_mouse::permissions::{Permissions, PermissionsError};
use remote_mouse::sockets::{
    check_passed_socket, listener_kind, Domain, ListenerKind, SocketError,
};
use remote_mouse::systemd::{
    listen_address_required, passed_sockets, SystemdError, Variable, SD_LISTEN_FDS_START,
};

fn text(value: &str) -> Variable {
    Variable::Text(value.to_owned())
}

/// The error of a count that is meant for this process.
fn count_error(count: Variable) -> SystemdError {
    passed_sockets(&text("42"), 42, &count).unwrap_err()
}

#[test]
fn permissions_are_read() {
    assert_eq!(Permissions::from_str("0").unwrap().bits(), 0);
    assert_eq!(Permissions::from_str("660").unwrap().bits(), 0o660);
    assert_eq!(Permissions::from_str("+0644").unwrap().bits(), 0o644);
    assert_eq!(Permissions::from_str("777").unwrap().bits(), 0o777);
}

#[test]
fn permissions_must_be_octal() {
    for text in ["", "+", "-1", "8", "0o644", " 644", "rw", "40000000000"] {
        let error = Permissions::from_str(text).unwrap_err();
        assert!(
            matches!(error, PermissionsError::NotANumber(_)),
            "{text}: {error:?}"
        );
        assert_eq!(error.message(), None);
    }
}

#[test]
fn permissions_have_nine_bits() {
    for (text, value) in [
        ("1000", 0o1000),
        ("4755", 0o4755),
        ("37777777777", 0o37777777777),
    ] {
        let error = Permissions::from_str(text).unwrap_err();
        assert_eq!(error, PermissionsError::TooLarge(value));
        assert_eq!(
            error.message(),
            Some(format!(
                "Invalid file permissions {text}, expected \u{2264}777"
            ))
        );
    }
}

#[test]
fn permissions_are_written_in_three_digits() {
    for (text, written) in [("0", "000"), ("7", "007"), ("64", "064"), ("755", "755")] {
        assert_eq!(Permissions::from_str(text).unwrap().to_string(), written);
    }
}

#[test]
fn octal_form_is_read_back() {
    for bits in 0..=0o777_u32 {
        let permissions = Permissions::from_str(&format!("{bits:o}")).unwrap();
        assert_eq!(permissions.bits(), bits);
        assert_eq!(permissions.to_string(), format!("{bits:03o}"));
        assert_eq!(
            Permissions::from_str(&permissions.to_string()),
            Ok(permissions)
        );
    }
}

#[test]
fn default_permissions_respect_the_umask() {
    assert_eq!(Permissions::default_under(0o022).bits(), 0o644);
    assert_eq!(Permissions::default_under(0).bits(), 0o666);
    assert_eq!(Permissions::default_under(0o777).bits(), 0);
    assert_eq!(Permissions::default_under(0o027).to_string(), "640");
}

#[test]
fn umask_leaves_permissions() {
    let permissions = Permissions::from_str("660").unwrap();
    assert_eq!(permissions.umask(), 0o117);
    assert_eq!(0o777 & !permissions.umask(), 0o660);
}

#[test]
fn sockets_are_passed() {
    assert_eq!(SD_LISTEN_FDS_START, 3);
    assert_eq!(passed_sockets(&text("42"), 42, &text("2")), Ok(3..5));
    assert_eq!(passed_sockets(&text("+42"), 42, &text("+2")), Ok(3..5));
    assert_eq!(passed_sockets(&text("42"), 42, &text("0")), Ok(3..3));
}

#[test]
fn no_sockets_without_variables() {
    assert_eq!(passed_sockets(&Variable::Unset, 42, &text("2")), Ok(0..0));
    assert_eq!(passed_sockets(&text("42"), 42, &Variable::Unset), Ok(0..0));
}

#[test]
fn sockets_of_another_process_are_left_alone() {
    assert_eq!(passed_sockets(&text("41"), 42, &text("2")), Ok(0..0));
    // The count is not even looked at.
    assert_eq!(passed_sockets(&text("41"), 42, &text("x")), Ok(0..0));
    assert_eq!(passed_sockets(&Variable::Unset, 42, &text("x")), Ok(0..0));
}

#[test]
fn process_number_must_be_a_number() {
    for value in ["", "x", "-42", "42 ", "4294967296"] {
        let error = passed_sockets(&text(value), 42, &text("2")).unwrap_err();
        assert!(
            matches!(error, SystemdError::PidNotANumber(_)),
            "{value}: {error:?}"
        );
        assert_eq!(error.message(), "Invalid $LISTEN_PID");
    }
    let error = passed_sockets(&Variable::NotText, 42, &text("2")).unwrap_err();
    assert_eq!(error, SystemdError::PidNotText);
    assert_eq!(error.message(), "Invalid $LISTEN_PID");
}

#[test]
fn socket_count_must_be_a_number() {
    for value in ["", "x", "0x2", "2147483648", "-2147483649"] {
        let error = count_error(text(value));
        assert!(
            matches!(error, SystemdError::CountNotANumber(_)),
            "{value}: {error:?}"
        );
        assert_eq!(error.message(), "Invalid $LISTEN_FDS");
    }
    let error = count_error(Variable::NotText);
    assert_eq!(error, SystemdError::CountNotText);
    assert_eq!(error.message(), "Invalid $LISTEN_FDS");
}

#[test]
fn socket_count_must_not_be_negative() {
    for value in ["-1", "-2147483648"] {
        let error = count_error(text(value));
        assert_eq!(error, SystemdError::CountNegative);
        assert_eq!(error.message(), "Invalid $LISTEN_FDS: cannot be negative");
    }
}

#[test]
fn socket_count_must_not_be_too_large() {
    let error = count_error(text("2147483645"));
    assert_eq!(error, SystemdError::CountTooLarge);
    assert_eq!(error.message(), "Invalid $LISTEN_FDS: too large");
    assert_eq!(
        passed_sockets(&text("42"), 42, &text("2147483644")),
        Ok(3..i32::MAX)
    );
}

#[test]
fn listen_address_is_required_without_sockets() {
    assert!(listen_address_required(&(0..0)));
    assert!(listen_address_required(&(3..3)));
    assert!(!listen_address_required(&(3..4)));
}

#[test]
fn kinds_of_listeners() {
    assert_eq!(listener_kind(Domain::Ipv4), Some(ListenerKind::Tcp));
    assert_eq!(listener_kind(Domain::Ipv6), Some(ListenerKind::Tcp));
    assert_eq!(listener_kind(Domain::Unix), Some(ListenerKind::Unix));
    assert_eq!(listener_kind(Domain::Other), None);
}

#[test]
fn good_sockets_are_accepted() {
    for (domain, kind) in [
        (Domain::Ipv4, ListenerKind::Tcp),
        (Domain::Ipv6, ListenerKind::Tcp),
        (Domain::Unix, ListenerKind::Unix),
    ] {
        assert_eq!(
            check_passed_socket::<u8>(Ok(domain), Ok(true), Ok(true)),
            Ok(kind)
        );
    }
}

#[test]
fn bad_sockets_are_refused() {
    let error = check_passed_socket::<u8>(Ok(Domain::Other), Ok(false), Ok(false)).unwrap_err();
    assert_eq!(error, SocketError::NotListening);
    assert_eq!(
        error.message().unwrap(),
        "A systemd-style passed socket was not listening"
    );
    let error = check_passed_socket::<u8>(Ok(Domain::Other), Ok(true), Ok(false)).unwrap_err();
    assert_eq!(error, SocketError::Blocking);
    assert_eq!(
        error.message().unwrap(),
        "A systemd-style passed socket was in blocking mode"
    );
    let error = check_passed_socket::<u8>(Ok(Domain::Other), Ok(true), Ok(true)).unwrap_err();
    assert_eq!(error, SocketError::WrongDomain);
    assert_eq!(
        error.message().unwrap(),
        "A systemd-style passed socket was not IPv4, IPv6, or UNIX-domain"
    );
}

#[test]
fn sockets_that_cannot_be_examined_are_refused() {
    assert_eq!(
        check_passed_socket(Err(1), Err(2), Err(3)),
        Err(SocketError::Query(1))
    );
    assert_eq!(
        check_passed_socket(Ok(Domain::Ipv4), Err(2), Err(3)),
        Err(SocketError::Query(2))
    );
    assert_eq!(
        check_passed_socket(Ok(Domain::Ipv4), Ok(false), Err(3)),
        Err(SocketError::NotListening)
    );
    let error = check_passed_socket(Ok(Domain::Ipv4), Ok(true), Err(3)).unwrap_err();
    assert_eq!(error, SocketError::Query(3));
    assert_eq!(error.message(), None);
}

#[test]
fn errors_of_numbers_are_handed_on() {
    assert_eq!(
        Permissions::from_str("9"),
        Err(PermissionsError::NotANumber(
            u32::from_str_radix("9", 8).unwrap_err()
        ))
    );
    assert_eq!(
        passed_sockets(&text("4294967296"), 42, &text("2")),
        Err(SystemdError::PidNotANumber(
            "4294967296".parse::<u32>().unwrap_err()
        ))
    );
    assert_eq!(
        count_error(text("-2147483649")),
        SystemdError::CountNotANumber("-2147483649".parse::<i32>().unwrap_err())
    );
}
