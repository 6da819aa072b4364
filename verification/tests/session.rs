use merino::auth::User;
use merino::error::Error;
use merino::protocol::{AddrType, Address, AuthMethods};
use merino::session::{Phase, Session};

fn alice() -> Vec<User> {
    vec![User::new("alice".to_string(), "s3cret".to_string())]
}

/// Hands `input` to the session in reads of the length it asks for, and
/// collects what it writes.
fn drive(session: &mut Session, input: &[u8]) -> Vec<u8> {
    let mut out = Vec::new();
    let mut at = 0;
    while session.wanted() > 0 && at + session.wanted() <= input.len() {
        let n = session.wanted();
        out.extend(session.feed(&input[at..at + n]));
        at += n;
    }
    assert_eq!(at, input.len());
    out
}

#[test]
fn nothing_is_written_before_the_greeting_is_complete() {
    let mut s = Session::new(vec![AuthMethods::NoAuth], vec![]);
    assert_eq!(s.phase(), Phase::Accepted);
    assert_eq!(s.wanted(), 2);
    assert_eq!(s.feed(&[0x05, 0x02]), Vec::<u8>::new());
    assert_eq!(s.phase(), Phase::Accepted);
    assert_eq!(s.wanted(), 2);
    assert_eq!(s.feed(&[0x01, 0x00]), vec![0x05, 0x00]);
    assert_eq!(s.phase(), Phase::AwaitingRequest);
}

#[test]
fn no_auth_connect_to_loopback() {
    let mut s = Session::new(vec![AuthMethods::NoAuth], vec![]);
    assert_eq!(drive(&mut s, &[0x05, 0x01, 0x00]), vec![0x05, 0x00]);
    assert_eq!(s.phase(), Phase::AwaitingRequest);
    assert_eq!(s.wanted(), 4);
    let request = [0x05, 0x01, 0x00, 0x01, 0x7F, 0x00, 0x00, 0x01, 0x00, 0x50];
    assert_eq!(drive(&mut s, &request), Vec::<u8>::new());
    assert_eq!(s.phase(), Phase::Connecting);
    let target = s.target().unwrap();
    assert_eq!(target.addr_type(), AddrType::V4);
    assert_eq!(target.data(), &[127, 0, 0, 1]);
    assert_eq!(target.port(), 80);
    let bound = Address::new(AddrType::V4, &[10, 0, 0, 7], 0xC001);
    let reply = s.connected(&bound);
    assert_eq!(reply, vec![0x05, 0x00, 0x00, 0x01, 10, 0, 0, 7, 0xC0, 0x01]);
    assert_eq!(s.phase(), Phase::Relaying);
    assert_eq!(s.wanted(), 0);
    s.close();
    assert!(s.is_closed());
}

#[test]
fn user_pass_accepted() {
    let mut s = Session::new(vec![AuthMethods::UserPass], alice());
    assert_eq!(drive(&mut s, &[0x05, 0x01, 0x02]), vec![0x05, 0x02]);
    assert_eq!(s.phase(), Phase::AwaitingCredentials);
    let creds = [
        0x01, 0x05, 0x61, 0x6C, 0x69, 0x63, 0x65, 0x06, 0x73, 0x33, 0x63, 0x72, 0x65, 0x74,
    ];
    assert_eq!(drive(&mut s, &creds), vec![0x01, 0x00]);
    assert_eq!(s.phase(), Phase::AwaitingRequest);
    let request = [0x05, 0x01, 0x00, 0x01, 0x7F, 0x00, 0x00, 0x01, 0x00, 0x50];
    assert_eq!(drive(&mut s, &request), Vec::<u8>::new());
    assert_eq!(s.phase(), Phase::Connecting);
    let bound = Address::new(AddrType::V4, &[127, 0, 0, 1], 0);
    assert_eq!(&s.connected(&bound)[..2], &[0x05, 0x00]);
    assert_eq!(s.phase(), Phase::Relaying);
}

#[test]
fn user_pass_rejected() {
    let mut s = Session::new(vec![AuthMethods::UserPass], alice());
    assert_eq!(drive(&mut s, &[0x05, 0x01, 0x02]), vec![0x05, 0x02]);
    let creds = [0x01, 0x05, 0x61, 0x6C, 0x69, 0x63, 0x65, 0x05, 0x77, 0x72, 0x6F, 0x6E, 0x67];
    assert_eq!(drive(&mut s, &creds), vec![0x01, 0x01]);
    assert_eq!(s.phase(), Phase::Closed);
    assert_eq!(s.wanted(), 0);
    assert_eq!(s.feed(&[0x05]), Vec::<u8>::new());
}

#[test]
fn no_acceptable_method() {
    let mut s = Session::new(vec![AuthMethods::NoAuth, AuthMethods::UserPass], alice());
    assert_eq!(drive(&mut s, &[0x05, 0x01, 0x01]), vec![0x05, 0xFF]);
    assert!(s.is_closed());
}

#[test]
fn unsupported_command_after_user_pass() {
    let mut s = Session::new(vec![AuthMethods::UserPass], alice());
    assert_eq!(drive(&mut s, &[0x05, 0x01, 0x02]), vec![0x05, 0x02]);
    let creds = [
        0x01, 0x05, 0x61, 0x6C, 0x69, 0x63, 0x65, 0x06, 0x73, 0x33, 0x63, 0x72, 0x65, 0x74,
    ];
    assert_eq!(drive(&mut s, &creds), vec![0x01, 0x00]);
    let request = [0x05, 0x02, 0x00, 0x01, 0x7F, 0x00, 0x00, 0x01, 0x00, 0x50];
    assert_eq!(drive(&mut s, &request), vec![0x05, 0x07]);
    assert!(s.is_closed());
    assert!(s.target().is_none());
}

#[test]
fn udp_associate_is_refused() {
    let mut s = Session::new(vec![AuthMethods::NoAuth], vec![]);
    drive(&mut s, &[0x05, 0x01, 0x00]);
    let request = [0x05, 0x03, 0x00, 0x01, 0x7F, 0x00, 0x00, 0x01, 0x00, 0x50];
    assert_eq!(drive(&mut s, &request), vec![0x05, 0x07]);
    assert!(s.is_closed());
}

#[test]
fn unknown_command_is_refused_at_the_header() {
    let mut s = Session::new(vec![AuthMethods::NoAuth], vec![]);
    drive(&mut s, &[0x05, 0x01, 0x00]);
    assert_eq!(s.feed(&[0x05, 0x09, 0x00, 0x01]), vec![0x05, 0x07]);
    assert!(s.is_closed());
}

#[test]
fn unknown_address_type_is_refused() {
    let mut s = Session::new(vec![AuthMethods::NoAuth], vec![]);
    drive(&mut s, &[0x05, 0x01, 0x00]);
    assert_eq!(s.feed(&[0x05, 0x01, 0x00, 0x02]), vec![0x05, 0x08]);
    assert!(s.is_closed());
}

#[test]
fn request_of_another_version_fails() {
    let mut s = Session::new(vec![AuthMethods::NoAuth], vec![]);
    drive(&mut s, &[0x05, 0x01, 0x00]);
    assert_eq!(s.feed(&[0x04, 0x01, 0x00, 0x01]), vec![0x05, 0x01]);
    assert!(s.is_closed());
}

#[test]
fn domain_connect_resolution_fails() {
    let mut s = Session::new(vec![AuthMethods::NoAuth], vec![]);
    assert_eq!(drive(&mut s, &[0x05, 0x01, 0x00]), vec![0x05, 0x00]);
    let request = [
        0x05, 0x01, 0x00, 0x03, 0x0B, 0x65, 0x78, 0x2E, 0x69, 0x6E, 0x76, 0x61, 0x6C, 0x69, 0x64,
        0x2E, 0x00, 0x50,
    ];
    assert_eq!(drive(&mut s, &request), Vec::<u8>::new());
    assert_eq!(s.phase(), Phase::Connecting);
    let target = s.target().unwrap();
    assert_eq!(target.addr_type(), AddrType::Domain);
    assert_eq!(target.data(), b"ex.invalid.");
    assert_eq!(target.port(), 80);
    let error = Error::Io {
        source: "failed to lookup address information: Name or service not known".to_string(),
    };
    assert_eq!(s.fail(&error), vec![0x05, 0x01]);
    assert!(s.is_closed());
}

#[test]
fn connect_failure_is_classified() {
    let request = [0x05, 0x01, 0x00, 0x01, 0x7F, 0x00, 0x00, 0x01, 0x00, 0x50];
    let cases: [(&str, u8); 5] = [
        ("Host is down", 0x04),
        ("Network is unreachable", 0x03),
        ("ttl exceeded", 0x06),
        ("Connection refused", 0x01),
        ("Network of the Host", 0x04),
    ];
    for (text, code) in cases {
        let mut s = Session::new(vec![AuthMethods::NoAuth], vec![]);
        drive(&mut s, &[0x05, 0x01, 0x00]);
        drive(&mut s, &request);
        let error = Error::Io { source: text.to_string() };
        assert_eq!(s.fail(&error), vec![0x05, code]);
        assert!(s.is_closed());
    }
}

#[test]
fn empty_domain_yields_a_reply_code() {
    let mut s = Session::new(vec![AuthMethods::NoAuth], vec![]);
    drive(&mut s, &[0x05, 0x01, 0x00]);
    assert_eq!(drive(&mut s, &[0x05, 0x01, 0x00, 0x03, 0x00, 0x00, 0x50]), vec![0x05, 0x01]);
    assert!(s.is_closed());
}

#[test]
fn longest_domain_is_accepted() {
    let mut s = Session::new(vec![AuthMethods::NoAuth], vec![]);
    drive(&mut s, &[0x05, 0x01, 0x00]);
    let mut request = vec![0x05, 0x01, 0x00, 0x03, 0xFF];
    request.extend(vec![0x61u8; 255]);
    request.extend([0x01, 0xBB]);
    assert_eq!(drive(&mut s, &request), Vec::<u8>::new());
    assert_eq!(s.phase(), Phase::Connecting);
    let target = s.target().unwrap();
    assert_eq!(target.data().len(), 255);
    assert_eq!(target.port(), 443);
}

#[test]
fn user_pass_is_preferred_when_both_are_offered_and_enabled() {
    let mut s = Session::new(vec![AuthMethods::NoAuth, AuthMethods::UserPass], alice());
    assert_eq!(drive(&mut s, &[0x05, 0x02, 0x00, 0x02]), vec![0x05, 0x02]);
    assert_eq!(s.phase(), Phase::AwaitingCredentials);
}

#[test]
fn empty_user_name_or_password_fails_authentication() {
    let users = vec![
        User::new("".to_string(), "s3cret".to_string()),
        User::new("alice".to_string(), "".to_string()),
    ];
    let mut s = Session::new(vec![AuthMethods::UserPass], users.clone());
    drive(&mut s, &[0x05, 0x01, 0x02]);
    let no_name = [0x01, 0x00, 0x06, 0x73, 0x33, 0x63, 0x72, 0x65, 0x74];
    assert_eq!(drive(&mut s, &no_name), vec![0x01, 0x01]);
    assert!(s.is_closed());

    let mut s = Session::new(vec![AuthMethods::UserPass], users);
    drive(&mut s, &[0x05, 0x01, 0x02]);
    let no_password = [0x01, 0x05, 0x61, 0x6C, 0x69, 0x63, 0x65, 0x00];
    assert_eq!(drive(&mut s, &no_password), vec![0x01, 0x01]);
    assert!(s.is_closed());
}

#[test]
fn greeting_of_another_version_closes_silently() {
    let mut s = Session::new(vec![AuthMethods::NoAuth], vec![]);
    assert_eq!(s.feed(&[0x04, 0x01]), Vec::<u8>::new());
    assert!(s.is_closed());
}

#[test]
fn greeting_without_methods_is_answered_with_no_methods() {
    let mut s = Session::new(vec![AuthMethods::NoAuth], vec![]);
    assert_eq!(s.feed(&[0x05, 0x00]), vec![0x05, 0xFF]);
    assert!(s.is_closed());
}

#[test]
fn short_read_closes_the_session() {
    let mut s = Session::new(vec![AuthMethods::NoAuth], vec![]);
    assert_eq!(s.feed(&[0x05]), Vec::<u8>::new());
    assert!(s.is_closed());

    let mut s = Session::new(vec![AuthMethods::UserPass], alice());
    drive(&mut s, &[0x05, 0x01, 0x02]);
    assert_eq!(s.feed(&[0x01]), Vec::<u8>::new());
    assert!(s.is_closed());

    let mut s = Session::new(vec![AuthMethods::NoAuth], vec![]);
    drive(&mut s, &[0x05, 0x01, 0x00]);
    assert_eq!(s.feed(&[0x05, 0x01]), vec![0x05, 0x01]);
    assert!(s.is_closed());
}

#[test]
fn failure_before_the_request_phase_is_silent() {
    let error = Error::Io { source: "Host gone".to_string() };
    let mut s = Session::new(vec![AuthMethods::UserPass], alice());
    assert_eq!(s.fail(&error), Vec::<u8>::new());
    assert!(s.is_closed());

    let mut s = Session::new(vec![AuthMethods::UserPass], alice());
    drive(&mut s, &[0x05, 0x01, 0x02]);
    assert_eq!(s.fail(&error), Vec::<u8>::new());
    assert!(s.is_closed());

    let mut s = Session::new(vec![AuthMethods::NoAuth], vec![]);
    drive(&mut s, &[0x05, 0x01, 0x00]);
    assert_eq!(s.fail(&error), vec![0x05, 0x04]);
    assert!(s.is_closed());
}

#[test]
fn connected_outside_the_connecting_phase_does_nothing() {
    let mut s = Session::new(vec![AuthMethods::NoAuth], vec![]);
    let bound = Address::new(AddrType::V4, &[127, 0, 0, 1], 0);
    assert_eq!(s.connected(&bound), Vec::<u8>::new());
    assert_eq!(s.phase(), Phase::Accepted);
}

#[test]
fn same_offer_gives_same_selection_on_every_connection() {
    let greeting = [0x05, 0x03, 0x02, 0x00, 0x01];
    let mut first = Session::new(vec![AuthMethods::NoAuth], vec![]);
    let mut second = Session::new(vec![AuthMethods::NoAuth], vec![]);
    let reordered = [0x05, 0x04, 0x01, 0x00, 0x02, 0x00];
    let mut third = Session::new(vec![AuthMethods::NoAuth], vec![]);
    let a = drive(&mut first, &greeting);
    assert_eq!(a, vec![0x05, 0x00]);
    assert_eq!(drive(&mut second, &greeting), a);
    assert_eq!(drive(&mut third, &reordered), a);
}
