use telegramail::email::handshake::{build_handshake_message, HandshakeKind};
use telegramail::email::mime::{build_chat_message, ChatMailParams};
use telegramail::email::smtp::{
    needs_recipient_key, port_saved, send_result, tls_mode_for_port, PortProbe, ProbeOutcome, ProbeStep,
    SendOutcome, SmtpCheckResult, TlsMode,
};

fn params<'a>(in_reply_to: Option<&'a str>) -> ChatMailParams<'a> {
    ChatMailParams {
        from_email: "alice@example.org",
        to_email: "bob@example.org",
        chat_name: "Friends",
        text: "hello",
        chat_id: "-100123",
        local_ref: "42",
        in_reply_to,
        own_public_key: None,
        recipient_public_key: None,
    }
}

fn h(n: &str, v: &str) -> (String, String) {
    (n.to_owned(), v.to_owned())
}

#[test]
fn chat_message_headers() {
    let m = build_chat_message(&params(Some("<prev@x>"))).unwrap();
    assert_eq!(m.from, "alice@example.org");
    assert_eq!(m.to, "bob@example.org");
    assert_eq!(m.subject, "Chat Message");
    assert_eq!(m.body, "hello");
    assert_eq!(
        m.headers,
        vec![
            h("Message-ID", "<tgair--100123-42@telegramail>"),
            h("Chat-Version", "1.0"),
            h("X-TgAir-Telegram-Ref", "-100123:42"),
            h("Chat-Group-Name", "Friends"),
            h("In-Reply-To", "<prev@x>"),
            h("References", "<prev@x>"),
        ]
    );
    let m = build_chat_message(&params(None)).unwrap();
    assert_eq!(m.headers.len(), 4);
}

#[test]
fn invalid_addresses_are_refused() {
    let mut p = params(None);
    p.from_email = "not an address";
    assert!(build_chat_message(&p).unwrap_err().starts_with("Invalid from address: "));
    let mut p = params(None);
    p.to_email = "@@";
    assert!(build_chat_message(&p).unwrap_err().starts_with("Invalid to address: "));
    let mut p = params(None);
    p.own_public_key = Some("garbage");
    assert!(build_chat_message(&p).unwrap_err().starts_with("Parse public key: "));
    let mut p = params(None);
    p.recipient_public_key = Some("garbage");
    assert!(build_chat_message(&p).unwrap_err().starts_with("Parse recipient key: "));
}

#[test]
fn handshake_letter() {
    let kind = HandshakeKind::Request.as_str();
    let m = build_handshake_message("alice@example.org", "bob@example.org", "Alice", kind, Some("garbage"))
        .unwrap();
    assert_eq!(m.subject, "Telegramail Contact Request");
    assert_eq!(
        m.headers,
        vec![
            h("Chat-Version", "1.0"),
            h("X-Telegramail-Handshake", "request"),
            h("X-Telegramail-Display-Name", "Alice"),
        ]
    );
    assert_eq!(
        m.body,
        "Alice would like to connect with you via Telegramail.\n\nTo accept, open Telegramail and confirm this contact request.\n\nThis message was sent automatically by the Telegramail app."
    );
    assert_eq!(HandshakeKind::Accept.as_str(), "accept");
    assert!(build_handshake_message("x", "bob@example.org", "A", "request", None)
        .unwrap_err()
        .starts_with("Invalid from: "));
    assert!(build_handshake_message("alice@example.org", "y", "A", "request", None)
        .unwrap_err()
        .starts_with("Invalid to: "));
}

#[test]
fn port_465_uses_implicit_tls() {
    assert_eq!(tls_mode_for_port(465), TlsMode::Wrapper);
    assert_eq!(tls_mode_for_port(587), TlsMode::Required);
    assert_eq!(tls_mode_for_port(25), TlsMode::Required);
}

#[test]
fn send_results() {
    assert!(send_result(SendOutcome::Sent, "Send timed out").ok);
    let r = send_result(SendOutcome::TimedOut, "Send timed out (10s)");
    assert_eq!(r.error.as_deref(), Some("Send timed out (10s)"));
    let r = send_result(SendOutcome::Failed("550 no".to_owned()), "t");
    assert_eq!(r.error.as_deref(), Some("550 no"));
    assert!(needs_recipient_key("bob@x", "alice@x"));
    assert!(!needs_recipient_key("alice@x", "alice@x"));
}

#[test]
fn no_ports_is_an_error() {
    let r = PortProbe::start(vec![]).err().unwrap();
    assert_eq!(r, SmtpCheckResult::err("No ports provided"));
    assert_eq!(r.error.as_deref(), Some("No ports provided"));
}

#[test]
fn every_port_timing_out_is_reported() {
    let (mut p, step) = PortProbe::start(vec![465, 587]).unwrap();
    assert_eq!(step, ProbeStep::Try(465));
    assert_eq!(p.record(ProbeOutcome::TimedOut), ProbeStep::Try(587));
    match p.record(ProbeOutcome::TimedOut) {
        ProbeStep::Done(r) => {
            assert_eq!(r, SmtpCheckResult::all_timed_out());
            assert!(r.all_ports_timed_out);
            assert_eq!(r.error.as_deref(), Some("All ports timed out"));
        }
        other => panic!("unexpected {other:?}"),
    }
    // Once done, the probe stays done.
    assert_eq!(p.record(ProbeOutcome::Accepted), ProbeStep::Done(SmtpCheckResult::all_timed_out()));
}

#[test]
fn last_error_is_reported() {
    let (mut p, _) = PortProbe::start(vec![465, 587, 25]).unwrap();
    assert_eq!(p.record(ProbeOutcome::TimedOut), ProbeStep::Try(587));
    assert_eq!(p.record(ProbeOutcome::Failed("refused".to_owned())), ProbeStep::Try(25));
    match p.record(ProbeOutcome::Rejected) {
        ProbeStep::Done(r) => {
            assert!(!r.ok && !r.all_ports_timed_out);
            assert_eq!(r.error.as_deref(), Some("Port 25: server did not accept the connection"));
        }
        other => panic!("unexpected {other:?}"),
    }
    let (mut p, _) = PortProbe::start(vec![2525]).unwrap();
    match p.record(ProbeOutcome::TransportError("TLS error: x".to_owned())) {
        ProbeStep::Done(r) => assert_eq!(r.error.as_deref(), Some("TLS error: x")),
        other => panic!("unexpected {other:?}"),
    }
    let (mut p, _) = PortProbe::start(vec![587, 465]).unwrap();
    p.record(ProbeOutcome::Failed("x".to_owned()));
    match p.record(ProbeOutcome::TimedOut) {
        ProbeStep::Done(r) => {
            assert!(!r.all_ports_timed_out);
            assert_eq!(r.error.as_deref(), Some("Port 465: connection timed out after 10s"));
        }
        other => panic!("unexpected {other:?}"),
    }
}

#[test]
fn first_accepting_port_is_saved() {
    let (mut p, _) = PortProbe::start(vec![465, 587]).unwrap();
    assert_eq!(p.record(ProbeOutcome::Failed("x".to_owned())), ProbeStep::Try(587));
    assert_eq!(p.record(ProbeOutcome::Accepted), ProbeStep::SavePort(587));
    assert_eq!(port_saved(587, Ok(())), SmtpCheckResult::ok(587));
    let r = port_saved(587, Err("denied".to_owned()));
    assert_eq!(r.error.as_deref(), Some("Connected on port 587 but failed to save port: denied"));
    assert_eq!(SmtpCheckResult::ok(587).port, Some(587));
}
