use telegramail::email::events::EmailHandshakeEvent;
use telegramail::email::imap::{
    decrypted_or_body, incoming_would_panic, parse_incoming, select_uids_to_fetch, uid_set,
    unfold_headers, IncomingMail,
};

#[test]
fn unfold_joins_continuation_lines() {
    assert_eq!(unfold_headers("Subject: a\r\n b\r\n\tc"), "Subject: a b c");
    assert_eq!(unfold_headers("A: x\n y\n\tz"), "A: x y z");
    assert_eq!(unfold_headers("A: x\r\nB: y"), "A: x\r\nB: y");
    assert_eq!(unfold_headers(""), "");
}

fn chat_mail(extra: &str, body: &str) -> Vec<u8> {
    format!(
        "From: Alice <alice@example.org>\r\nChat-Version: 1.0\r\n{extra}\r\n{body}"
    )
    .into_bytes()
}

#[test]
fn chat_message_is_read() {
    let raw = chat_mail(
        "Message-ID: <tgair-7-42@telegramail>\r\nChat-Group-Name: Friends\r\nX-TgAir-Telegram-Ref: 7:42\r\nIn-Reply-To: <x@y>\r\n",
        "  Hello there \r\n",
    );
    match parse_incoming(&raw) {
        IncomingMail::Message { message, encrypted } => {
            assert!(!encrypted);
            assert_eq!(message.from, "alice@example.org");
            assert_eq!(message.text, "Hello there");
            assert_eq!(message.message_id, "<tgair-7-42@telegramail>");
            assert_eq!(message.chat_group_name.as_deref(), Some("Friends"));
            assert_eq!(message.telegram_ref.as_deref(), Some("7:42"));
            assert_eq!(message.in_reply_to.as_deref(), Some("<x@y>"));
            assert_eq!(message.autocrypt, None);
        }
        other => panic!("unexpected {other:?}"),
    }
}

#[test]
fn header_names_ignore_case_and_folding() {
    let raw = b"from: bob@example.org\nchat-version: 1.0\nCHAT-GROUP-NAME: a\n long name\nMessage-Id: m1\n\nbody".to_vec();
    // "Chat-Version:" must occur verbatim; lower case does not count.
    assert_eq!(parse_incoming(&raw), IncomingMail::Ignored);
    let raw = b"from: bob@example.org\nChat-Version: 1.0\nCHAT-GROUP-NAME: a\n long name\nMessage-Id: m1\n\nbody".to_vec();
    match parse_incoming(&raw) {
        IncomingMail::Message { message, .. } => {
            assert_eq!(message.from, "bob@example.org");
            assert_eq!(message.chat_group_name.as_deref(), Some("a long name"));
            assert_eq!(message.message_id, "m1");
            assert_eq!(message.text, "body");
        }
        other => panic!("unexpected {other:?}"),
    }
}

#[test]
fn missing_message_id_is_empty() {
    let raw = chat_mail("", "hi");
    match parse_incoming(&raw) {
        IncomingMail::Message { message, .. } => assert_eq!(message.message_id, ""),
        other => panic!("unexpected {other:?}"),
    }
}

#[test]
fn encrypted_body_is_marked() {
    let raw = chat_mail("", "-----BEGIN PGP MESSAGE-----\r\n\r\nabc\r\n-----END PGP MESSAGE-----");
    match parse_incoming(&raw) {
        IncomingMail::Message { message, encrypted } => {
            assert!(encrypted);
            assert!(message.text.starts_with("-----BEGIN PGP MESSAGE-----"));
        }
        other => panic!("unexpected {other:?}"),
    }
}

#[test]
fn handshake_is_read() {
    let raw = chat_mail(
        "X-Telegramail-Handshake: request\r\nX-Telegramail-Display-Name: Alice A.\r\nAutocrypt: addr=alice@example.org; keydata=AAAA\r\n",
        "Alice would like to connect",
    );
    assert_eq!(
        parse_incoming(&raw),
        IncomingMail::Handshake {
            handshake: EmailHandshakeEvent {
                kind: "request".to_owned(),
                from: "alice@example.org".to_owned(),
                display_name: Some("Alice A.".to_owned()),
            },
            autocrypt: Some("addr=alice@example.org; keydata=AAAA".to_owned()),
        }
    );
}

#[test]
fn mail_without_chat_version_or_from_is_ignored() {
    assert_eq!(parse_incoming(b"From: a@b\r\n\r\nhello"), IncomingMail::Ignored);
    assert_eq!(parse_incoming(b"Chat-Version: 1.0\r\n\r\nhello"), IncomingMail::Ignored);
    assert_eq!(parse_incoming(b"From: a@b\r\nChat-Version: 1.0\r\nno blank line"), IncomingMail::Ignored);
    assert_eq!(parse_incoming(&[0xff, 0xfe, b'\n', b'\n']), IncomingMail::Ignored);
}

#[test]
fn crlf_separator_wins_over_lf() {
    let raw = b"From: a@b\nChat-Version: 1.0\n\nX: y\r\n\r\nbody".to_vec();
    match parse_incoming(&raw) {
        IncomingMail::Message { message, .. } => assert_eq!(message.text, "body"),
        other => panic!("unexpected {other:?}"),
    }
}

#[test]
fn reversed_brackets_in_from_are_detected() {
    let raw = b"From: a> <b\r\nChat-Version: 1.0\r\n\r\nx".to_vec();
    assert!(incoming_would_panic(&raw));
    let ok = b"From: <b@c>\r\nChat-Version: 1.0\r\n\r\nx".to_vec();
    assert!(!incoming_would_panic(&ok));
    assert!(!incoming_would_panic(b"From: a> <b\r\n\r\nx"));
}

#[test]
fn decryption_failure_keeps_body() {
    assert_eq!(decrypted_or_body(Ok("plain".to_owned()), "armored".to_owned()), "plain");
    assert_eq!(decrypted_or_body(Err("bad".to_owned()), "armored".to_owned()), "armored");
}

#[test]
fn at_most_fifty_highest_uids_are_fetched() {
    let uids: Vec<u32> = (1..=60).collect();
    let chosen = select_uids_to_fetch(&uids);
    assert_eq!(chosen, (11..=60).rev().collect::<Vec<u32>>());
    assert_eq!(select_uids_to_fetch(&vec![3, 9, 1]), vec![9, 3, 1]);
    assert_eq!(select_uids_to_fetch(&vec![]), Vec::<u32>::new());
    assert_eq!(select_uids_to_fetch(&vec![5, 5, 2]), vec![5, 5, 2]);
}

#[test]
fn uid_set_joins_with_commas() {
    assert_eq!(uid_set(&vec![60, 7, 123456789]), "60,7,123456789");
    assert_eq!(uid_set(&vec![0]), "0");
    assert_eq!(uid_set(&vec![]), "");
    assert_eq!(uid_set(&vec![u32::MAX]), u32::MAX.to_string());
}

#[test]
fn unfolding_twice_changes_nothing() {
    let raw = "Subject: a\r\n b\r\n\tc\nX: \n\r\n d\r\nY: e\n\t f";
    let once = unfold_headers(raw);
    assert_eq!(once, "Subject: a b c\nX:  d\r\nY: e  f");
    assert!(!once.contains("\n ") && !once.contains("\n\t"));
    assert_eq!(unfold_headers(&once), once);
}
