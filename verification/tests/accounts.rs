use telegramail::deeplink::{forwarded_urls, handle_telegramail_url, DeepLinkAction, DeepLinkUrl, Deeplink};
use telegramail::email::credentials::{
    credentials_result, failure, import_autocrypt_request, needs_keypair, public_key_result,
    self_key_id,
};
use telegramail::email::db::{upsert_peer_key, PeerKeyRecord};
use telegramail::email::events::EmailHandshakeEvent;
use telegramail::email::storage::{
    after_lookup, after_migration, legacy_pgp_service_name, legacy_service_name, parse_port,
    pgp_secret_account, port_text, service_name, smtp_password_account, smtp_port_account,
    KeychainLookup, LookupStep,
};
use telegramail::email::SmtpResult;

#[test]
fn smtp_results() {
    assert_eq!(SmtpResult::ok(), SmtpResult { ok: true, error: None, data: None });
    assert_eq!(
        SmtpResult::err("bad"),
        SmtpResult { ok: false, error: Some("bad".to_owned()), data: None }
    );
    let _ = Deeplink::init();
}

#[test]
fn account_names() {
    assert_eq!(smtp_password_account("a@b"), "smtp-password:a@b");
    assert_eq!(smtp_port_account("a@b"), "smtp-port:a@b");
    assert_eq!(pgp_secret_account("a@b"), "pgp-secret:a@b");
    assert_eq!(self_key_id("a@b"), "self:a@b");
    assert_eq!(service_name(), "org.telegramail.Telegramail");
    assert_eq!(legacy_service_name(), "telegram-air");
    assert_eq!(legacy_pgp_service_name(), "telegramail-pgp");
}

#[test]
fn lookups_migrate_missing_entries() {
    assert_eq!(after_lookup(KeychainLookup::Found("pw".to_owned())), LookupStep::Done(Ok("pw".to_owned())));
    assert_eq!(after_lookup(KeychainLookup::NoEntry), LookupStep::Migrate);
    assert_eq!(after_lookup(KeychainLookup::Failed("locked".to_owned())), LookupStep::Done(Err("locked".to_owned())));
    assert_eq!(after_migration(Some("pw".to_owned()), "No SMTP password stored"), Ok("pw".to_owned()));
    assert_eq!(after_migration(None, "No SMTP password stored"), Err("No SMTP password stored".to_owned()));
}

#[test]
fn ports_are_read_as_u16_parses_them() {
    assert_eq!(parse_port("587"), Ok(587));
    assert_eq!(parse_port("+25"), Ok(25));
    assert_eq!(parse_port("065535"), Ok(65535));
    assert_eq!(parse_port(""), Err("cannot parse integer from empty string".to_owned()));
    assert_eq!(parse_port("+"), Err("invalid digit found in string".to_owned()));
    assert_eq!(parse_port("-1"), Err("invalid digit found in string".to_owned()));
    assert_eq!(parse_port(" 25"), Err("invalid digit found in string".to_owned()));
    assert_eq!(parse_port("65536"), Err("number too large to fit in target type".to_owned()));
    assert_eq!(parse_port("99999x"), Err("number too large to fit in target type".to_owned()));
    for raw in ["587", "+25", "", "+", "-1", "65536", "12a", "999999"] {
        assert_eq!(parse_port(raw), raw.parse::<u16>().map_err(|e| e.to_string()), "{raw}");
    }
}

#[test]
fn stored_port_reads_back() {
    for p in [0u16, 25, 465, 587, 65535] {
        assert_eq!(port_text(p), p.to_string());
        assert_eq!(parse_port(&port_text(p)), Ok(p));
    }
}

fn rec(k: &str, t: i64) -> PeerKeyRecord {
    PeerKeyRecord { public_key: k.to_owned(), updated_at: t }
}

#[test]
fn newer_key_wins() {
    assert_eq!(upsert_peer_key(None, "k1".to_owned(), 10), rec("k1", 10));
    assert_eq!(upsert_peer_key(Some(rec("k1", 10)), "k2".to_owned(), 20), rec("k2", 20));
    assert_eq!(upsert_peer_key(Some(rec("k2", 20)), "k1".to_owned(), 10), rec("k2", 20));
    assert_eq!(upsert_peer_key(Some(rec("k1", 10)), "k3".to_owned(), 10), rec("k1", 10));
    let a = upsert_peer_key(Some(upsert_peer_key(None, "a".to_owned(), 1)), "b".to_owned(), 2);
    let b = upsert_peer_key(Some(upsert_peer_key(None, "b".to_owned(), 2)), "a".to_owned(), 1);
    assert_eq!(a, b);
}

#[test]
fn credential_results() {
    assert_eq!(public_key_result(Ok(Some("K".to_owned()))).data.as_deref(), Some("K"));
    let r = public_key_result(Ok(None));
    assert!(r.ok && r.error.is_none());
    assert_eq!(r.data.as_deref(), Some(""));
    assert_eq!(public_key_result(Err("db".to_owned())), SmtpResult::err("db"));
    assert_eq!(credentials_result(Ok("pw".to_owned())), SmtpResult::ok());
    assert_eq!(credentials_result(Err("none".to_owned())), SmtpResult::err("none"));
    assert!(needs_keypair(&Ok(None)));
    assert!(needs_keypair(&Err("db".to_owned())));
    assert!(!needs_keypair(&Ok(Some("K".to_owned()))));
    assert_eq!(failure("PGP keygen: ", "x"), SmtpResult::err("PGP keygen: x"));
    assert_eq!(
        import_autocrypt_request("addr=a@b").unwrap_err(),
        SmtpResult::err("Parse Autocrypt: Missing addr or keydata in Autocrypt header")
    );
}

fn q(pairs: &[(&str, &str)]) -> Vec<(String, String)> {
    pairs.iter().map(|(k, v)| (k.to_string(), v.to_string())).collect()
}

#[test]
fn handshake_links() {
    assert_eq!(
        handle_telegramail_url("/handshake/", &q(&[("email", "a@b"), ("name", "Al"), ("email", "c@d")])),
        DeepLinkAction::Handshake {
            handshake: EmailHandshakeEvent {
                kind: "request".to_owned(),
                from: "c@d".to_owned(),
                display_name: Some("Al".to_owned()),
            },
            pgp_key: None,
        }
    );
    match handle_telegramail_url("handshake", &q(&[("pgp", "KEY"), ("email", "a@b")])) {
        DeepLinkAction::Handshake { pgp_key, handshake } => {
            assert_eq!(pgp_key.as_deref(), Some("KEY"));
            assert_eq!(handshake.display_name, None);
        }
        other => panic!("unexpected {other:?}"),
    }
    assert_eq!(handle_telegramail_url("//handshake", &q(&[("name", "x")])), DeepLinkAction::MissingEmail);
    assert_eq!(
        handle_telegramail_url("/other/path/", &q(&[])),
        DeepLinkAction::UnknownPath("other/path".to_owned())
    );
}

fn url(scheme: &str, text: &str) -> DeepLinkUrl {
    DeepLinkUrl { scheme: scheme.to_owned(), path: String::new(), query: vec![], text: text.to_owned() }
}

#[test]
fn foreign_links_are_forwarded() {
    let own = url("telegramail", "telegramail://handshake?email=a@b");
    let tg = url("tg", "tg://resolve?domain=x");
    assert_eq!(forwarded_urls(&vec![own.clone()]), None);
    assert_eq!(
        forwarded_urls(&vec![own.clone(), tg.clone()]),
        Some(vec!["telegramail://handshake?email=a@b".to_owned(), "tg://resolve?domain=x".to_owned()])
    );
    assert_eq!(forwarded_urls(&vec![]), None);
}

#[test]
fn repeated_upsert_changes_nothing() {
    let once = upsert_peer_key(Some(rec("k1", 10)), "k2".to_owned(), 20);
    let twice = upsert_peer_key(Some(once.clone()), "k2".to_owned(), 20);
    assert_eq!(once, twice);
}
