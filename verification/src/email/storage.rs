//! Keychain entries: their account names, the port's text form, and the
//! migration from legacy service names on a failed lookup.

use vstd::prelude::*;

use crate::text::{chars_of, decimal, digit, extend_str, push_decimal, string_of};

verus! {

/// All entries share one service name (macOS grants access per service and application).
pub open spec fn service() -> Seq<char> {
    "org.telegramail.Telegramail"@
}

/// The service name of the current keychain entries.
pub fn service_name() -> (r: &'static str)
    ensures
        r@ == service(),
{
    "org.telegramail.Telegramail"
}

/// The legacy service name of the SMTP entries, read only to migrate them.
pub fn legacy_service_name() -> (r: &'static str)
    ensures
        r@ == "telegram-air"@,
{
    "telegram-air"
}

/// The legacy service name of the OpenPGP secret key, read only to migrate it
/// (and still used by the key store of the `pgp` module of the application).
pub fn legacy_pgp_service_name() -> (r: &'static str)
    ensures
        r@ == "telegramail-pgp"@,
{
    "telegramail-pgp"
}

/// `prefix` followed by the address.
fn account(prefix: &str, email: &str) -> (r: String)
    ensures
        r@ == prefix@ + email@,
{
    let mut v = chars_of(prefix);
    extend_str(&mut v, email);
    string_of(&v)
}

/// The account of the SMTP password: `smtp-password:<email>`.
pub fn smtp_password_account(email: &str) -> (r: String)
    ensures
        r@ == "smtp-password:"@ + email@,
{
    account("smtp-password:", email)
}

/// The account of the SMTP port: `smtp-port:<email>`.
pub fn smtp_port_account(email: &str) -> (r: String)
    ensures
        r@ == "smtp-port:"@ + email@,
{
    account("smtp-port:", email)
}

/// The account of the OpenPGP secret key: `pgp-secret:<email>`.
pub fn pgp_secret_account(email: &str) -> (r: String)
    ensures
        r@ == "pgp-secret:"@ + email@,
{
    account("pgp-secret:", email)
}

// ---------------------------------------------------------------------------
// Looking an entry up, with migration
// ---------------------------------------------------------------------------

/// How reading a keychain entry ended.
#[derive(Debug, Clone, PartialEq, Eq)]
pub enum KeychainLookup {
    Found(String),
    /// The entry does not exist.
    NoEntry,
    /// Any other keychain error, with its text.
    Failed(String),
}

/// What follows a lookup.
#[derive(Debug, PartialEq, Eq)]
pub enum LookupStep {
    Done(Result<String, String>),
    /// Try to migrate the entry from the legacy service.
    Migrate,
}

/// A found entry is the answer, a missing one is migrated, any other error is reported.
pub fn after_lookup(lookup: KeychainLookup) -> (step: LookupStep)
    ensures
        match lookup {
            KeychainLookup::Found(v) => step matches LookupStep::Done(Ok(w)) && w@ == v@,
            KeychainLookup::NoEntry => step == LookupStep::Migrate,
            KeychainLookup::Failed(e) => step matches LookupStep::Done(Err(m)) && m@ == e@,
        },
{
    match lookup {
        KeychainLookup::Found(v) => LookupStep::Done(Ok(v)),
        KeychainLookup::NoEntry => LookupStep::Migrate,
        KeychainLookup::Failed(e) => LookupStep::Done(Err(e)),
    }
}

/// The answer after a migration attempt: the migrated value, or `missing`.
pub fn after_migration(migrated: Option<String>, missing: &str) -> (r: Result<String, String>)
    ensures
        match migrated {
            Some(v) => r matches Ok(w) && w@ == v@,
            None => r matches Err(m) && m@ == missing@,
        },
{
    match migrated {
        Some(v) => Ok(v),
        None => Err(missing.to_owned()),
    }
}

// ---------------------------------------------------------------------------
// The port's text form
// ---------------------------------------------------------------------------

/// A decimal digit.
pub open spec fn is_digit(c: char) -> bool {
    '0' <= c <= '9'
}

/// The value of a decimal digit.
pub open spec fn digit_value(c: char) -> nat {
    ((c as u32) - 48) as nat
}

/// `ParseIntError`'s text for an empty string.
pub open spec fn empty_message() -> Seq<char> {
    "cannot parse integer from empty string"@
}

/// `ParseIntError`'s text for a character that is not a digit.
pub open spec fn invalid_digit_message() -> Seq<char> {
    "invalid digit found in string"@
}

/// `ParseIntError`'s text for a value above the type's maximum.
pub open spec fn overflow_message() -> Seq<char> {
    "number too large to fit in target type"@
}

/// Reading digits left to right into a `u16`, starting from `acc`: the first
/// non-digit fails, as does the first step beyond 65535.
pub open spec fn parse_digits(s: Seq<char>, acc: nat) -> Result<nat, Seq<char>>
    decreases s.len(),
{
    if s.len() == 0 {
        Ok(acc)
    } else if !is_digit(s[0]) {
        Err(invalid_digit_message())
    } else if acc * 10 + digit_value(s[0]) > 65535 {
        Err(overflow_message())
    } else {
        parse_digits(s.skip(1), acc * 10 + digit_value(s[0]))
    }
}

/// `u16::from_str`: an optional `+`, then at least one decimal digit.
pub open spec fn parse_u16(s: Seq<char>) -> Result<nat, Seq<char>> {
    if s.len() == 0 {
        Err(empty_message())
    } else {
        let body = if s[0] == '+' {
            s.skip(1)
        } else {
            s
        };
        if body.len() == 0 {
            Err(invalid_digit_message())
        } else {
            parse_digits(body, 0)
        }
    }
}

/// Reads a stored port (`u16::from_str`), the error rendered as `ParseIntError` shows it.
pub fn parse_port(raw: &str) -> (r: Result<u16, String>)
    ensures
        match parse_u16(raw@) {
            Ok(n) => r matches Ok(p) && p == n,
            Err(m) => r matches Err(e) && e@ == m,
        },
{
    let v = chars_of(raw);
    if v.len() == 0 {
        return Err("cannot parse integer from empty string".to_owned());
    }
    let start: usize = if v[0] == '+' {
        1
    } else {
        0
    };
    let ghost body = if v@[0] == '+' {
        v@.skip(1)
    } else {
        v@
    };
    assert(body =~= v@.skip(start as int));
    if start == v.len() {
        return Err("invalid digit found in string".to_owned());
    }
    let mut acc: u32 = 0;
    let mut i = start;
    while i < v.len()
        invariant
            start <= i <= v.len(),
            acc <= 65535,
            parse_u16(raw@) == parse_digits(v@.skip(i as int), acc as nat),
            v@ == raw@,
            body =~= v@.skip(start as int),
            start < v.len(),
        decreases v.len() - i,
    {
        let c = v[i];
        assert(v@.skip(i as int)[0] == c);
        assert(v@.skip(i as int).skip(1) =~= v@.skip(i + 1));
        if !('0' <= c && c <= '9') {
            return Err("invalid digit found in string".to_owned());
        }
        let d = (c as u32) - 48;
        let next = acc * 10 + d;
        if next > 65535 {
            return Err("number too large to fit in target type".to_owned());
        }
        acc = next;
        i = i + 1;
    }
    assert(v@.skip(i as int).len() == 0);
    Ok(acc as u16)
}

/// Writes a port in the form it is stored in (`to_string`).
pub fn port_text(port: u16) -> (r: String)
    ensures
        r@ == decimal(port as nat),
{
    let mut v: Vec<char> = Vec::new();
    push_decimal(&mut v, port as u64);
    assert(v@ =~= decimal(port as nat));
    string_of(&v)
}

/// Reading digits splits at any point.
proof fn lemma_parse_digits_concat(x: Seq<char>, y: Seq<char>, acc: nat)
    ensures
        parse_digits(x + y, acc) == match parse_digits(x, acc) {
            Ok(v) => parse_digits(y, v),
            Err(e) => Err(e),
        },
    decreases x.len(),
{
    if x.len() > 0 {
        assert((x + y)[0] == x[0]);
        assert((x + y).skip(1) =~= x.skip(1) + y);
        if is_digit(x[0]) && acc * 10 + digit_value(x[0]) <= 65535 {
            lemma_parse_digits_concat(x.skip(1), y, acc * 10 + digit_value(x[0]));
        }
    } else {
        assert(x + y =~= y);
    }
}

/// A digit character has the value it stands for.
proof fn lemma_digit(k: nat)
    requires
        k < 10,
    ensures
        is_digit(digit(k)),
        digit_value(digit(k)) == k,
{
}

/// The decimal form of `n` reads back as `n`.
proof fn lemma_parse_decimal(n: nat)
    requires
        n <= 65535,
    ensures
        parse_digits(decimal(n), 0) == Ok::<nat, Seq<char>>(n),
        decimal(n).len() > 0,
        decimal(n)[0] != '+',
    decreases n,
{
    if n < 10 {
        lemma_digit(n);
        assert(decimal(n) == seq![digit(n)]);
        assert(seq![digit(n)].skip(1) =~= Seq::<char>::empty());
        assert(parse_digits(Seq::<char>::empty(), n) == Ok::<nat, Seq<char>>(n));
        assert(0 * 10 + n == n);
    } else {
        lemma_parse_decimal(n / 10);
        lemma_digit(n % 10);
        lemma_parse_digits_concat(decimal(n / 10), seq![digit(n % 10)], 0);
        assert(decimal(n) == decimal(n / 10) + seq![digit(n % 10)]);
        assert(seq![digit(n % 10)].skip(1) =~= Seq::<char>::empty());
        assert((n / 10) * 10 + n % 10 == n);
        assert(parse_digits(Seq::<char>::empty(), n) == Ok::<nat, Seq<char>>(n));
        assert(parse_digits(seq![digit(n % 10)], n / 10) == Ok::<nat, Seq<char>>(n));
        assert(decimal(n)[0] == decimal(n / 10)[0]);
    }
}

/// Law: a port written with `port_text` is read back by `parse_port` unchanged
/// (what `save_smtp_port` stores, `load_smtp_port` returns).
pub proof fn lemma_port_roundtrip(port: u16)
    ensures
        parse_u16(decimal(port as nat)) == Ok::<nat, Seq<char>>(port as nat),
{
    lemma_parse_decimal(port as nat);
}

} // verus!
