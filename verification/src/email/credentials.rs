//! Account commands: the own key's keyring entry and the results reported.

use vstd::prelude::*;

use crate::email::pgp::{autocrypt_parse_result, parse_autocrypt_header};
use crate::email::{opt_chars, SmtpResult};
use crate::text::{chars_of, extend_str, string_of};

verus! {

/// The keyring entry of one's own public key: `self:<email>`.
pub fn self_key_id(email: &str) -> (r: String)
    ensures
        r@ == "self:"@ + email@,
{
    let mut v = chars_of("self:");
    extend_str(&mut v, email);
    string_of(&v)
}

/// A failure whose message is `prefix` followed by `e`.
pub fn failure(prefix: &str, e: &str) -> (r: SmtpResult)
    ensures
        !r.ok,
        opt_chars(r.error) == Some(prefix@ + e@),
        r.data is None,
{
    let mut v = chars_of(prefix);
    extend_str(&mut v, e);
    SmtpResult::err(string_of(&v).as_str())
}

/// The reply to a request for the own public key: the key as payload, the
/// empty string when there is none, or the lookup's error.
pub fn public_key_result(lookup: Result<Option<String>, String>) -> (r: SmtpResult)
    ensures
        match lookup {
            Ok(Some(k)) => r.ok && r.error is None && opt_chars(r.data) == Some(k@),
            Ok(None) => r.ok && r.error is None && opt_chars(r.data) == Some(Seq::<char>::empty()),
            Err(e) => !r.ok && opt_chars(r.error) == Some(e@) && r.data is None,
        },
{
    match lookup {
        Ok(Some(key)) => SmtpResult { ok: true, error: None, data: Some(key) },
        Ok(None) => SmtpResult { ok: true, error: None, data: Some(String::new()) },
        Err(e) => SmtpResult::err(e.as_str()),
    }
}

/// The reply to a request to check the stored credentials.
pub fn credentials_result(lookup: Result<String, String>) -> (r: SmtpResult)
    ensures
        match lookup {
            Ok(_) => r.ok && r.error is None && r.data is None,
            Err(e) => !r.ok && opt_chars(r.error) == Some(e@) && r.data is None,
        },
{
    match lookup {
        Ok(_) => SmtpResult::ok(),
        Err(e) => SmtpResult::err(e.as_str()),
    }
}

/// A key pair is generated unless the own public key is found; a failed
/// lookup counts as not found.
pub fn needs_keypair(lookup: &Result<Option<String>, String>) -> (b: bool)
    ensures
        b == !(lookup matches Ok(Some(_))),
{
    match lookup {
        Ok(Some(_)) => false,
        _ => true,
    }
}

/// Reads an `Autocrypt:` value for import into the peer keyring: the address
/// and the armored key, or the failure to report ("Parse Autocrypt: ...").
pub fn import_autocrypt_request(autocrypt_value: &str) -> (r: Result<(String, String), SmtpResult>)
    ensures
        match autocrypt_parse_result(autocrypt_value@) {
            Ok((addr, key)) => r matches Ok((a, k)) && a@ == addr && k@ == key,
            Err(e) => r matches Err(res) && !res.ok && opt_chars(res.error) == Some(
                "Parse Autocrypt: "@ + e,
            ) && res.data is None,
        },
{
    match parse_autocrypt_header(autocrypt_value) {
        Ok(v) => Ok(v),
        Err(e) => Err(failure("Parse Autocrypt: ", e.as_str())),
    }
}

} // verus!
