//! E-mail transport: results, events, parsing and assembly of messages.

use vstd::prelude::*;

pub mod credentials;
pub mod db;
pub mod events;
pub mod handshake;
pub mod imap;
pub mod mime;
pub mod pgp;
pub mod smtp;
pub mod storage;

verus! {

/// The outcome of an e-mail command, as handed to the front end.
#[derive(Debug, Clone, PartialEq, Eq)]
pub struct SmtpResult {
    pub ok: bool,
    pub error: Option<String>,
    /// Optional payload (e.g. armored public key).
    pub data: Option<String>,
}

/// The characters of an optional string.
pub open spec fn opt_chars(o: Option<String>) -> Option<Seq<char>> {
    match o {
        Some(s) => Some(s@),
        None => None,
    }
}

impl SmtpResult {
    /// A success without payload.
    pub fn ok() -> (r: Self)
        ensures
            r.ok,
            r.error is None,
            r.data is None,
    {
        SmtpResult { ok: true, error: None, data: None }
    }

    /// A failure with the given message.
    pub fn err(msg: &str) -> (r: Self)
        ensures
            !r.ok,
            opt_chars(r.error) == Some(msg@),
            r.data is None,
    {
        SmtpResult { ok: false, error: Some(msg.to_owned()), data: None }
    }
}

} // verus!
