//! Handling of deep links: `telegramail://handshake?email=..&name=..&pgp=..`
//! starts a contact handshake; links of other schemes go to the front end.

use vstd::prelude::*;

use crate::email::events::EmailHandshakeEvent;
use crate::email::opt_chars;
use crate::text::{chars_of, has_prefix, string_of, sub_chars};

verus! {

/// The deep-link handler.
pub struct Deeplink;

impl Deeplink {
    /// Creates the handler.
    pub fn init() -> (r: Self)
        ensures
            r == Deeplink,
    {
        Deeplink
    }
}

/// A deep link as received: scheme, path, decoded query pairs in order, and
/// the whole URL as text.
#[derive(Debug, Clone, PartialEq, Eq)]
pub struct DeepLinkUrl {
    pub scheme: String,
    pub path: String,
    pub query: Vec<(String, String)>,
    pub text: String,
}

/// The application's own scheme.
pub open spec fn own_scheme() -> Seq<char> {
    "telegramail"@
}

/// `s` without leading and trailing `c` (`str::trim_matches` with a character).
pub open spec fn trim_char_start(s: Seq<char>, c: char) -> Seq<char>
    decreases s.len(),
{
    if s.len() > 0 && s[0] == c {
        trim_char_start(s.skip(1), c)
    } else {
        s
    }
}

/// `s` without trailing `c`.
pub open spec fn trim_char_end(s: Seq<char>, c: char) -> Seq<char>
    decreases s.len(),
{
    if s.len() > 0 && s.last() == c {
        trim_char_end(s.drop_last(), c)
    } else {
        s
    }
}

/// `s` without `c` at either end.
pub open spec fn trim_char(s: Seq<char>, c: char) -> Seq<char> {
    trim_char_end(trim_char_start(s, c), c)
}

/// The value of `key` in the query: the last pair with that key wins, as
/// when the pairs are collected into a map.
pub open spec fn query_value(pairs: Seq<(Seq<char>, Seq<char>)>, key: Seq<char>) -> Option<Seq<char>>
    decreases pairs.len(),
{
    if pairs.len() == 0 {
        None
    } else if pairs.last().0 == key {
        Some(pairs.last().1)
    } else {
        query_value(pairs.drop_last(), key)
    }
}

/// The query pairs as character sequences.
pub open spec fn pairs_view(q: Seq<(String, String)>) -> Seq<(Seq<char>, Seq<char>)> {
    q.map_values(|p: (String, String)| (p.0@, p.1@))
}

/// What a `telegramail://` link asks for.
#[derive(Debug, Clone, PartialEq, Eq)]
pub enum DeepLinkAction {
    /// A contact request: import `pgp_key` into the peer keyring (when given)
    /// under the sender's address, then report the handshake.
    Handshake { handshake: EmailHandshakeEvent, pgp_key: Option<String> },
    /// A handshake link without the `email` parameter.
    MissingEmail,
    /// A path other than `handshake`; the trimmed path is reported.
    UnknownPath(String),
}

/// `s` without leading and trailing `c`.
fn trim_char_chars(v: &Vec<char>, c: char) -> (r: Vec<char>)
    ensures
        r@ == trim_char(v@, c),
{
    let mut a: usize = 0;
    assert(v@.skip(0) =~= v@);
    while a < v.len() && v[a] == c
        invariant
            a <= v.len(),
            trim_char_start(v@, c) == trim_char_start(v@.skip(a as int), c),
        decreases v.len() - a,
    {
        assert(v@.skip(a as int).skip(1) =~= v@.skip(a + 1));
        a = a + 1;
    }
    let ghost t = v@.skip(a as int);
    let mut b: usize = v.len();
    assert(t.take(t.len() as int) =~= t);
    while b > a && v[b - 1] == c
        invariant
            a <= b <= v.len(),
            t == v@.skip(a as int),
            trim_char_end(t, c) == trim_char_end(t.take(b - a), c),
        decreases b,
    {
        assert(t.take(b - a).drop_last() =~= t.take(b - a - 1));
        b = b - 1;
    }
    assert(t.take(b - a) =~= v@.subrange(a as int, b as int));
    sub_chars(v, a, b)
}

/// Whether two strings are equal.
fn str_eq(a: &str, b: &str) -> (r: bool)
    ensures
        r == (a@ == b@),
{
    let x = chars_of(a);
    let y = chars_of(b);
    if x.len() != y.len() {
        return false;
    }
    let r = has_prefix(&x, &y);
    assert(r ==> x@ =~= y@) by {
        if r {
            assert(x@.take(y@.len() as int) =~= x@);
        }
    }
    assert(x@ == y@ ==> r) by {
        if x@ == y@ {
            assert(x@.take(y@.len() as int) =~= y@);
        }
    }
    r
}

/// The value of `key` in the query pairs (the last pair with that key).
fn query_get(query: &Vec<(String, String)>, key: &str) -> (r: Option<String>)
    ensures
        opt_chars(r) == query_value(pairs_view(query@), key@),
{
    let mut i = query.len();
    let ghost full = pairs_view(query@);
    assert(full.take(full.len() as int) =~= full);
    while i > 0
        invariant
            i <= query.len(),
            full == pairs_view(query@),
            query_value(full, key@) == query_value(full.take(i as int), key@),
        decreases i,
    {
        let ghost part = full.take(i as int);
        assert(part.last() == (query@[i - 1].0@, query@[i - 1].1@));
        if str_eq(query[i - 1].0.as_str(), key) {
            return Some(query[i - 1].1.clone());
        }
        assert(part.drop_last() =~= full.take(i - 1));
        i = i - 1;
    }
    assert(full.take(0) =~= Seq::<(Seq<char>, Seq<char>)>::empty());
    None
}

/// Decides what a `telegramail://` link asks for: on the path `handshake`
/// (slashes at either end ignored), a contact request from the `email`
/// parameter, with the optional `name` and `pgp` (armored key) parameters.
pub fn handle_telegramail_url(path: &str, query: &Vec<(String, String)>) -> (r: DeepLinkAction)
    ensures
        trim_char(path@, '/') != "handshake"@ ==> (r matches DeepLinkAction::UnknownPath(p) && p@
            == trim_char(path@, '/')),
        trim_char(path@, '/') == "handshake"@ ==> match query_value(pairs_view(query@), "email"@) {
            None => r == DeepLinkAction::MissingEmail,
            Some(from) => r matches DeepLinkAction::Handshake { handshake, pgp_key } && handshake.kind@
                == "request"@ && handshake.from@ == from && opt_chars(handshake.display_name)
                == query_value(pairs_view(query@), "name"@) && opt_chars(pgp_key) == query_value(
                pairs_view(query@),
                "pgp"@,
            ),
        },
{
    let p = trim_char_chars(&chars_of(path), '/');
    let hs = chars_of("handshake");
    let is_handshake = p.len() == hs.len() && has_prefix(&p, &hs);
    assert(is_handshake == (p@ == hs@)) by {
        if p.len() == hs.len() {
            assert(p@.take(hs@.len() as int) =~= p@);
        }
        if p@ == hs@ {
            assert(p@.take(hs@.len() as int) =~= hs@);
        }
    }
    if !is_handshake {
        return DeepLinkAction::UnknownPath(string_of(&p));
    }
    let from = match query_get(query, "email") {
        Some(e) => e,
        None => return DeepLinkAction::MissingEmail,
    };
    let display_name = query_get(query, "name");
    let pgp_key = query_get(query, "pgp");
    DeepLinkAction::Handshake {
        handshake: EmailHandshakeEvent { kind: "request".to_owned(), from, display_name },
        pgp_key,
    }
}

/// Whether a link has the application's own scheme.
pub fn is_own_scheme(url: &DeepLinkUrl) -> (b: bool)
    ensures
        b == (url.scheme@ == own_scheme()),
{
    str_eq(url.scheme.as_str(), "telegramail")
}

/// The URLs handed to the front end: all of them, as text, when at least one
/// has another scheme than the application's own; otherwise none.
pub fn forwarded_urls(urls: &Vec<DeepLinkUrl>) -> (r: Option<Vec<String>>)
    ensures
        (exists|i: int| 0 <= i < urls.len() && #[trigger] urls@[i].scheme@ != own_scheme()) <==> r is Some,
        r matches Some(v) ==> v.len() == urls.len() && forall|i: int|
            0 <= i < urls.len() ==> #[trigger] v@[i]@ == urls@[i].text@,
{
    let mut any_other = false;
    let mut texts: Vec<String> = Vec::new();
    let mut i: usize = 0;
    while i < urls.len()
        invariant
            i <= urls.len(),
            texts.len() == i,
            forall|j: int| 0 <= j < i ==> #[trigger] texts@[j]@ == urls@[j].text@,
            any_other == exists|j: int| 0 <= j < i && #[trigger] urls@[j].scheme@ != own_scheme(),
        decreases urls.len() - i,
    {
        if !is_own_scheme(&urls[i]) {
            any_other = true;
        }
        texts.push(urls[i].text.clone());
        i = i + 1;
    }
    if any_other {
        Some(texts)
    } else {
        None
    }
}

} // verus!
