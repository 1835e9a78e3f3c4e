//! Incoming mail: reading raw RFC 822 messages fetched over IMAP, choosing
//! which messages to fetch, and the reconnecting watcher.

use vstd::prelude::*;
use vstd::string::StringSliceAdditionalSpecFns;
use vstd::utf8::*;

use crate::email::events::{
    EmailErrorEvent, EmailHandshakeEvent, EmailMessageEvent, EmailStatus, EmailStatusEvent,
};
use crate::email::opt_chars;
use crate::email::pgp::{autocrypt_parse_result, parse_autocrypt_header};
use crate::text::{
    chars1, chars2, chars3, chars4, chars_of, contains, find, find_from, has_prefix_ci, lemma_find_bound, lines, replace_all,
    replace_chars, starts_with, starts_with_ci, trim_start, is_ws, decimal, push_decimal, strip_cr, string_of, sub_chars, trim, trim_chars, contains_chars,
};

verus! {

// ---------------------------------------------------------------------------
// Model of a raw message
// ---------------------------------------------------------------------------

/// `str::from_utf8`: the text encoded by `bytes`, if they are valid UTF-8.
#[verifier::external_body]
fn utf8_str(bytes: &[u8]) -> (r: Option<&str>)
    ensures
        r is Some <==> valid_utf8(bytes@),
        r matches Some(s) ==> s.spec_bytes() == bytes@,
{
    std::str::from_utf8(bytes).ok()
}

/// RFC 2822 header unfolding: a line break followed by a space or a tab
/// becomes a single space (`\r\n ` first, then `\r\n\t`, `\n `, `\n\t`).
pub open spec fn unfold(s: Seq<char>) -> Seq<char> {
    replace_all(
        replace_all(
            replace_all(replace_all(s, seq!['\r', '\n', ' '], seq![' ']), seq!['\r', '\n', '\t'], seq![' ']),
            seq!['\n', ' '],
            seq![' '],
        ),
        seq!['\n', '\t'],
        seq![' '],
    )
}

/// No `x` in `s` is directly followed by `y`.
pub open spec fn no_pair(s: Seq<char>, x: char, y: char) -> bool {
    forall|i: int| 0 <= i && i + 1 < s.len() ==> !(#[trigger] s[i] == x && s[i + 1] == y)
}

/// A match of `pat` at position `i` is found.
proof fn lemma_find_some(s: Seq<char>, pat: Seq<char>, i: int)
    requires
        0 <= i <= s.len(),
        starts_with(s.skip(i), pat),
    ensures
        find(s, pat) is Some,
    decreases i,
{
    if !starts_with(s, pat) {
        if i == 0 {
            assert(s.skip(0) =~= s);
        } else {
            assert(s.skip(1).skip(i - 1) =~= s.skip(i));
            lemma_find_some(s.skip(1), pat, i - 1);
        }
    }
}

/// A two-character pattern is absent exactly when no such pair occurs.
proof fn lemma_contains_pair(s: Seq<char>, x: char, y: char)
    ensures
        !contains(s, seq![x, y]) <==> no_pair(s, x, y),
{
    lemma_find_bound(s, seq![x, y]);
    if let Some(i) = find(s, seq![x, y]) {
        assert(s.skip(i).take(2) =~= seq![x, y]);
        assert(s[i] == s.skip(i)[0] && s[i + 1] == s.skip(i)[1]);
    }
    if !no_pair(s, x, y) {
        let i = choose|i: int| 0 <= i && i + 1 < s.len() && #[trigger] s[i] == x && s[i + 1] == y;
        assert(s.skip(i).take(2) =~= seq![x, y]);
        lemma_find_some(s, seq![x, y], i);
    }
}

/// Replacing matches of any pattern by a space creates no line break that
/// follows a line break.
proof fn lemma_replace_keeps_no_double_break(s: Seq<char>, pat: Seq<char>)
    requires
        pat.len() > 0,
        no_pair(s, '\n', '\n'),
    ensures
        no_pair(replace_all(s, pat, seq![' ']), '\n', '\n'),
    decreases s.len(),
{
    let out = replace_all(s, pat, seq![' ']);
    if s.len() > 0 {
        let k: int = if starts_with(s, pat) { pat.len() as int } else { 1 };
        let t = s.skip(k);
        assert(no_pair(t, '\n', '\n')) by {
            assert forall|i: int| 0 <= i && i + 1 < t.len() implies !(#[trigger] t[i] == '\n' && t[i
                + 1] == '\n') by {
                assert(t[i] == s[i + k] && t[i + 1] == s[i + k + 1]);
            }
        }
        lemma_replace_keeps_no_double_break(t, pat);
        let rest = replace_all(t, pat, seq![' ']);
        let h: Seq<char> = if starts_with(s, pat) { seq![' '] } else { seq![s[0]] };
        assert(out == h + rest);
        if rest.len() > 0 && h[0] == '\n' {
            reveal_with_fuel(replace_all, 2);
            assert(s[0] == '\n');
            if t.len() > 0 && pat.len() > 0 && starts_with(t, pat) {
                assert(rest[0] == ' ');
            } else {
                assert(rest[0] == t[0]);
                assert(t[0] == s[1]);
            }
        }
        assert forall|i: int| 0 <= i && i + 1 < out.len() implies !(#[trigger] out[i] == '\n' && out[i
            + 1] == '\n') by {
            if i >= 1 {
                assert(out[i] == rest[i - 1] && out[i + 1] == rest[i]);
            }
        }
    }
}

/// Replacing `\n` followed by some character by a space leaves no `\n`
/// followed by `d`, where `d` follows no line break in `s` or is that
/// character, provided no line break follows a line break in `s`.
proof fn lemma_replace_break_pair(s: Seq<char>, pat: Seq<char>, d: char)
    requires
        pat.len() == 2,
        pat[0] == '\n',
        d != '\n',
        no_pair(s, '\n', '\n'),
        pat[1] == d || no_pair(s, '\n', d),
    ensures
        no_pair(replace_all(s, pat, seq![' ']), '\n', d),
    decreases s.len(),
{
    let out = replace_all(s, pat, seq![' ']);
    if s.len() > 0 {
        let k: int = if starts_with(s, pat) { 2 } else { 1 };
        let t = s.skip(k);
        assert forall|i: int| 0 <= i && i + 1 < t.len() implies !(#[trigger] t[i] == '\n' && t[i
            + 1] == '\n') && (pat[1] == d || !(t[i] == '\n' && t[i + 1] == d)) by {
            assert(t[i] == s[i + k] && t[i + 1] == s[i + k + 1]);
        }
        lemma_replace_break_pair(t, pat, d);
        let rest = replace_all(t, pat, seq![' ']);
        let h: Seq<char> = if starts_with(s, pat) { seq![' '] } else { seq![s[0]] };
        assert(out == h + rest);
        if rest.len() > 0 && h[0] == '\n' {
            reveal_with_fuel(replace_all, 2);
            assert(s[0] == '\n');
            assert(t[0] == s[1]);
            if starts_with(t, pat) {
                assert(t.take(2)[0] == pat[0]);
                assert(false);
            } else {
                assert(rest[0] == t[0]);
                if pat[1] == d && s[1] == d {
                    assert(s.take(2) =~= pat);
                    assert(false);
                }
            }
        }
        assert forall|i: int| 0 <= i && i + 1 < out.len() implies !(#[trigger] out[i] == '\n' && out[i
            + 1] == d) by {
            if i >= 1 {
                assert(out[i] == rest[i - 1] && out[i + 1] == rest[i]);
            }
        }
    }
}

/// A text in which `pat` never matches is left unchanged by replacing it.
proof fn lemma_replace_absent(s: Seq<char>, pat: Seq<char>, rep: Seq<char>)
    requires
        pat.len() > 0,
        forall|i: int| 0 <= i <= s.len() ==> !starts_with(#[trigger] s.skip(i), pat),
    ensures
        replace_all(s, pat, rep) == s,
    decreases s.len(),
{
    if s.len() > 0 {
        assert(s.skip(0) =~= s);
        assert forall|i: int| 0 <= i <= s.skip(1).len() implies !starts_with(
            #[trigger] s.skip(1).skip(i),
            pat,
        ) by {
            assert(s.skip(1).skip(i) =~= s.skip(i + 1));
        }
        lemma_replace_absent(s.skip(1), pat, rep);
        assert(seq![s[0]] + s.skip(1) =~= s);
    }
}

/// A pattern whose characters at `j` and `j + 1` are a pair absent from `s`
/// never matches in `s`.
proof fn lemma_pattern_absent(s: Seq<char>, pat: Seq<char>, j: int)
    requires
        0 <= j && j + 1 < pat.len(),
        no_pair(s, pat[j], pat[j + 1]),
    ensures
        forall|i: int| 0 <= i <= s.len() ==> !starts_with(#[trigger] s.skip(i), pat),
{
    assert forall|i: int| 0 <= i <= s.len() implies !starts_with(#[trigger] s.skip(i), pat) by {
        if starts_with(s.skip(i), pat) {
            assert(s.skip(i).take(pat.len() as int)[j] == pat[j]);
            assert(s.skip(i).take(pat.len() as int)[j + 1] == pat[j + 1]);
            assert(s[i + j] == pat[j] && s[i + j + 1] == pat[j + 1]);
        }
    }
}

/// Law: in a header section without an empty line (no line break directly
/// after a line break), unfolding leaves no line break followed by a space or
/// a tab, and unfolding again changes nothing.
pub proof fn lemma_unfold_idempotent(raw: Seq<char>)
    requires
        !contains(raw, seq!['\n', '\n']),
    ensures
        !contains(unfold(raw), seq!['\n', ' ']),
        !contains(unfold(raw), seq!['\n', '\t']),
        unfold(unfold(raw)) == unfold(raw),
{
    let p1 = seq!['\r', '\n', ' '];
    let p2 = seq!['\r', '\n', '\t'];
    let p3 = seq!['\n', ' '];
    let p4 = seq!['\n', '\t'];
    lemma_contains_pair(raw, '\n', '\n');
    let a = replace_all(raw, p1, seq![' ']);
    lemma_replace_keeps_no_double_break(raw, p1);
    let b = replace_all(a, p2, seq![' ']);
    lemma_replace_keeps_no_double_break(a, p2);
    let c = replace_all(b, p3, seq![' ']);
    lemma_replace_keeps_no_double_break(b, p3);
    lemma_replace_break_pair(b, p3, ' ');
    let u = replace_all(c, p4, seq![' ']);
    assert(u == unfold(raw));
    lemma_replace_keeps_no_double_break(c, p4);
    lemma_replace_break_pair(c, p4, '\t');
    lemma_replace_break_pair(c, p4, ' ');
    lemma_contains_pair(u, '\n', ' ');
    lemma_contains_pair(u, '\n', '\t');
    lemma_pattern_absent(u, p1, 1);
    lemma_replace_absent(u, p1, seq![' ']);
    lemma_pattern_absent(u, p2, 1);
    lemma_replace_absent(u, p2, seq![' ']);
    lemma_pattern_absent(u, p3, 0);
    lemma_replace_absent(u, p3, seq![' ']);
    lemma_pattern_absent(u, p4, 0);
    lemma_replace_absent(u, p4, seq![' ']);
}

/// The header section and the trimmed body of a message: split at the first
/// blank line (`\r\n\r\n`, or else `\n\n`).
pub open spec fn split_message(s: Seq<char>) -> Option<(Seq<char>, Seq<char>)> {
    match find(s, seq!['\r', '\n', '\r', '\n']) {
        Some(p) => Some((s.take(p), trim(s.skip(p + 4)))),
        None => match find(s, seq!['\n', '\n']) {
            Some(p) => Some((s.take(p), trim(s.skip(p + 2)))),
            None => None,
        },
    }
}

/// `x` with a two-character white-space prefix trims like `x`.
proof fn lemma_trim_crlf_prefix(x: Seq<char>)
    ensures
        trim(seq!['\r', '\n'] + x) == trim(x),
{
    let t = seq!['\r', '\n'] + x;
    assert(is_ws('\r') && is_ws('\n'));
    assert(t.skip(1) =~= seq!['\n'] + x);
    assert((seq!['\n'] + x).skip(1) =~= x);
    assert(trim_start(t) == trim_start(seq!['\n'] + x));
    assert(trim_start(seq!['\n'] + x) == trim_start(x));
}

/// Law: the body of a message is everything after its first blank line
/// (`\r\n\r\n`), trimmed, however many blank lines the body itself holds.
/// For a header section `h` without a blank line and any body `b`, the
/// message `h + "\r\n\r\n" + b` splits into the body `trim(b)`, and into the
/// header section `h` itself unless `h` ends with a line break (which then
/// belongs to the blank line); a chat message read from it carries `trim(b)`
/// as its text.
pub proof fn lemma_body_is_everything_after_first_blank_line(h: Seq<char>, b: Seq<char>)
    requires
        !contains(h, seq!['\r', '\n', '\r', '\n']),
    ensures
        split_message(h + seq!['\r', '\n', '\r', '\n'] + b) matches Some((hs, body)) && body
            == trim(b) && (!(h.len() >= 2 && h[h.len() - 2] == '\r' && h[h.len() - 1] == '\n')
            ==> hs == h),
        classify_text(h + seq!['\r', '\n', '\r', '\n'] + b) matches IncomingView::Message {
            body,
            ..
        } ==> body == trim(b),
{
    let sep = seq!['\r', '\n', '\r', '\n'];
    let s = h + sep + b;
    let n = h.len() as int;
    let ends = n >= 2 && h[n - 2] == '\r' && h[n - 1] == '\n';
    let k = if ends { n - 2 } else { n };
    assert forall|j: int| 0 <= j < k implies !starts_with(#[trigger] s.skip(j), sep) by {
        if starts_with(s.skip(j), sep) {
            let w = s.skip(j).take(4);
            assert(w == sep);
            assert(w[0] == s[j] && w[1] == s[j + 1] && w[2] == s[j + 2] && w[3] == s[j + 3]);
            if j + 4 <= n {
                assert(h.skip(j).take(4) =~= w);
                lemma_find_some(h, sep, j);
            } else if j == n - 1 {
                assert(s[j + 1] == sep[0]);
            } else if j == n - 2 {
                assert(s[j] == h[n - 2] && s[j + 1] == h[n - 1]);
            } else {
                assert(s[j + 3] == sep[0]);
            }
        }
    }
    assert(s.skip(k).take(4) =~= sep) by {
        if ends {
            assert(s.skip(k).take(4)[0] == h[n - 2]);
            assert(s.skip(k).take(4)[1] == h[n - 1]);
        }
    }
    crate::text::lemma_find_at(s, sep, k);
    if ends {
        assert(s.skip(k + 4) =~= seq!['\r', '\n'] + b);
        lemma_trim_crlf_prefix(b);
    } else {
        assert(s.skip(k + 4) =~= b);
        assert(s.take(k) =~= h);
    }
}

/// The value of the first header line that starts with `needle`, ignoring
/// ASCII case, trimmed.
pub open spec fn first_header_line(ls: Seq<Seq<char>>, needle: Seq<char>) -> Option<Seq<char>>
    decreases ls.len(),
{
    if ls.len() == 0 {
        None
    } else if starts_with_ci(ls[0], needle) {
        Some(trim(ls[0].skip(needle.len() as int)))
    } else {
        first_header_line(ls.skip(1), needle)
    }
}

/// The value of header `name` in the (unfolded) header section `h`.
pub open spec fn header_value(h: Seq<char>, name: Seq<char>) -> Option<Seq<char>> {
    first_header_line(lines(h), name.push(':'))
}

/// Taking the address out of `Display Name <addr@host>` slices between the
/// first `<` and the first `>`; that slice does not exist when `>` comes first.
pub open spec fn extract_email_panics(v: Seq<char>) -> bool {
    match (find(v, seq!['<']), find(v, seq!['>'])) {
        (Some(a), Some(b)) => b < a + 1,
        _ => false,
    }
}

/// The address inside `Display Name <addr@host>`, or the whole value trimmed.
pub open spec fn extract_email(v: Seq<char>) -> Seq<char> {
    match (find(v, seq!['<']), find(v, seq!['>'])) {
        (Some(a), Some(b)) => trim(v.subrange(a + 1, b)),
        _ => trim(v),
    }
}

/// What a fetched message is, for the application.
pub ghost enum IncomingView {
    Ignored,
    Handshake {
        kind: Seq<char>,
        from: Seq<char>,
        display_name: Option<Seq<char>>,
        autocrypt: Option<Seq<char>>,
    },
    Message {
        from: Seq<char>,
        body: Seq<char>,
        telegram_ref: Option<Seq<char>>,
        message_id: Seq<char>,
        chat_group_name: Option<Seq<char>>,
        in_reply_to: Option<Seq<char>>,
        autocrypt: Option<Seq<char>>,
        encrypted: bool,
    },
}

/// The armor line that marks an OpenPGP message.
pub open spec fn pgp_marker() -> Seq<char> {
    "-----BEGIN PGP MESSAGE-----"@
}

/// The reading of a decoded message.
pub open spec fn classify_text(s: Seq<char>) -> IncomingView {
    match split_message(s) {
        None => IncomingView::Ignored,
        Some((hs, body)) => {
            let h = unfold(hs);
            if !contains(h, "Chat-Version:"@) {
                IncomingView::Ignored
            } else {
                match header_value(h, "From"@) {
                    None => IncomingView::Ignored,
                    Some(f) => {
                        let from = extract_email(f);
                        let autocrypt = header_value(h, "Autocrypt"@);
                        match header_value(h, "X-Telegramail-Handshake"@) {
                            Some(kind) => IncomingView::Handshake {
                                kind,
                                from,
                                display_name: header_value(h, "X-Telegramail-Display-Name"@),
                                autocrypt,
                            },
                            None => IncomingView::Message {
                                from,
                                body,
                                telegram_ref: header_value(h, "X-TgAir-Telegram-Ref"@),
                                message_id: match header_value(h, "Message-ID"@) {
                                    Some(m) => m,
                                    None => Seq::empty(),
                                },
                                chat_group_name: header_value(h, "Chat-Group-Name"@),
                                in_reply_to: header_value(h, "In-Reply-To"@),
                                autocrypt,
                                encrypted: contains(body, pgp_marker()),
                            },
                        }
                    },
                }
            }
        },
    }
}

/// Reading the decoded message `s` reaches a `From` value whose `>` precedes its `<`.
pub open spec fn text_panics(s: Seq<char>) -> bool {
    match split_message(s) {
        None => false,
        Some((hs, _)) => {
            let h = unfold(hs);
            contains(h, "Chat-Version:"@) && match header_value(h, "From"@) {
                Some(f) => extract_email_panics(f),
                None => false,
            }
        },
    }
}

/// The reading of raw message bytes: text that is not UTF-8 is ignored.
pub open spec fn classify_bytes(raw: Seq<u8>) -> IncomingView {
    if valid_utf8(raw) {
        classify_text(decode_utf8(raw))
    } else {
        IncomingView::Ignored
    }
}

/// Reading the raw message cannot take its `From` address apart.
pub open spec fn incoming_panics(raw: Seq<u8>) -> bool {
    valid_utf8(raw) && text_panics(decode_utf8(raw))
}

/// What a fetched message is: ignored, a contact handshake, or a chat
/// message whose body may still need decrypting.
#[derive(Debug, Clone, PartialEq, Eq)]
pub enum IncomingMail {
    Ignored,
    Handshake { handshake: EmailHandshakeEvent, autocrypt: Option<String> },
    /// `message.text` holds the trimmed body as received.
    Message { message: EmailMessageEvent, encrypted: bool },
}

impl View for IncomingMail {
    type V = IncomingView;

    open spec fn view(&self) -> IncomingView {
        match self {
            IncomingMail::Ignored => IncomingView::Ignored,
            IncomingMail::Handshake { handshake, autocrypt } => IncomingView::Handshake {
                kind: handshake.kind@,
                from: handshake.from@,
                display_name: opt_chars(handshake.display_name),
                autocrypt: opt_chars(*autocrypt),
            },
            IncomingMail::Message { message, encrypted } => IncomingView::Message {
                from: message.from@,
                body: message.text@,
                telegram_ref: opt_chars(message.telegram_ref),
                message_id: message.message_id@,
                chat_group_name: opt_chars(message.chat_group_name),
                in_reply_to: opt_chars(message.in_reply_to),
                autocrypt: opt_chars(message.autocrypt),
                encrypted: *encrypted,
            },
        }
    }
}

// ---------------------------------------------------------------------------
// Executable reading
// ---------------------------------------------------------------------------

/// The characters of an optional character vector.
pub open spec fn opt_vec(o: Option<Vec<char>>) -> Option<Seq<char>> {
    match o {
        Some(v) => Some(v@),
        None => None,
    }
}

/// Unfolds RFC 2822 header continuations (CRLF + white space becomes one space).
pub fn unfold_headers(raw: &str) -> (r: String)
    ensures
        r@ == unfold(raw@),
{
    string_of(&unfold_chars(&chars_of(raw)))
}

/// Computes `unfold`.
fn unfold_chars(raw: &Vec<char>) -> (r: Vec<char>)
    ensures
        r@ == unfold(raw@),
{
    let sp = chars1(' ');
    let a = replace_chars(raw, &chars3('\r', '\n', ' '), &sp);
    let b = replace_chars(&a, &chars3('\r', '\n', '\t'), &sp);
    let c = replace_chars(&b, &chars2('\n', ' '), &sp);
    replace_chars(&c, &chars2('\n', '\t'), &sp)
}

/// The value of the first header line of `h` that starts with `needle`.
fn first_header(h: &Vec<char>, needle: &Vec<char>) -> (r: Option<Vec<char>>)
    ensures
        opt_vec(r) == first_header_line(lines(h@), needle@),
{
    let nl = chars1('\n');
    let mut pos: usize = 0;
    assert(h@.skip(0) =~= h@);
    loop
        invariant
            pos <= h.len(),
            nl@ == seq!['\n'],
            first_header_line(lines(h@), needle@) == first_header_line(
                lines(h@.skip(pos as int)),
                needle@,
            ),
        decreases h.len() - pos,
    {
        let ghost t = h@.skip(pos as int);
        if pos == h.len() {
            assert(t.len() == 0);
            return None;
        }
        let found = find_from(h, &nl, pos);
        let line;
        let next;
        match found {
            Some(e) => {
                proof {
                    lemma_find_bound(t, nl@);
                }
                let mut end = e;
                if end > pos && h[end - 1] == '\r' {
                    end = end - 1;
                }
                assert(strip_cr(t.take(e - pos)) =~= h@.subrange(pos as int, end as int));
                assert(t.skip(e - pos + 1) =~= h@.skip(e + 1));
                line = sub_chars(h, pos, end);
                next = Some(e + 1);
            },
            None => {
                assert(t =~= h@.subrange(pos as int, h.len() as int));
                line = sub_chars(h, pos, h.len());
                next = None;
            },
        }
        assert(lines(t).len() > 0 && lines(t)[0] == line@);
        if has_prefix_ci(&line, needle) {
            let rest = sub_chars(&line, needle.len(), line.len());
            assert(rest@ =~= line@.skip(needle.len() as int));
            return Some(trim_chars(&rest));
        }
        match next {
            None => {
                assert(lines(t).skip(1) =~= Seq::<Seq<char>>::empty());
                assert(first_header_line(Seq::<Seq<char>>::empty(), needle@) is None);
                return None;
            },
            Some(n) => {
                assert(lines(t).skip(1) =~= lines(h@.skip(n as int)));
                pos = n;
            },
        }
    }
}

/// The value of header `name` in the header section `h`.
pub fn get_header(h: &Vec<char>, name: &str) -> (r: Option<Vec<char>>)
    ensures
        opt_vec(r) == header_value(h@, name@),
{
    let mut needle = chars_of(name);
    needle.push(':');
    first_header(h, &needle)
}

/// The string of an optional character vector.
fn opt_string(o: &Option<Vec<char>>) -> (r: Option<String>)
    ensures
        opt_chars(r) == opt_vec(*o),
{
    match o {
        Some(v) => Some(string_of(v)),
        None => None,
    }
}

/// Splits a message into its header section and its trimmed body.
fn split_message_chars(s: &Vec<char>) -> (r: Option<(Vec<char>, Vec<char>)>)
    ensures
        match r {
            Some((h, b)) => split_message(s@) == Some((h@, b@)),
            None => split_message(s@) is None,
        },
{
    assert(s@.skip(0) =~= s@);
    match find_from(s, &chars4('\r', '\n', '\r', '\n'), 0) {
        Some(p) => {
            proof {
                lemma_find_bound(s@, seq!['\r', '\n', '\r', '\n']);
            }
            let h = sub_chars(s, 0, p);
            let rest = sub_chars(s, p + 4, s.len());
            assert(h@ =~= s@.take(p as int));
            assert(rest@ =~= s@.skip(p + 4));
            Some((h, trim_chars(&rest)))
        },
        None => match find_from(s, &chars2('\n', '\n'), 0) {
            Some(p) => {
                proof {
                    lemma_find_bound(s@, seq!['\n', '\n']);
                }
                let h = sub_chars(s, 0, p);
                let rest = sub_chars(s, p + 2, s.len());
                assert(h@ =~= s@.take(p as int));
                assert(rest@ =~= s@.skip(p + 2));
                Some((h, trim_chars(&rest)))
            },
            None => None,
        },
    }
}

/// The address inside `Display Name <addr@host>`; `None` where `>` comes
/// before `<`, so that the slice between them does not exist.
pub fn extract_email_chars(v: &Vec<char>) -> (r: Option<Vec<char>>)
    ensures
        r is None <==> extract_email_panics(v@),
        r matches Some(x) ==> x@ == extract_email(v@),
{
    assert(v@.skip(0) =~= v@);
    let lt = find_from(v, &chars1('<'), 0);
    let gt = find_from(v, &chars1('>'), 0);
    proof {
        lemma_find_bound(v@, seq!['<']);
        lemma_find_bound(v@, seq!['>']);
    }
    match (lt, gt) {
        (Some(a), Some(b)) => {
            if b < a + 1 {
                None
            } else {
                let inner = sub_chars(v, a + 1, b);
                Some(trim_chars(&inner))
            }
        },
        _ => Some(trim_chars(v)),
    }
}

/// Reads a decoded message; `None` exactly where taking the sender address
/// apart is impossible.
fn read_text(s: &Vec<char>) -> (r: Option<IncomingMail>)
    ensures
        r is None <==> text_panics(s@),
        r matches Some(m) ==> m@ == classify_text(s@),
{
    let (hs, body) = match split_message_chars(s) {
        Some(p) => p,
        None => return Some(IncomingMail::Ignored),
    };
    let h = unfold_chars(&hs);
    if !contains_chars(&h, &chars_of("Chat-Version:")) {
        return Some(IncomingMail::Ignored);
    }
    let from_raw = match get_header(&h, "From") {
        Some(f) => f,
        None => return Some(IncomingMail::Ignored),
    };
    let from = match extract_email_chars(&from_raw) {
        Some(f) => f,
        None => return None,
    };
    let autocrypt = get_header(&h, "Autocrypt");
    if let Some(kind) = get_header(&h, "X-Telegramail-Handshake") {
        let display_name = get_header(&h, "X-Telegramail-Display-Name");
        let handshake = EmailHandshakeEvent {
            kind: string_of(&kind),
            from: string_of(&from),
            display_name: opt_string(&display_name),
        };
        return Some(IncomingMail::Handshake { handshake, autocrypt: opt_string(&autocrypt) });
    }
    let message_id = match get_header(&h, "Message-ID") {
        Some(m) => string_of(&m),
        None => String::new(),
    };
    let chat_group_name = get_header(&h, "Chat-Group-Name");
    let in_reply_to = get_header(&h, "In-Reply-To");
    let telegram_ref = get_header(&h, "X-TgAir-Telegram-Ref");
    let encrypted = contains_chars(&body, &chars_of("-----BEGIN PGP MESSAGE-----"));
    let message = EmailMessageEvent {
        from: string_of(&from),
        text: string_of(&body),
        telegram_ref: opt_string(&telegram_ref),
        message_id,
        chat_group_name: opt_string(&chat_group_name),
        in_reply_to: opt_string(&in_reply_to),
        autocrypt: opt_string(&autocrypt),
    };
    Some(IncomingMail::Message { message, encrypted })
}

/// Decodes raw message bytes as UTF-8 text.
fn decode_raw(raw: &[u8]) -> (r: Option<Vec<char>>)
    ensures
        r is Some <==> valid_utf8(raw@),
        r matches Some(v) ==> v@ == decode_utf8(raw@),
{
    match utf8_str(raw) {
        Some(text) => {
            proof {
                encode_utf8_decode_utf8(text@);
            }
            Some(chars_of(text))
        },
        None => None,
    }
}

/// Reads a message fetched over IMAP: which event it carries, if any.
///
/// Text that is not UTF-8, that has no blank line after its headers, whose
/// headers lack `Chat-Version:` or a `From` header is ignored. A message with
/// an `X-Telegramail-Handshake` header is a contact handshake; any other is a
/// chat message, marked encrypted when its body holds an OpenPGP armor line.
pub fn parse_incoming(raw: &[u8]) -> (r: IncomingMail)
    requires
        !incoming_panics(raw@),
    ensures
        r@ == classify_bytes(raw@),
{
    match decode_raw(raw) {
        Some(v) => match read_text(&v) {
            Some(m) => m,
            None => IncomingMail::Ignored,
        },
        None => IncomingMail::Ignored,
    }
}

/// Whether reading the message would have to take apart a `From` value whose
/// `>` precedes its `<`, which has no address between them.
pub fn incoming_would_panic(raw: &[u8]) -> (b: bool)
    ensures
        b == incoming_panics(raw@),
{
    match decode_raw(raw) {
        Some(v) => read_text(&v).is_none(),
        None => false,
    }
}

/// The `Autocrypt:` value a fetched message carries, if any.
pub open spec fn incoming_autocrypt(v: IncomingView) -> Option<Seq<char>> {
    match v {
        IncomingView::Ignored => None,
        IncomingView::Handshake { autocrypt, .. } => autocrypt,
        IncomingView::Message { autocrypt, .. } => autocrypt,
    }
}

/// The peer key a fetched message offers for the keyring: the address and
/// re-armored key of its `Autocrypt:` header, when it has one that reads.
pub fn offered_peer_key(incoming: &IncomingMail) -> (r: Option<(String, String)>)
    ensures
        match incoming_autocrypt(incoming@) {
            None => r is None,
            Some(a) => match autocrypt_parse_result(a) {
                Ok((addr, key)) => r matches Some((x, k)) && x@ == addr && k@ == key,
                Err(_) => r is None,
            },
        },
{
    let autocrypt = match incoming {
        IncomingMail::Ignored => return None,
        IncomingMail::Handshake { autocrypt, .. } => autocrypt,
        IncomingMail::Message { message, .. } => &message.autocrypt,
    };
    match autocrypt {
        Some(a) => match parse_autocrypt_header(a.as_str()) {
            Ok(v) => Some(v),
            Err(_) => None,
        },
        None => None,
    }
}

/// The event that reports the connection status (with an error while reconnecting).
pub fn status_event(status: EmailStatus, error: Option<String>) -> (e: EmailStatusEvent)
    ensures
        e.status == status,
        e.error == error,
{
    EmailStatusEvent { status, error }
}

/// The event that reports a recoverable error.
pub fn error_event(message: String) -> (e: EmailErrorEvent)
    ensures
        e.message == message,
{
    EmailErrorEvent { message }
}

/// The text of a chat message: the decrypted text, or the body as received
/// when decryption failed.
pub fn decrypted_or_body(decrypted: Result<String, String>, body: String) -> (r: String)
    ensures
        match decrypted {
            Ok(t) => r@ == t@,
            Err(_) => r@ == body@,
        },
{
    match decrypted {
        Ok(t) => t,
        Err(_) => body,
    }
}

// ---------------------------------------------------------------------------
// Choosing which unseen messages to fetch
// ---------------------------------------------------------------------------

/// The most unseen messages fetched in one pass.
pub const MAX_FETCH: usize = 50;

/// `s` is in non-increasing order.
pub open spec fn sorted_desc(s: Seq<u32>) -> bool {
    forall|i: int, j: int| 0 <= i < j < s.len() ==> s[i] >= s[j]
}

/// The smaller of two lengths.
pub open spec fn min_len(a: nat, b: nat) -> nat {
    if a <= b {
        a
    } else {
        b
    }
}

/// `r` is the `MAX_FETCH` highest of `uids` (all of them if fewer), highest
/// first: what sorting, reversing and taking the first `MAX_FETCH` yields.
pub open spec fn highest_uids(uids: Seq<u32>, r: Seq<u32>) -> bool {
    &&& r.len() == min_len(uids.len(), MAX_FETCH as nat)
    &&& sorted_desc(r)
    &&& forall|x: u32| r.to_multiset().count(x) <= uids.to_multiset().count(x)
    &&& forall|x: u32| #[trigger]
        r.to_multiset().count(x) < uids.to_multiset().count(x) ==> x <= r.last()
}

/// The index of a largest element of a non-empty vector.
fn index_of_max(v: &Vec<u32>) -> (m: usize)
    requires
        v.len() > 0,
    ensures
        m < v.len(),
        forall|j: int| 0 <= j < v.len() ==> v@[j] <= v@[m as int],
{
    let mut m: usize = 0;
    let mut i: usize = 1;
    while i < v.len()
        invariant
            v.len() > 0,
            m < i <= v.len(),
            forall|j: int| 0 <= j < i ==> v@[j] <= v@[m as int],
        decreases v.len() - i,
    {
        if v[i] > v[m] {
            m = i;
        }
        i = i + 1;
    }
    m
}

/// Limits the unseen UIDs to the `MAX_FETCH` highest (most recent), highest
/// first, so that a first connection does not download the whole mailbox.
pub fn select_uids_to_fetch(uids: &Vec<u32>) -> (r: Vec<u32>)
    ensures
        highest_uids(uids@, r@),
{
    broadcast use vstd::seq_lib::group_to_multiset_ensures;

    let mut rest: Vec<u32> = Vec::new();
    let mut k: usize = 0;
    while k < uids.len()
        invariant
            k <= uids.len(),
            rest@ == uids@.take(k as int),
        decreases uids.len() - k,
    {
        rest.push(uids[k]);
        assert(uids@.take(k + 1) =~= uids@.take(k as int).push(uids@[k as int]));
        k = k + 1;
    }
    assert(uids@.take(uids.len() as int) =~= uids@);
    let mut out: Vec<u32> = Vec::new();
    assert(out@.to_multiset().add(rest@.to_multiset()) =~= uids@.to_multiset());
    while out.len() < MAX_FETCH && rest.len() > 0
        invariant
            out.len() <= MAX_FETCH,
            out.len() + rest.len() == uids.len(),
            out@.to_multiset().add(rest@.to_multiset()) == uids@.to_multiset(),
            sorted_desc(out@),
            forall|i: int, j: int| 0 <= i < out.len() && 0 <= j < rest.len() ==> out@[i] >= rest@[j],
        decreases rest.len(),
    {
        let m = index_of_max(&rest);
        let ghost before = rest@;
        let ghost out_before = out@;
        let x = rest.remove(m);
        proof {
            before.to_multiset_ensures();
            out_before.to_multiset_ensures();
        }
        assert(before[m as int] == x);
        assert(before.contains(x));
        assert(before.to_multiset().count(x) > 0);
        assert(rest@ == before.remove(m as int));
        assert(rest@.to_multiset() =~= before.to_multiset().remove(x));
        out.push(x);
        assert(out@ == out_before.push(x));
        assert(out@.to_multiset() =~= out_before.to_multiset().insert(x));
        assert(out@.to_multiset().add(rest@.to_multiset()) =~= uids@.to_multiset());
        assert forall|i: int, j: int| 0 <= i < out.len() && 0 <= j < rest.len() implies out@[i]
            >= rest@[j] by {
            if j < m {
                assert(rest@[j] == before[j]);
            } else {
                assert(rest@[j] == before[j + 1]);
            }
        }
        assert forall|i: int, j: int| 0 <= i < j < out.len() implies out@[i] >= out@[j] by {
            if j == out.len() - 1 && i < j {
                assert(out@[i] == out_before[i]);
                assert(out_before[i] >= before[m as int]);
            }
        }
    }
    assert forall|x: u32| out@.to_multiset().count(x) <= uids@.to_multiset().count(x) by {}
    assert forall|x: u32| #[trigger]
        out@.to_multiset().count(x) < uids@.to_multiset().count(x) implies x <= out@.last() by {
        assert(rest@.to_multiset().count(x) > 0);
        assert(rest@.contains(x));
        let j = choose|j: int| 0 <= j < rest.len() && rest@[j] == x;
        assert(out.len() > 0) by {
            if out.len() == 0 {
                assert(rest.len() == uids.len());
            }
        }
    }
    out
}

/// The IMAP sequence set for the given UIDs: decimal numbers joined by commas.
pub open spec fn uid_list(ns: Seq<u32>) -> Seq<char>
    decreases ns.len(),
{
    if ns.len() == 0 {
        seq![]
    } else if ns.len() == 1 {
        decimal(ns[0] as nat)
    } else {
        uid_list(ns.drop_last()) + seq![','] + decimal(ns.last() as nat)
    }
}

/// Writes the IMAP sequence set for `uids` (as `join(",")` of their decimals).
pub fn uid_set(uids: &Vec<u32>) -> (r: String)
    ensures
        r@ == uid_list(uids@),
{
    let mut out: Vec<char> = Vec::new();
    let mut i: usize = 0;
    assert(uids@.take(0) =~= Seq::<u32>::empty());
    while i < uids.len()
        invariant
            i <= uids.len(),
            out@ == uid_list(uids@.take(i as int)),
        decreases uids.len() - i,
    {
        let ghost o = out@;
        assert(uids@.take(i + 1).drop_last() =~= uids@.take(i as int));
        if i > 0 {
            out.push(',');
        }
        push_decimal(&mut out, uids[i] as u64);
        if i > 0 {
            assert(out@ =~= o + seq![','] + decimal(uids@[i as int] as nat));
        } else {
            assert(out@ =~= decimal(uids@[0] as nat));
        }
        i = i + 1;
    }
    assert(uids@.take(uids.len() as int) =~= uids@);
    string_of(&out)
}

// ---------------------------------------------------------------------------
// The watcher: one running instance, reconnecting with exponential backoff
// ---------------------------------------------------------------------------

/// Seconds before the first reconnection attempt.
pub const INITIAL_BACKOFF_SECS: u64 = 5;

/// Longest wait between reconnection attempts, in seconds.
pub const MAX_BACKOFF_SECS: u64 = 300;

/// IDLE is re-issued after this many seconds (RFC 2177 asks for at most 29 minutes).
pub const IDLE_TIMEOUT_SECS: u64 = 1500;

/// The stop handle of the running watcher, if one runs.
pub struct WatchSlot<T> {
    pub sender: Option<T>,
}

impl<T> WatchSlot<T> {
    /// No watcher running.
    pub fn new() -> (r: Self)
        ensures
            r.sender is None,
    {
        WatchSlot { sender: None }
    }
}

/// Registers a new watcher unless one is already running; returns whether the
/// new watcher is to be spawned.
pub fn start<T>(slot: &mut WatchSlot<T>, sender: T) -> (started: bool)
    ensures
        started == (old(slot).sender is None),
        started ==> final(slot).sender == Some(sender),
        !started ==> final(slot).sender == old(slot).sender,
{
    if slot.sender.is_some() {
        return false;
    }
    slot.sender = Some(sender);
    true
}

/// Unregisters the running watcher; returns its stop handle, to be signalled.
pub fn stop<T>(slot: &mut WatchSlot<T>) -> (taken: Option<T>)
    ensures
        taken == old(slot).sender,
        final(slot).sender is None,
{
    slot.sender.take()
}

/// How an IDLE wait ended.
#[derive(Debug, Clone, Copy, PartialEq, Eq)]
pub enum IdleOutcome {
    NewData,
    Timeout,
    ManualInterrupt,
}

/// The session leaves its IDLE loop when a stop was requested or the wait was
/// interrupted on purpose.
pub fn idle_should_stop(stop_requested: bool, response: Option<IdleOutcome>) -> (b: bool)
    ensures
        b == (stop_requested || response == Some(IdleOutcome::ManualInterrupt)),
{
    stop_requested || match response {
        Some(IdleOutcome::ManualInterrupt) => true,
        _ => false,
    }
}

/// What happened since the watcher last decided.
#[derive(Debug, PartialEq, Eq)]
pub enum WatcherEvent {
    /// The stop flag, read at the top of the loop.
    StopFlag(bool),
    /// The IMAP session returned: cleanly, or with an error.
    SessionEnded(Result<(), String>),
    /// The backoff wait elapsed.
    SleepElapsed,
    /// A stop was signalled during the backoff wait.
    StopSignalled,
}

/// What the watcher does next.
#[derive(Debug, Clone, PartialEq, Eq)]
pub enum WatcherAction {
    /// Read the stop flag.
    CheckStop,
    /// Connect and watch the inbox.
    RunSession,
    /// Report `error` (status `Reconnecting` and an error event), then wait
    /// `wait_secs` seconds or until a stop is signalled.
    Reconnect { error: String, wait_secs: u64 },
    /// Report status `Disconnected`, unregister, and end.
    Finish,
}

/// The watcher's state: its current backoff and whether it has ended.
pub struct Watcher {
    backoff_secs: u64,
    finished: bool,
}

/// The backoff after one more failed attempt.
pub open spec fn next_backoff(b: nat) -> nat {
    if 2 * b <= MAX_BACKOFF_SECS {
        2 * b
    } else {
        MAX_BACKOFF_SECS as nat
    }
}

/// The backoff after `k` failed attempts in a row.
pub open spec fn backoff_after(k: nat) -> nat
    decreases k,
{
    if k == 0 {
        INITIAL_BACKOFF_SECS as nat
    } else {
        next_backoff(backoff_after((k - 1) as nat))
    }
}

/// `2^k`.
pub open spec fn pow2(k: nat) -> nat
    decreases k,
{
    if k == 0 {
        1
    } else {
        2 * pow2((k - 1) as nat)
    }
}

impl Watcher {
    /// The current backoff, in seconds.
    pub closed spec fn backoff(&self) -> nat {
        self.backoff_secs as nat
    }

    /// The watcher has ended.
    pub closed spec fn finished(&self) -> bool {
        self.finished
    }

    /// The backoff stays between its initial and its largest value.
    #[verifier::type_invariant]
    closed spec fn inv(&self) -> bool {
        INITIAL_BACKOFF_SECS <= self.backoff_secs <= MAX_BACKOFF_SECS
    }

    /// A watcher about to read its stop flag for the first time.
    pub fn new() -> (r: Self)
        ensures
            r.backoff() == INITIAL_BACKOFF_SECS,
            !r.finished(),
    {
        Watcher { backoff_secs: INITIAL_BACKOFF_SECS, finished: false }
    }

    /// Decides the next action from the event that just happened.
    pub fn step(&mut self, event: WatcherEvent) -> (action: WatcherAction)
        ensures
            INITIAL_BACKOFF_SECS <= final(self).backoff() <= MAX_BACKOFF_SECS,
            old(self).finished() ==> final(self).finished() && action == WatcherAction::Finish
                && final(self).backoff() == old(self).backoff(),
            !old(self).finished() ==> match event {
                WatcherEvent::StopFlag(true) => action == WatcherAction::Finish
                    && final(self).finished() && final(self).backoff() == old(self).backoff(),
                WatcherEvent::StopFlag(false) => action == WatcherAction::RunSession
                    && !final(self).finished() && final(self).backoff() == old(self).backoff(),
                WatcherEvent::SessionEnded(Ok(())) => action == WatcherAction::Finish
                    && final(self).finished() && final(self).backoff() == old(self).backoff(),
                WatcherEvent::SessionEnded(Err(e)) => (action matches WatcherAction::Reconnect {
                    error,
                    wait_secs,
                } && error@ == e@ && wait_secs == old(self).backoff()) && !final(self).finished()
                    && final(self).backoff() == old(self).backoff(),
                WatcherEvent::SleepElapsed => action == WatcherAction::CheckStop
                    && !final(self).finished()
                    && final(self).backoff() == next_backoff(old(self).backoff()),
                WatcherEvent::StopSignalled => action == WatcherAction::Finish
                    && final(self).finished() && final(self).backoff() == old(self).backoff(),
            },
    {
        proof {
            use_type_invariant(&*self);
        }
        let action = self.decide(event);
        proof {
            use_type_invariant(&*self);
        }
        action
    }

    /// The transition itself.
    fn decide(&mut self, event: WatcherEvent) -> (action: WatcherAction)
        requires
            INITIAL_BACKOFF_SECS <= old(self).backoff() <= MAX_BACKOFF_SECS,
        ensures
            old(self).finished() ==> final(self).finished() && action == WatcherAction::Finish
                && final(self).backoff() == old(self).backoff(),
            !old(self).finished() ==> match event {
                WatcherEvent::StopFlag(true) => action == WatcherAction::Finish
                    && final(self).finished() && final(self).backoff() == old(self).backoff(),
                WatcherEvent::StopFlag(false) => action == WatcherAction::RunSession
                    && !final(self).finished() && final(self).backoff() == old(self).backoff(),
                WatcherEvent::SessionEnded(Ok(())) => action == WatcherAction::Finish
                    && final(self).finished() && final(self).backoff() == old(self).backoff(),
                WatcherEvent::SessionEnded(Err(e)) => (action matches WatcherAction::Reconnect {
                    error,
                    wait_secs,
                } && error@ == e@ && wait_secs == old(self).backoff()) && !final(self).finished()
                    && final(self).backoff() == old(self).backoff(),
                WatcherEvent::SleepElapsed => action == WatcherAction::CheckStop
                    && !final(self).finished()
                    && final(self).backoff() == next_backoff(old(self).backoff()),
                WatcherEvent::StopSignalled => action == WatcherAction::Finish
                    && final(self).finished() && final(self).backoff() == old(self).backoff(),
            },
    {
        if self.finished {
            return WatcherAction::Finish;
        }
        match event {
            WatcherEvent::StopFlag(stop) => {
                if stop {
                    self.finished = true;
                    WatcherAction::Finish
                } else {
                    WatcherAction::RunSession
                }
            },
            WatcherEvent::SessionEnded(result) => match result {
                Ok(()) => {
                    self.finished = true;
                    WatcherAction::Finish
                },
                Err(e) => WatcherAction::Reconnect { error: e, wait_secs: self.backoff_secs },
            },
            WatcherEvent::SleepElapsed => {
                if self.backoff_secs <= MAX_BACKOFF_SECS / 2 {
                    self.backoff_secs = 2 * self.backoff_secs;
                } else {
                    self.backoff_secs = MAX_BACKOFF_SECS;
                }
                WatcherAction::CheckStop
            },
            WatcherEvent::StopSignalled => {
                self.finished = true;
                WatcherAction::Finish
            },
        }
    }
}

/// Law: after `k` failed attempts in a row the watcher waits
/// `min(5 * 2^k, 300)` seconds, never less than 5 and never more than 300.
pub proof fn lemma_backoff_doubles_up_to_max(k: nat)
    ensures
        backoff_after(k) == if INITIAL_BACKOFF_SECS * pow2(k) <= MAX_BACKOFF_SECS {
            INITIAL_BACKOFF_SECS * pow2(k)
        } else {
            MAX_BACKOFF_SECS as int
        },
        INITIAL_BACKOFF_SECS <= backoff_after(k) <= MAX_BACKOFF_SECS,
    decreases k,
{
    if k > 0 {
        lemma_backoff_doubles_up_to_max((k - 1) as nat);
        lemma_pow2_positive((k - 1) as nat);
    }
}

/// `2^k` is positive.
proof fn lemma_pow2_positive(k: nat)
    ensures
        pow2(k) >= 1,
    decreases k,
{
    if k > 0 {
        lemma_pow2_positive((k - 1) as nat);
    }
}

/// Law: the backoff never shrinks from one failed attempt to the next.
pub proof fn lemma_backoff_monotone(k: nat)
    ensures
        backoff_after(k) <= backoff_after(k + 1),
{
    lemma_backoff_doubles_up_to_max(k);
}

} // verus!
