//! Outgoing mail: the port probe that finds a working SMTP port, the TLS mode
//! of a port, and the outcome of a send.

use vstd::prelude::*;

use crate::email::{opt_chars, SmtpResult};
use crate::text::{chars_of, decimal, extend_str, push_decimal, string_of};

verus! {

/// Seconds allowed for connecting and for sending.
pub const CONNECT_TIMEOUT_SECS: u64 = 10;

/// The implicit-TLS SMTP port (SMTPS).
pub const SMTPS_PORT: u16 = 465;

/// The result of probing SMTP ports.
#[derive(Debug, Clone, PartialEq, Eq)]
pub struct SmtpCheckResult {
    pub ok: bool,
    pub error: Option<String>,
    pub port: Option<u16>,
    /// True when every port timed out, which points at blocking on the network level.
    pub all_ports_timed_out: bool,
}

/// The content of an `SmtpCheckResult`.
pub ghost struct CheckView {
    pub ok: bool,
    pub error: Option<Seq<char>>,
    pub port: Option<u16>,
    pub all_ports_timed_out: bool,
}

impl View for SmtpCheckResult {
    type V = CheckView;

    open spec fn view(&self) -> CheckView {
        CheckView {
            ok: self.ok,
            error: opt_chars(self.error),
            port: self.port,
            all_ports_timed_out: self.all_ports_timed_out,
        }
    }
}

/// A success on `port`.
pub open spec fn check_ok(port: u16) -> CheckView {
    CheckView { ok: true, error: None, port: Some(port), all_ports_timed_out: false }
}

/// A failure with `msg`.
pub open spec fn check_err(msg: Seq<char>) -> CheckView {
    CheckView { ok: false, error: Some(msg), port: None, all_ports_timed_out: false }
}

/// Every port timed out.
pub open spec fn check_all_timed_out() -> CheckView {
    CheckView {
        ok: false,
        error: Some("All ports timed out"@),
        port: None,
        all_ports_timed_out: true,
    }
}

impl SmtpCheckResult {
    /// Connected on `port`.
    pub fn ok(port: u16) -> (r: Self)
        ensures
            r@ == check_ok(port),
    {
        SmtpCheckResult { ok: true, error: None, port: Some(port), all_ports_timed_out: false }
    }

    /// Failed with `msg`.
    pub fn err(msg: &str) -> (r: Self)
        ensures
            r@ == check_err(msg@),
    {
        SmtpCheckResult {
            ok: false,
            error: Some(msg.to_owned()),
            port: None,
            all_ports_timed_out: false,
        }
    }

    /// Every port timed out.
    pub fn all_timed_out() -> (r: Self)
        ensures
            r@ == check_all_timed_out(),
    {
        SmtpCheckResult {
            ok: false,
            error: Some("All ports timed out".to_owned()),
            port: None,
            all_ports_timed_out: true,
        }
    }
}

// ---------------------------------------------------------------------------
// TLS mode
// ---------------------------------------------------------------------------

/// How TLS is used on an SMTP connection.
#[derive(Debug, Clone, Copy, PartialEq, Eq)]
pub enum TlsMode {
    /// TLS from the first byte (SMTPS).
    Wrapper,
    /// STARTTLS, required.
    Required,
}

/// Port 465 speaks TLS from the start; every other port must upgrade with STARTTLS.
pub fn tls_mode_for_port(port: u16) -> (m: TlsMode)
    ensures
        m == (if port == SMTPS_PORT {
            TlsMode::Wrapper
        } else {
            TlsMode::Required
        }),
{
    if port == SMTPS_PORT {
        TlsMode::Wrapper
    } else {
        TlsMode::Required
    }
}

// ---------------------------------------------------------------------------
// Sending
// ---------------------------------------------------------------------------

/// How a send attempt ended.
#[derive(Debug, Clone, PartialEq, Eq)]
pub enum SendOutcome {
    Sent,
    /// The transport reported an error, with its text.
    Failed(String),
    /// No answer within the timeout.
    TimedOut,
}

/// The command result of a send: success, the transport's error text, or
/// `timeout_message`.
pub fn send_result(outcome: SendOutcome, timeout_message: &str) -> (r: SmtpResult)
    ensures
        match outcome {
            SendOutcome::Sent => r.ok && r.error is None && r.data is None,
            SendOutcome::Failed(e) => !r.ok && opt_chars(r.error) == Some(e@) && r.data is None,
            SendOutcome::TimedOut => !r.ok && opt_chars(r.error) == Some(timeout_message@)
                && r.data is None,
        },
{
    match outcome {
        SendOutcome::Sent => SmtpResult::ok(),
        SendOutcome::Failed(e) => SmtpResult::err(e.as_str()),
        SendOutcome::TimedOut => SmtpResult::err(timeout_message),
    }
}

/// A message is encrypted only to someone else: mail to oneself is sent in
/// the clear, so no recipient key is looked up for it.
pub fn needs_recipient_key(to_email: &str, own_email: &str) -> (b: bool)
    ensures
        b == (to_email@ != own_email@),
{
    let a = chars_of(to_email);
    let b = chars_of(own_email);
    if a.len() != b.len() {
        return true;
    }
    let mut i: usize = 0;
    while i < a.len()
        invariant
            a@ == to_email@,
            b@ == own_email@,
            a.len() == b.len(),
            i <= a.len(),
            forall|j: int| 0 <= j < i ==> a@[j] == b@[j],
        decreases a.len() - i,
    {
        if a[i] != b[i] {
            assert(a@[i as int] != b@[i as int]);
            return true;
        }
        i = i + 1;
    }
    assert(a@ =~= b@);
    false
}

// ---------------------------------------------------------------------------
// The port probe
// ---------------------------------------------------------------------------

/// How the connection test on one port ended.
#[derive(Debug, Clone, PartialEq, Eq)]
pub enum ProbeOutcome {
    /// The transport could not be built (TLS set-up failed), with the message.
    TransportError(String),
    /// The server accepted the connection.
    Accepted,
    /// The server did not accept the connection.
    Rejected,
    /// The test failed with the given error text.
    Failed(String),
    /// No answer within the timeout.
    TimedOut,
}

/// What the probe asks for next.
#[derive(Debug, Clone, PartialEq, Eq)]
pub enum ProbeStep {
    /// Test the connection on this port.
    Try(u16),
    /// Save this port as the account's SMTP port, then report how that went.
    SavePort(u16),
    /// The probe is over.
    Done(SmtpCheckResult),
}

/// The error recorded for a port whose test did not succeed.
pub open spec fn outcome_error(port: u16, o: ProbeOutcome) -> Seq<char> {
    match o {
        ProbeOutcome::TransportError(e) => e@,
        ProbeOutcome::Rejected => "Port "@ + decimal(port as nat)
            + ": server did not accept the connection"@,
        ProbeOutcome::Failed(e) => "Port "@ + decimal(port as nat) + ": "@ + e@,
        ProbeOutcome::TimedOut => "Port "@ + decimal(port as nat) + ": connection timed out after "@
            + decimal(CONNECT_TIMEOUT_SECS as nat) + "s"@,
        ProbeOutcome::Accepted => Seq::empty(),
    }
}

/// The number of `true` entries.
pub open spec fn count_true(s: Seq<bool>) -> nat
    decreases s.len(),
{
    if s.len() == 0 {
        0
    } else {
        count_true(s.drop_last()) + if s.last() {
            1nat
        } else {
            0nat
        }
    }
}

/// The result after every port failed: all timed out, or the last error.
pub open spec fn final_check(timeouts: Seq<bool>, last_error: Seq<char>) -> CheckView {
    if count_true(timeouts) == timeouts.len() {
        check_all_timed_out()
    } else {
        check_err(last_error)
    }
}

/// What the probe has learnt so far.
struct Tally {
    next: usize,
    last_error: String,
    timed_out: usize,
    history: Ghost<Seq<bool>>,
}

/// Probes SMTP ports in order until one accepts; this lets the application
/// work where a VPN blocks some ports (e.g. 465).
pub struct PortProbe {
    ports: Vec<u16>,
    tally: Tally,
}

impl PortProbe {
    /// The ports to probe, in order.
    pub closed spec fn ports(&self) -> Seq<u16> {
        self.ports@
    }

    /// The index of the port under test.
    pub closed spec fn next(&self) -> nat {
        self.tally.next as nat
    }

    /// The error recorded last.
    pub closed spec fn last_error(&self) -> Seq<char> {
        self.tally.last_error@
    }

    /// For each port that failed so far, whether it timed out.
    pub closed spec fn timeouts(&self) -> Seq<bool> {
        self.tally.history@
    }

    /// The probe's bookkeeping is consistent.
    #[verifier::type_invariant]
    closed spec fn inv(&self) -> bool {
        &&& self.ports@.len() > 0
        &&& self.tally.next <= self.ports@.len()
        &&& self.tally.history@.len() == self.tally.next
        &&& self.tally.timed_out == count_true(self.tally.history@)
    }

    /// Starts probing `ports`; fails with "No ports provided" when there are none.
    pub fn start(ports: Vec<u16>) -> (r: Result<(PortProbe, ProbeStep), SmtpCheckResult>)
        ensures
            ports@.len() == 0 <==> r is Err,
            r matches Err(e) ==> e@ == check_err("No ports provided"@),
            r matches Ok((p, step)) ==> p.ports() == ports@ && p.next() == 0
                && p.timeouts() == Seq::<bool>::empty() && step == ProbeStep::Try(ports@[0]),
    {
        if ports.len() == 0 {
            return Err(SmtpCheckResult::err("No ports provided"));
        }
        let first = ports[0];
        let p = PortProbe {
            ports,
            tally: Tally {
                next: 0,
                last_error: String::new(),
                timed_out: 0,
                history: Ghost(Seq::empty()),
            },
        };
        Ok((p, ProbeStep::Try(first)))
    }

    /// Records the outcome of the test on the current port and decides what
    /// follows. Once every port has failed, the probe stays done.
    pub fn record(&mut self, outcome: ProbeOutcome) -> (step: ProbeStep)
        ensures
            final(self).ports() == old(self).ports(),
            old(self).next() >= old(self).ports().len() ==> final(self).next() == old(self).next(),
            old(self).next() >= old(self).ports().len()
                ==> final(self).timeouts() == old(self).timeouts(),
            old(self).next() >= old(self).ports().len() ==> (step matches ProbeStep::Done(res)
                && res@ == final_check(old(self).timeouts(), old(self).last_error())),
            old(self).next() < old(self).ports().len() ==> ({
                let port = old(self).ports()[old(self).next() as int];
                if outcome == ProbeOutcome::Accepted {
                    &&& step == ProbeStep::SavePort(port)
                    &&& final(self).next() == old(self).next()
                    &&& final(self).timeouts() == old(self).timeouts()
                } else {
                    let timeouts = old(self).timeouts().push(outcome == ProbeOutcome::TimedOut);
                    &&& final(self).next() == old(self).next() + 1
                    &&& final(self).timeouts() == timeouts
                    &&& final(self).last_error() == outcome_error(port, outcome)
                    &&& if final(self).next() < final(self).ports().len() {
                        step == ProbeStep::Try(final(self).ports()[final(self).next() as int])
                    } else {
                        step matches ProbeStep::Done(res) && res@ == final_check(
                            timeouts,
                            outcome_error(port, outcome),
                        )
                    }
                }
            }),
    {
        proof {
            use_type_invariant(&*self);
            lemma_count_true_all(self.tally.history@);
        }
        if self.tally.next >= self.ports.len() {
            return ProbeStep::Done(self.finish());
        }
        let port = self.ports[self.tally.next];
        let timed_out = match &outcome {
            ProbeOutcome::TimedOut => true,
            _ => false,
        };
        let msg: String = match outcome {
            ProbeOutcome::Accepted => {
                return ProbeStep::SavePort(port);
            },
            ProbeOutcome::TransportError(e) => e,
            ProbeOutcome::Rejected => {
                let mut v = chars_of("Port ");
                push_decimal(&mut v, port as u64);
                extend_str(&mut v, ": server did not accept the connection");
                string_of(&v)
            },
            ProbeOutcome::Failed(e) => {
                let mut v = chars_of("Port ");
                push_decimal(&mut v, port as u64);
                extend_str(&mut v, ": ");
                extend_str(&mut v, e.as_str());
                string_of(&v)
            },
            ProbeOutcome::TimedOut => {
                let mut v = chars_of("Port ");
                push_decimal(&mut v, port as u64);
                extend_str(&mut v, ": connection timed out after ");
                push_decimal(&mut v, CONNECT_TIMEOUT_SECS);
                extend_str(&mut v, "s");
                string_of(&v)
            },
        };
        let ghost h = self.tally.history@;
        let new_tally = Tally {
            next: self.tally.next + 1,
            last_error: msg,
            timed_out: if timed_out {
                self.tally.timed_out + 1
            } else {
                self.tally.timed_out
            },
            history: Ghost(h.push(timed_out)),
        };
        assert(new_tally.history@.drop_last() =~= h);
        self.tally = new_tally;
        if self.tally.next < self.ports.len() {
            ProbeStep::Try(self.ports[self.tally.next])
        } else {
            ProbeStep::Done(self.finish())
        }
    }

    /// The result once every port has failed.
    fn finish(&self) -> (r: SmtpCheckResult)
        ensures
            r@ == final_check(self.timeouts(), self.last_error()),
    {
        proof {
            use_type_invariant(self);
        }
        if self.tally.timed_out == self.tally.next {
            SmtpCheckResult::all_timed_out()
        } else {
            SmtpCheckResult::err(self.tally.last_error.as_str())
        }
    }
}

/// The result after saving the accepted port: success on that port, or the
/// failure to save it.
pub fn port_saved(port: u16, result: Result<(), String>) -> (r: SmtpCheckResult)
    ensures
        match result {
            Ok(()) => r@ == check_ok(port),
            Err(e) => r@ == check_err(
                "Connected on port "@ + decimal(port as nat) + " but failed to save port: "@ + e@,
            ),
        },
{
    match result {
        Ok(()) => SmtpCheckResult::ok(port),
        Err(e) => {
            let mut v = chars_of("Connected on port ");
            push_decimal(&mut v, port as u64);
            extend_str(&mut v, " but failed to save port: ");
            extend_str(&mut v, e.as_str());
            SmtpCheckResult::err(string_of(&v).as_str())
        },
    }
}

/// `count_true(s) == s.len()` exactly when every entry is `true`.
pub proof fn lemma_count_true_all(s: Seq<bool>)
    ensures
        count_true(s) <= s.len(),
        count_true(s) == s.len() <==> forall|i: int| 0 <= i < s.len() ==> #[trigger] s[i],
    decreases s.len(),
{
    if s.len() > 0 {
        lemma_count_true_all(s.drop_last());
        if count_true(s) == s.len() {
            assert forall|i: int| 0 <= i < s.len() implies #[trigger] s[i] by {
                if i < s.len() - 1 {
                    assert(s.drop_last()[i] == s[i]);
                }
            }
        }
        if forall|i: int| 0 <= i < s.len() ==> #[trigger] s[i] {
            assert forall|i: int| 0 <= i < s.drop_last().len() implies #[trigger] s.drop_last()[i] by {
                assert(s[i]);
            }
        }
    }
}

/// Law: when every port has failed, the probe reports "all ports timed out"
/// exactly when every one of them timed out; otherwise it reports the error
/// of the last port tried.
pub proof fn lemma_all_ports_timed_out(timeouts: Seq<bool>, last_error: Seq<char>)
    ensures
        final_check(timeouts, last_error).all_ports_timed_out <==> forall|i: int|
            0 <= i < timeouts.len() ==> #[trigger] timeouts[i],
        !final_check(timeouts, last_error).ok,
        !(forall|i: int| 0 <= i < timeouts.len() ==> #[trigger] timeouts[i]) ==> final_check(
            timeouts,
            last_error,
        ) == check_err(last_error),
{
    lemma_count_true_all(timeouts);
}

} // verus!
