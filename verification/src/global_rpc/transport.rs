//! Remote procedure calls to any node, carried by anonymous datagrams.
//!
//! A call sends its request and waits for the answer. When none comes in
//! time the request is sent again, and the wait doubles: 4 seconds after the
//! first send, then 8, 16, 32 and so on, for as long as the caller lets the
//! call run.
use crate::crypt::{Fingerprint, IdentitySecret};
use crate::packet::Dock;
use crate::socket::Endpoint;
use vstd::arithmetic::power2::{lemma2_to64, lemma2_to64_rest, lemma_pow2_unfold, pow2};
use vstd::prelude::*;
use vstd::utf8::{decode_utf8, valid_utf8};

verus! {

/// How long a call waits for the answer to its first send, in seconds.
pub const FIRST_TIMEOUT_SECS: u64 = 4;

/// The greatest number of resends after which the wait still fits in 64
/// bits.
pub const MAX_RETRIES: u32 = 61;

/// How many seconds a call waits for an answer after `retries` resends:
/// `FIRST_TIMEOUT_SECS` at first, and twice as long after each resend.
pub open spec fn timeout_after(retries: nat) -> nat
    decreases retries,
{
    if retries == 0 {
        FIRST_TIMEOUT_SECS as nat
    } else {
        2 * timeout_after((retries - 1) as nat)
    }
}

/// The waits grow, and up to `MAX_RETRIES` resends they fit in 64 bits.
pub proof fn lemma_timeout_bounds(retries: nat)
    ensures
        4 <= timeout_after(retries),
        retries <= MAX_RETRIES ==> timeout_after(retries) <= 0x8000_0000_0000_0000,
        retries < MAX_RETRIES ==> timeout_after(retries) <= 0x4000_0000_0000_0000,
{
    lemma_timeout_grows(0, retries);
    lemma_timeout_at_max();
    if retries <= MAX_RETRIES {
        lemma_timeout_grows(retries, MAX_RETRIES as nat);
    }
    if retries < MAX_RETRIES {
        lemma_timeout_grows(retries, (MAX_RETRIES - 1) as nat);
    }
}

/// A later wait is no shorter than an earlier one.
pub proof fn lemma_timeout_grows(a: nat, b: nat)
    requires
        a <= b,
    ensures
        timeout_after(a) <= timeout_after(b),
    decreases b,
{
    if a < b {
        lemma_timeout_grows(a, (b - 1) as nat);
    }
}

/// Each wait is four seconds times a power of two.
pub proof fn lemma_timeout_closed_form(retries: nat)
    ensures
        timeout_after(retries) == 4 * pow2(retries),
    decreases retries,
{
    if retries == 0 {
        lemma2_to64();
    } else {
        lemma_timeout_closed_form((retries - 1) as nat);
        lemma_pow2_unfold(retries);
    }
}

/// The wait after `MAX_RETRIES` resends.
proof fn lemma_timeout_at_max()
    ensures
        timeout_after(MAX_RETRIES as nat) == 0x8000_0000_0000_0000,
{
    lemma_timeout_closed_form(61);
    lemma2_to64_rest();
}

/// While no answer arrives, a call waits 4, 8, 16 and 32 seconds after its
/// first four sends, and every wait is twice the one before it.
pub proof fn law_retry_deadlines(retries: nat)
    ensures
        timeout_after(0) == 4,
        timeout_after(1) == 8,
        timeout_after(2) == 16,
        timeout_after(3) == 32,
        timeout_after(retries + 1) == 2 * timeout_after(retries),
{
    reveal_with_fuel(timeout_after, 5);
}

/// A transport for calls to the node `dest_fp`, made under an anonymous
/// identity.
pub struct GlobalRpcTransport {
    anon_isk: IdentitySecret,
    dest_fp: Fingerprint,
    rpc_dock: Dock,
}

/// What happened while a call was waiting.
#[derive(Clone, Debug, PartialEq, Eq)]
pub enum RpcEvent {
    /// A datagram arrived on the call's socket.
    Received(Vec<u8>),
    /// The socket failed.
    RecvFailed,
    /// The wait ended without a datagram.
    TimedOut,
}

/// What a call does next.
#[derive(Clone, Debug, PartialEq, Eq)]
pub enum RpcAction {
    /// Send the request to `to` on the call's socket, then wait up to
    /// `timeout_secs` seconds for a datagram.
    Send { to: Endpoint, timeout_secs: u64 },
    /// The call ends with this text as its answer.
    Answer(String),
    /// The call ends in failure: the datagram that came is not text.
    Garbled,
    /// The call ends in failure: the answer could not be received.
    Fail,
}

/// `String::from_utf8`: the text that the bytes encode in UTF-8, when they
/// encode one.
#[verifier::external_body]
fn string_from_utf8(bytes: Vec<u8>) -> (r: Option<String>)
    ensures
        r is Some <==> valid_utf8(bytes@),
        r matches Some(text) ==> text@ == decode_utf8(bytes@),
{
    String::from_utf8(bytes).ok()
}

/// One call in progress.
pub struct RpcCall {
    to: Endpoint,
    retries: u32,
    timeout_secs: u64,
}

impl GlobalRpcTransport {
    /// The identity under which calls are made.
    pub closed spec fn identity(&self) -> IdentitySecret {
        self.anon_isk
    }

    /// Where requests are sent: the dock for such calls on the node called.
    pub closed spec fn target(&self) -> Endpoint {
        Endpoint { fingerprint: self.dest_fp, dock: self.rpc_dock }
    }

    /// A transport for calls to `dest_fp`, which listens for them on
    /// `rpc_dock`, made under the identity `anon_isk`.
    pub fn new(anon_isk: IdentitySecret, dest_fp: Fingerprint, rpc_dock: Dock) -> (r:
        GlobalRpcTransport)
        ensures
            r.identity() == anon_isk,
            r.target() == (Endpoint { fingerprint: dest_fp, dock: rpc_dock }),
    {
        GlobalRpcTransport { anon_isk, dest_fp, rpc_dock }
    }

    /// The identity under which the socket of a call is bound.
    pub fn anon_isk(&self) -> (r: IdentitySecret)
        ensures
            r == self.identity(),
    {
        self.anon_isk
    }

    /// Where requests are sent.
    pub fn endpoint(&self) -> (r: Endpoint)
        ensures
            r == self.target(),
    {
        Endpoint::new(self.dest_fp, self.rpc_dock)
    }

    /// Begins a call: the request is to be sent, and the first wait is
    /// `FIRST_TIMEOUT_SECS`.
    pub fn call_raw(&self) -> (r: (RpcCall, RpcAction))
        ensures
            r.0.wf(),
            r.0.retries() == 0,
            r.0.target() == self.target(),
            r.1 == (RpcAction::Send { to: self.target(), timeout_secs: FIRST_TIMEOUT_SECS }),
    {
        let to = self.endpoint();
        (
            RpcCall { to, retries: 0, timeout_secs: FIRST_TIMEOUT_SECS },
            RpcAction::Send { to, timeout_secs: FIRST_TIMEOUT_SECS },
        )
    }
}

impl RpcCall {
    /// How often the request was sent again.
    pub closed spec fn retries(&self) -> nat {
        self.retries as nat
    }

    /// Where the request goes.
    pub closed spec fn target(&self) -> Endpoint {
        self.to
    }

    /// Well-formedness: the call keeps the wait that goes with its number
    /// of resends.
    pub closed spec fn wf(&self) -> bool {
        &&& self.retries <= MAX_RETRIES
        &&& self.timeout_secs == timeout_after(self.retries as nat)
    }

    /// Whether the request can be sent once more: after `MAX_RETRIES`
    /// resends the next wait would not fit in 64 bits.
    pub fn can_retry(&self) -> (r: bool)
        ensures
            r == (self.retries() < MAX_RETRIES),
    {
        self.retries < MAX_RETRIES
    }

    /// What the call does after `event`. A datagram that is text in UTF-8 is
    /// the answer; any other datagram, and a failure of the socket, end the
    /// call in failure. All three leave the call as it was. After a wait
    /// without a datagram the request is sent again to the same endpoint,
    /// and the wait is twice what it was.
    pub fn on_event(&mut self, event: RpcEvent) -> (r: RpcAction)
        requires
            old(self).wf(),
            event is TimedOut ==> old(self).retries() < MAX_RETRIES,
        ensures
            final(self).wf(),
            final(self).target() == old(self).target(),
            match event {
                RpcEvent::Received(bytes) => final(self).retries() == old(self).retries() && (
                if valid_utf8(bytes@) {
                    r matches RpcAction::Answer(text) && text@ == decode_utf8(bytes@)
                } else {
                    r == RpcAction::Garbled
                }),
                RpcEvent::RecvFailed => r == RpcAction::Fail && final(self).retries() == old(
                    self,
                ).retries(),
                RpcEvent::TimedOut => final(self).retries() == old(self).retries() + 1 && r == (
                RpcAction::Send {
                    to: old(self).target(),
                    timeout_secs: timeout_after(old(self).retries() + 1) as u64,
                }),
            },
    {
        match event {
            RpcEvent::Received(bytes) => match string_from_utf8(bytes) {
                Some(text) => RpcAction::Answer(text),
                None => RpcAction::Garbled,
            },
            RpcEvent::RecvFailed => RpcAction::Fail,
            RpcEvent::TimedOut => {
                proof {
                    lemma_timeout_bounds(self.retries as nat);
                }
                self.retries = self.retries + 1;
                self.timeout_secs = 2 * self.timeout_secs;
                RpcAction::Send { to: self.to, timeout_secs: self.timeout_secs }
            },
        }
    }
}

} // verus!
