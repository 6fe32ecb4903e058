//! Haven sockets: end-to-end encrypted sessions over anonymous datagrams,
//! reached through a rendezvous relay.
//!
//! A haven socket keeps at most one session for each remote endpoint. This
//! module holds its rules: which session a datagram belongs to, when a
//! session is made or given up, and how a server keeps itself registered at
//! its rendezvous relay. The sessions themselves, and the waiting, are the
//! caller's.
use crate::cache::CACHE_MAX_SECS;
use crate::channel::{channel_bounded, channel_try_recv};
use crate::crypt::{Fingerprint, IdentitySecret};
use crate::socket::{Endpoint, SocketSendError};
use moka::sync::Cache;
use smol::channel::{Receiver, Sender};
use std::time::Duration;
use vstd::prelude::*;

verus! {

/// How many sessions a haven socket keeps.
pub const CRYPT_SESSION_CAPACITY: u64 = 100_000;

/// How many seconds a session lives, used or not.
pub const CRYPT_SESSION_TTL_SECS: u64 = 1800;

/// How many decrypted datagrams wait for the socket's owner.
pub const INCOMING_BUFFER: usize = 1000;

/// How many seconds a registration at the rendezvous relay may take.
pub const REGISTER_TIMEOUT_SECS: u64 = 30;

/// How many seconds a server rests after a registration that failed.
pub const REGISTER_RETRY_SECS: u64 = 3;

/// How many seconds publishing the locator may take.
pub const PUBLISH_TIMEOUT_SECS: u64 = 30;

/// How many seconds a server rests after publishing its locator.
pub const REANNOUNCE_SECS: u64 = 5;

/// A message between the two ends of a haven session.
#[derive(Clone, Debug, PartialEq, Eq)]
pub enum HavenMsg {
    ClientHs(Vec<u8>),
    ServerHs(Vec<u8>),
    Regular { nonce: u64, inner: Vec<u8> },
}

/// What a haven socket does with a message that arrived from `remote`.
pub enum Dispatch<S> {
    /// Make a session with `remote`, seeded with the client's handshake and
    /// fingerprint, and put it in the place of any session with `remote`.
    Replace { remote: Endpoint, handshake: Vec<u8>, client: Fingerprint },
    /// Hand the message to the session with `remote`.
    Forward { session: S, msg: HavenMsg },
    /// There is no session with `remote`: the message is dropped and no
    /// session is touched.
    Stray,
}

/// How an attempt to send through a session went.
#[derive(Clone, Debug, PartialEq, Eq)]
pub enum SendAttempt {
    /// No session could be had or made, for the given reason.
    NoSession(String),
    /// The session could not send, for the given reason.
    SendFailed(String),
    /// The session sent the datagram.
    Sent,
}

/// The end of an attempt to send.
pub struct SendVerdict {
    /// The endpoint whose session is to be given up, if any.
    pub evict: Option<Endpoint>,
    /// What the sender is told.
    pub result: Result<(), SocketSendError>,
}

/// One step of a server's registration at its rendezvous relay.
#[derive(Clone, Copy, Debug, PartialEq, Eq)]
pub enum RegistrationStep {
    /// Ask the relay to forward to this haven, waiting up to `timeout_secs`.
    Register { rendezvous: Fingerprint, timeout_secs: u64 },
    /// Publish the haven's locator, which names the relay, waiting up to
    /// `timeout_secs`.
    Publish { rendezvous: Fingerprint, timeout_secs: u64 },
    /// Rest for `secs` seconds.
    Sleep { secs: u64 },
}

/// How a step of the registration ended.
#[derive(Clone, Copy, Debug, PartialEq, Eq)]
pub enum RegistrationOutcome {
    /// The relay accepted the registration.
    Registered,
    /// The relay or the call failed.
    RegisterFailed,
    /// The registration did not end in time.
    RegisterTimedOut,
    /// Publishing ended, in time or not.
    PublishEnded,
    /// The rest is over.
    Woke,
}

/// The step that follows `last` after `outcome` at the rendezvous
/// `rendezvous`: an accepted registration is published, a failed one is
/// tried again after `REGISTER_RETRY_SECS`, and after publishing the server
/// registers again once `REANNOUNCE_SECS` have passed. No step follows an
/// outcome that does not belong to `last`.
pub open spec fn registration_next(
    rendezvous: Fingerprint,
    last: RegistrationStep,
    outcome: RegistrationOutcome,
) -> Option<RegistrationStep> {
    match (last, outcome) {
        (RegistrationStep::Register { .. }, RegistrationOutcome::Registered) => Some(
            RegistrationStep::Publish { rendezvous, timeout_secs: PUBLISH_TIMEOUT_SECS },
        ),
        (RegistrationStep::Register { .. }, RegistrationOutcome::RegisterFailed) => Some(
            RegistrationStep::Sleep { secs: REGISTER_RETRY_SECS },
        ),
        (RegistrationStep::Register { .. }, RegistrationOutcome::RegisterTimedOut) => Some(
            RegistrationStep::Sleep { secs: REGISTER_RETRY_SECS },
        ),
        (RegistrationStep::Publish { .. }, RegistrationOutcome::PublishEnded) => Some(
            RegistrationStep::Sleep { secs: REANNOUNCE_SECS },
        ),
        (RegistrationStep::Sleep { .. }, RegistrationOutcome::Woke) => Some(
            RegistrationStep::Register { rendezvous, timeout_secs: REGISTER_TIMEOUT_SECS },
        ),
        _ => None,
    }
}

/// Whether `outcome` is a way in which the step `last` can end.
pub open spec fn outcome_of(last: RegistrationStep, outcome: RegistrationOutcome) -> bool {
    match last {
        RegistrationStep::Register { .. } => outcome is Registered || outcome is RegisterFailed
            || outcome is RegisterTimedOut,
        RegistrationStep::Publish { .. } => outcome is PublishEnded,
        RegistrationStep::Sleep { .. } => outcome is Woke,
    }
}

/// A server never stops registering: however a step ends, another step
/// follows, and a rest is always followed by a registration.
pub proof fn law_registration_goes_on(
    rendezvous: Fingerprint,
    last: RegistrationStep,
    outcome: RegistrationOutcome,
)
    requires
        outcome_of(last, outcome),
    ensures
        registration_next(rendezvous, last, outcome) is Some,
        last is Sleep ==> registration_next(rendezvous, last, outcome) == Some(
            RegistrationStep::Register { rendezvous, timeout_secs: REGISTER_TIMEOUT_SECS },
        ),
{
}

/// What a haven socket does with `msg` from `remote`, `session` being the
/// session that it has with `remote`, if any. A client's handshake always
/// makes a new session for `remote`, whatever session there was. Any other
/// message goes to the session, or is a stray when there is none.
pub open spec fn dispatch_of<S>(remote: Endpoint, msg: HavenMsg, session: Option<S>) -> Dispatch<
    S,
> {
    match msg {
        HavenMsg::ClientHs(handshake) => Dispatch::Replace {
            remote,
            handshake,
            client: remote.fingerprint,
        },
        _ => match session {
            Some(s) => Dispatch::Forward { session: s, msg },
            None => Dispatch::Stray,
        },
    }
}

/// The end of an attempt to send to `endpoint`. Only a session that failed
/// to send is given up; a failure of either kind is reported as a problem
/// of the haven encryption, with its reason.
pub open spec fn send_verdict_of(endpoint: Endpoint, attempt: SendAttempt) -> SendVerdict {
    match attempt {
        SendAttempt::NoSession(reason) => SendVerdict {
            evict: None,
            result: Err(SocketSendError::HavenEncryptionError(reason)),
        },
        SendAttempt::SendFailed(reason) => SendVerdict {
            evict: Some(endpoint),
            result: Err(SocketSendError::HavenEncryptionError(reason)),
        },
        SendAttempt::Sent => SendVerdict { evict: None, result: Ok(()) },
    }
}

/// `Cache::builder` with `max_capacity`, `time_to_live` and `build`: a new
/// cache. The builder does not take a time to live of more than a thousand
/// years, which is left out. What a cache holds changes with time and with
/// what other tasks do to it, so nothing is claimed of it, here or below.
#[verifier::external_body]
fn session_cache_new<S: Clone + Send + Sync + 'static>(max_capacity: u64, ttl_secs: u64) -> Cache<
    Endpoint,
    S,
>
    requires
        ttl_secs <= CACHE_MAX_SECS,
{
    Cache::builder().max_capacity(max_capacity).time_to_live(Duration::from_secs(ttl_secs)).build()
}

/// `Cache::get`: the session that the cache holds for `key` right now, if
/// any.
#[verifier::external_body]
fn session_cache_get<S: Clone + Send + Sync + 'static>(
    cache: &Cache<Endpoint, S>,
    key: &Endpoint,
) -> Option<S> {
    cache.get(key)
}

/// `Cache::insert`: the cache holds `value` for `key` from now on, in place
/// of what it held for `key`.
#[verifier::external_body]
fn session_cache_insert<S: Clone + Send + Sync + 'static>(
    cache: &Cache<Endpoint, S>,
    key: Endpoint,
    value: S,
) {
    cache.insert(key, value)
}

/// `Cache::remove`: the cache holds nothing for `key` from now on.
#[verifier::external_body]
fn session_cache_remove<S: Clone + Send + Sync + 'static>(
    cache: &Cache<Endpoint, S>,
    key: &Endpoint,
) -> Option<S> {
    cache.remove(key)
}

/// `Cache::try_get_with`: the session that the cache holds for `key`, or
/// else the one that `init` makes, which the cache then holds; the error of
/// `init` when it fails, and then the cache holds nothing new. Of several
/// tasks that ask for one key at once, one runs its `init`.
#[verifier::external_body]
fn session_cache_try_get_with<S: Clone + Send + Sync + 'static, F: FnOnce() -> Result<S, String>>(
    cache: &Cache<Endpoint, S>,
    key: Endpoint,
    init: F,
) -> Result<S, String> {
    cache.try_get_with(key, init).map_err(|e| (*e).clone())
}

/// The sessions of a haven socket, one at most for each remote endpoint. A
/// session is forgotten `CRYPT_SESSION_TTL_SECS` after it was made, or
/// earlier when there are more than `CRYPT_SESSION_CAPACITY`.
#[verifier::reject_recursive_types(S)]
pub struct SessionCache<S> {
    sessions: Cache<Endpoint, S>,
}

impl<S: Clone + Send + Sync + 'static> SessionCache<S> {
    /// No sessions yet.
    pub fn new() -> Self {
        SessionCache { sessions: session_cache_new(CRYPT_SESSION_CAPACITY, CRYPT_SESSION_TTL_SECS) }
    }

    /// The session with `remote`, if there is one.
    pub fn lookup(&self, remote: &Endpoint) -> Option<S> {
        session_cache_get(&self.sessions, remote)
    }

    /// Puts `session` in the place of any session with `remote`.
    pub fn install(&self, remote: Endpoint, session: S) {
        session_cache_insert(&self.sessions, remote, session)
    }

    /// Gives up the session with `remote`.
    pub fn evict(&self, remote: &Endpoint) {
        let _ = session_cache_remove(&self.sessions, remote);
    }
}

/// What an attempt to have a session comes to: the session, or the reason
/// for which none could be made, as a problem of the haven encryption.
pub open spec fn session_result_of<S>(had: Result<S, String>) -> Result<S, SocketSendError> {
    match had {
        Ok(s) => Ok(s),
        Err(reason) => Err(SocketSendError::HavenEncryptionError(reason)),
    }
}

/// Turns the reason for which no session could be made into the error that
/// the sender is told.
pub fn session_result<S>(had: Result<S, String>) -> (r: Result<S, SocketSendError>)
    ensures
        r == session_result_of(had),
{
    match had {
        Ok(s) => Ok(s),
        Err(reason) => Err(SocketSendError::HavenEncryptionError(reason)),
    }
}

/// A haven socket, with sessions of the type `S`.
#[verifier::reject_recursive_types(S)]
pub struct HavenSocket<S> {
    identity_sk: IdentitySecret,
    local: Endpoint,
    rendezvous_point: Option<Fingerprint>,
    /// mapping between destination endpoints and encryption sessions
    crypt_sessions: SessionCache<S>,
    /// buffer for decrypted incoming messages
    recv_incoming_decrypted: Receiver<(Vec<u8>, Endpoint)>,
    send_incoming_decrypted: Sender<(Vec<u8>, Endpoint)>,
}

impl<S: Clone + Send + Sync + 'static> HavenSocket<S> {
    /// The identity of the haven.
    pub closed spec fn identity(&self) -> IdentitySecret {
        self.identity_sk
    }

    /// The endpoint to which the socket is bound.
    pub closed spec fn local(&self) -> Endpoint {
        self.local
    }

    /// The rendezvous relay of a server; `None` for a client.
    pub closed spec fn rendezvous(&self) -> Option<Fingerprint> {
        self.rendezvous_point
    }

    /// The cache in which the socket keeps its sessions.
    pub closed spec fn session_cache(&self) -> SessionCache<S> {
        self.crypt_sessions
    }

    /// The socket's receiving end of the buffer of decrypted datagrams.
    pub closed spec fn buffer_out(&self) -> Receiver<(Vec<u8>, Endpoint)> {
        self.recv_incoming_decrypted
    }

    /// The socket's sending end of the buffer of decrypted datagrams.
    pub closed spec fn buffer_in(&self) -> Sender<(Vec<u8>, Endpoint)> {
        self.send_incoming_decrypted
    }

    /// A haven socket with the identity `isk`, bound to `local`, without
    /// sessions, and with room for `INCOMING_BUFFER` decrypted datagrams.
    /// With a rendezvous relay it is a server, which registers there;
    /// without one it is a client. The second result is the first step of
    /// the registration, if there is to be one.
    pub fn bind(isk: IdentitySecret, local: Endpoint, rendezvous_point: Option<Fingerprint>) -> (r: (
        HavenSocket<S>,
        Option<RegistrationStep>,
    ))
        ensures
            r.0.identity() == isk,
            r.0.local() == local,
            r.0.rendezvous() == rendezvous_point,
            r.1 == (match rendezvous_point {
                Some(rob) => Some(
                    RegistrationStep::Register { rendezvous: rob, timeout_secs: REGISTER_TIMEOUT_SECS },
                ),
                None => None,
            }),
    {
        let encrypters = SessionCache::new();
        let (send_incoming_decrypted, recv_incoming_decrypted) = channel_bounded(INCOMING_BUFFER);
        let first = match rendezvous_point {
            // We're Bob: keep telling our rendezvous relay to remember us
            Some(rob) => Some(
                RegistrationStep::Register { rendezvous: rob, timeout_secs: REGISTER_TIMEOUT_SECS },
            ),
            // We're Alice
            None => None,
        };
        (
            HavenSocket {
                identity_sk: isk,
                local,
                rendezvous_point,
                crypt_sessions: encrypters,
                recv_incoming_decrypted,
                send_incoming_decrypted,
            },
            first,
        )
    }

    /// The endpoint to which the socket is bound.
    pub fn local_endpoint(&self) -> (r: Endpoint)
        ensures
            r == self.local(),
    {
        self.local
    }

    /// The identity of the haven.
    pub fn identity_sk(&self) -> (r: IdentitySecret)
        ensures
            r == self.identity(),
    {
        self.identity_sk
    }

    /// The rendezvous relay of a server; `None` for a client.
    pub fn rendezvous_point(&self) -> (r: Option<Fingerprint>)
        ensures
            r == self.rendezvous(),
    {
        self.rendezvous_point
    }

    /// The sessions of the socket.
    pub fn sessions(&self) -> (r: &SessionCache<S>)
        ensures
            *r == self.session_cache(),
    {
        &self.crypt_sessions
    }

    /// The next decrypted datagram and its sender, if one waits; the call
    /// never waits itself. `incoming` is for those who would wait.
    pub fn recv_from(&self) -> Option<(Vec<u8>, Endpoint)> {
        channel_try_recv(&self.recv_incoming_decrypted)
    }

    /// The end of the buffer at which decrypted datagrams can be awaited:
    /// the socket's own receiving end.
    pub fn incoming(&self) -> (r: &Receiver<(Vec<u8>, Endpoint)>)
        ensures
            *r == self.buffer_out(),
    {
        &self.recv_incoming_decrypted
    }

    /// The end of the buffer into which sessions put what they decrypted:
    /// the socket's own sending end.
    pub fn decrypted_sink(&self) -> (r: &Sender<(Vec<u8>, Endpoint)>)
        ensures
            *r == self.buffer_in(),
    {
        &self.send_incoming_decrypted
    }

    /// The step of the registration that follows `last` after `outcome`. A
    /// client has no registration, and no step.
    pub fn next_registration_step(
        &self,
        last: RegistrationStep,
        outcome: RegistrationOutcome,
    ) -> (r: Option<RegistrationStep>)
        ensures
            r == (match self.rendezvous() {
                Some(rob) => registration_next(rob, last, outcome),
                None => None,
            }),
    {
        let rob = match self.rendezvous_point {
            Some(rob) => rob,
            None => {
                return None;
            },
        };
        match last {
            RegistrationStep::Register { .. } => match outcome {
                RegistrationOutcome::Registered => Some(
                    RegistrationStep::Publish { rendezvous: rob, timeout_secs: PUBLISH_TIMEOUT_SECS },
                ),
                RegistrationOutcome::RegisterFailed => Some(
                    RegistrationStep::Sleep { secs: REGISTER_RETRY_SECS },
                ),
                RegistrationOutcome::RegisterTimedOut => Some(
                    RegistrationStep::Sleep { secs: REGISTER_RETRY_SECS },
                ),
                _ => None,
            },
            RegistrationStep::Publish { .. } => match outcome {
                RegistrationOutcome::PublishEnded => Some(
                    RegistrationStep::Sleep { secs: REANNOUNCE_SECS },
                ),
                _ => None,
            },
            RegistrationStep::Sleep { .. } => match outcome {
                RegistrationOutcome::Woke => Some(
                    RegistrationStep::Register {
                        rendezvous: rob,
                        timeout_secs: REGISTER_TIMEOUT_SECS,
                    },
                ),
                _ => None,
            },
        }
    }

    /// Decides what to do with `msg`, which arrived from `remote`, by the
    /// session that the socket has with `remote` at this moment.
    pub fn on_message(&self, remote: Endpoint, msg: HavenMsg) -> (r: Dispatch<S>)
        ensures
            msg is ClientHs ==> r == dispatch_of(remote, msg, None::<S>),
            !(msg is ClientHs) ==> r is Stray || (r matches Dispatch::Forward { session, msg: m }
                && m == msg),
    {
        let found = self.crypt_sessions.lookup(&remote);
        dispatch(remote, msg, found)
    }

    /// The session with `endpoint` through which a datagram is sent: the one
    /// that the socket has, or else the one that `make` makes, which the
    /// socket then has.
    pub fn session_for<F: FnOnce() -> Result<S, String>>(&self, endpoint: Endpoint, make: F) -> (r:
        Result<S, SocketSendError>)
        ensures
            r matches Err(e) ==> e is HavenEncryptionError,
    {
        session_result(session_cache_try_get_with(&self.crypt_sessions.sessions, endpoint, make))
    }

    /// Ends an attempt to send to `endpoint`: a session that failed to send
    /// is given up, and the sender is told how the attempt went.
    pub fn send_to(&self, endpoint: Endpoint, attempt: SendAttempt) -> (r: Result<
        (),
        SocketSendError,
    >)
        ensures
            r == send_verdict_of(endpoint, attempt).result,
            r is Ok <==> attempt is Sent,
    {
        let verdict = send_verdict(endpoint, attempt);
        match verdict.evict {
            Some(gone) => self.crypt_sessions.evict(&gone),
            None => {},
        }
        verdict.result
    }
}

/// Decides what to do with `msg`, which arrived from `remote`. `session` is
/// the session that the socket has with `remote`, if any.
pub fn dispatch<S>(remote: Endpoint, msg: HavenMsg, session: Option<S>) -> (r: Dispatch<S>)
    ensures
        r == dispatch_of(remote, msg, session),
        msg is ClientHs ==> r is Replace,
        !(msg is ClientHs) && session is None ==> r is Stray,
{
    match msg {
        HavenMsg::ClientHs(handshake) => Dispatch::Replace {
            remote,
            handshake,
            client: remote.fingerprint,
        },
        HavenMsg::ServerHs(hs) => match session {
            Some(s) => Dispatch::Forward { session: s, msg: HavenMsg::ServerHs(hs) },
            None => Dispatch::Stray,
        },
        HavenMsg::Regular { nonce, inner } => match session {
            Some(s) => Dispatch::Forward { session: s, msg: HavenMsg::Regular { nonce, inner } },
            None => Dispatch::Stray,
        },
    }
}

/// The end of an attempt to send to `endpoint`.
pub fn send_verdict(endpoint: Endpoint, attempt: SendAttempt) -> (r: SendVerdict)
    ensures
        r == send_verdict_of(endpoint, attempt),
        r.evict is Some <==> attempt is SendFailed,
        r.result is Ok <==> attempt is Sent,
{
    match attempt {
        SendAttempt::NoSession(reason) => SendVerdict {
            evict: None,
            result: Err(SocketSendError::HavenEncryptionError(reason)),
        },
        SendAttempt::SendFailed(reason) => SendVerdict {
            evict: Some(endpoint),
            result: Err(SocketSendError::HavenEncryptionError(reason)),
        },
        SendAttempt::Sent => SendVerdict { evict: None, result: Ok(()) },
    }
}

} // verus!
