//! A link to a neighbor: what the node answers on its control stream, and
//! how it treats the streams and packets that arrive on it.
use crate::channel::{channel_bounded, channel_try_recv, channel_try_send};
use crate::crypt::{lex_lt, Fingerprint, IdentityPublic, Signature};
use crate::daemon::link_protocol::{AuthResponse, InfoResponse};
use crate::packet::RawPacket;
use crate::sequences::{
    first_occurrences, lemma_first_occurrences, lemma_first_occurrences_contains,
};
use crate::topology::{
    adjacency_verdict, between_relays, find_identity, incident, AdjacencyDescriptor,
    IdentityDescriptor, RelayGraph,
};
use concurrent_queue::ConcurrentQueue;
use smol::channel::{Receiver, Sender};
use vstd::prelude::*;
use vstd::string::*;

verus! {

/// The relay-to-relay adjacencies with `fingerprint` at one end.
pub open spec fn relay_edges(
    ids: Seq<IdentityDescriptor>,
    edges: Seq<AdjacencyDescriptor>,
    fingerprint: Fingerprint,
) -> Seq<AdjacencyDescriptor> {
    incident(edges, fingerprint).filter(between_relays(ids))
}

/// The relay-to-relay adjacencies of each fingerprint of `fps`, one
/// fingerprint after the other.
pub open spec fn gathered(
    ids: Seq<IdentityDescriptor>,
    edges: Seq<AdjacencyDescriptor>,
    fps: Seq<Fingerprint>,
) -> Seq<AdjacencyDescriptor>
    decreases fps.len(),
{
    if fps.len() == 0 {
        Seq::empty()
    } else {
        gathered(ids, edges, fps.drop_last()) + relay_edges(ids, edges, fps.last())
    }
}

/// What is gathered joins two relays, and is an adjacency of the graph with
/// one of the fingerprints at one end; every such adjacency is gathered.
pub proof fn lemma_gathered(
    ids: Seq<IdentityDescriptor>,
    edges: Seq<AdjacencyDescriptor>,
    fps: Seq<Fingerprint>,
    a: AdjacencyDescriptor,
)
    ensures
        gathered(ids, edges, fps).contains(a) <==> (edges.contains(a) && between_relays(ids)(a)
            && exists|k: int| 0 <= k < fps.len() && a.touches(#[trigger] fps[k])),
    decreases fps.len(),
{
    if fps.len() > 0 {
        let front = fps.drop_last();
        let head = gathered(ids, edges, front);
        let tail = relay_edges(ids, edges, fps.last());
        let g = head + tail;
        lemma_gathered(ids, edges, front, a);
        lemma_relay_edges(ids, edges, fps.last(), a);
        if head.contains(a) {
            let i = choose|i: int| 0 <= i < head.len() && head[i] == a;
            assert(g[i] == a);
            let k = choose|k: int| 0 <= k < front.len() && a.touches(#[trigger] front[k]);
            assert(a.touches(fps[k]));
        } else if tail.contains(a) {
            let i = choose|i: int| 0 <= i < tail.len() && tail[i] == a;
            assert(g[head.len() + i] == a);
            assert(a.touches(fps[fps.len() - 1]));
        } else {
            // what is in neither part is not gathered, and has no end among `fps`
            if g.contains(a) {
                let i = choose|i: int| 0 <= i < g.len() && g[i] == a;
                assert(i < head.len() ==> head[i] == a);
                assert(i >= head.len() ==> tail[i - head.len()] == a);
            }
            if exists|k: int| 0 <= k < fps.len() && a.touches(#[trigger] fps[k]) {
                let k = choose|k: int| 0 <= k < fps.len() && a.touches(#[trigger] fps[k]);
                assert(k < front.len() ==> a.touches(front[k]));
            }
        }
    }
}

/// The relay-to-relay adjacencies at a fingerprint are the adjacencies of
/// the graph that have it at one end and join two relays.
pub proof fn lemma_relay_edges(
    ids: Seq<IdentityDescriptor>,
    edges: Seq<AdjacencyDescriptor>,
    fingerprint: Fingerprint,
    a: AdjacencyDescriptor,
)
    ensures
        relay_edges(ids, edges, fingerprint).contains(a) <==> (edges.contains(a) && a.touches(
            fingerprint,
        ) && between_relays(ids)(a)),
{
    let near = incident(edges, fingerprint);
    let r = relay_edges(ids, edges, fingerprint);
    if r.contains(a) {
        let i = choose|i: int| 0 <= i < r.len() && r[i] == a;
        near.lemma_filter_pred(between_relays(ids), i);
        near.lemma_filter_contains_rev(between_relays(ids), a);
        let j = choose|j: int| 0 <= j < near.len() && near[j] == a;
        edges.lemma_filter_pred(crate::topology::touching(fingerprint), j);
        edges.lemma_filter_contains_rev(crate::topology::touching(fingerprint), a);
    }
    if edges.contains(a) && a.touches(fingerprint) && between_relays(ids)(a) {
        let i = choose|i: int| 0 <= i < edges.len() && edges[i] == a;
        edges.lemma_filter_contains(crate::topology::touching(fingerprint), i);
        let j = choose|j: int| 0 <= j < near.len() && near[j] == a;
        near.lemma_filter_contains(between_relays(ids), j);
    }
}

/// Whether `fingerprint` is one of `neighbors`.
pub fn is_neighbor(neighbors: &Vec<Fingerprint>, fingerprint: &Fingerprint) -> (r: bool)
    ensures
        r == neighbors@.contains(*fingerprint),
{
    let mut i: usize = 0;
    while i < neighbors.len()
        invariant
            i <= neighbors.len(),
            forall|j: int| 0 <= j < i ==> neighbors@[j] != *fingerprint,
        decreases neighbors.len() - i,
    {
        if neighbors[i].same(fingerprint) {
            return true;
        }
        i += 1;
    }
    false
}

/// Whether `adjacency` is one of `list`.
fn holds_adjacency(list: &Vec<AdjacencyDescriptor>, adjacency: &AdjacencyDescriptor) -> (r: bool)
    ensures
        r == list@.contains(*adjacency),
{
    let mut i: usize = 0;
    while i < list.len()
        invariant
            i <= list.len(),
            forall|j: int| 0 <= j < i ==> list@[j] != *adjacency,
        decreases list.len() - i,
    {
        if list[i].same(adjacency) {
            return true;
        }
        i += 1;
    }
    false
}

/// The adjacencies of `list` that join two relays of `graph`, in their
/// order.
pub fn relays_only(graph: &RelayGraph, list: &Vec<AdjacencyDescriptor>) -> (r: Vec<
    AdjacencyDescriptor,
>)
    ensures
        r@ == list@.filter(between_relays(graph.ids())),
{
    let mut out: Vec<AdjacencyDescriptor> = Vec::new();
    let mut i: usize = 0;
    proof {
        reveal(Seq::filter);
    }
    while i < list.len()
        invariant
            i <= list.len(),
            out@ == list@.take(i as int).filter(between_relays(graph.ids())),
        decreases list.len() - i,
    {
        let a = list[i];
        proof {
            let head = list@.take(i as int);
            head.lemma_filter_push(a, between_relays(graph.ids()));
            assert(head.push(a) =~= list@.take(i + 1));
        }
        if graph.joins_relays(&a) {
            out.push(a);
        }
        i += 1;
    }
    proof {
        assert(list@.take(i as int) =~= list@);
    }
    out
}

/// How many packets wait in each direction of a link. A packet that finds
/// its queue full is dropped.
pub const LINK_QUEUE_CAPACITY: usize = 100;

/// The label of the streams that carry the control calls between neighbors.
pub const N2N_CONTROL: &'static str = "n2n_control";

/// The label of the streams that carry onion packets.
pub const ONION_PACKETS: &'static str = "onion_packets";

/// For how many milliseconds an idle control stream may be used again.
pub const POOL_TIMEOUT_MS: u64 = 60_000;

/// `concurrent_queue::ConcurrentQueue`, a queue that hands out first what it
/// took first. Nothing of its inside is known here; `queue_items`,
/// `queue_open` and `queue_bound` name what it holds.
#[verifier::external_type_specification]
#[verifier::external_body]
#[verifier::reject_recursive_types(T)]
pub struct ExConcurrentQueue<T>(ConcurrentQueue<T>);

/// `str`'s `==`: whether both texts hold the same characters.
#[verifier::external_body]
fn str_eq(a: &str, b: &str) -> (r: bool)
    ensures
        r == (a@ == b@),
{
    a == b
}

/// What a substream of a link carries, by its label.
#[derive(Clone, Copy, Debug, PartialEq, Eq)]
pub enum StreamKind {
    /// Control calls, one per line.
    Control,
    /// Onion packets, one per datagram.
    OnionPackets,
    /// Nothing that this node knows of: the stream is dropped.
    Unknown,
}

/// The kind of the substream with the label `label`.
pub open spec fn stream_kind_of(label: Seq<char>) -> StreamKind {
    if label == N2N_CONTROL@ {
        StreamKind::Control
    } else if label == ONION_PACKETS@ {
        StreamKind::OnionPackets
    } else {
        StreamKind::Unknown
    }
}

/// Decides what to do with an accepted substream.
pub fn stream_kind(label: &str) -> (r: StreamKind)
    ensures
        r == stream_kind_of(label@),
{
    if str_eq(label, N2N_CONTROL) {
        StreamKind::Control
    } else if str_eq(label, ONION_PACKETS) {
        StreamKind::OnionPackets
    } else {
        StreamKind::Unknown
    }
}

/// A control call or its answer as it travels on a control stream: the
/// JSON text on one line.
pub fn rpc_line(json: &str) -> (line: String)
    ensures
        line@ == json@ + "\n"@,
{
    let mut line = String::from_str(json);
    line.append("\n");
    line
}

/// Why a link could not be set up.
#[derive(Clone, Copy, Debug, PartialEq, Eq)]
pub enum ConnectError {
    /// The peer did not answer `authenticate`.
    NoAuthResponse,
    /// The public key of the peer's end of the multiplex is not known.
    NoPeerKey,
    /// The peer's signature does not cover that key.
    BadAuthentication,
}

impl ConnectError {
    /// A description of the error for people.
    pub fn message(&self) -> (r: String)
        ensures
            self is NoAuthResponse ==> r@ == "did not respond to authenticate"@,
            self is NoPeerKey ==> r@ == "could not obtain peer_pk"@,
            self is BadAuthentication ==> r@ == "did not authenticated correctly"@,
    {
        match self {
            ConnectError::NoAuthResponse => String::from_str("did not respond to authenticate"),
            ConnectError::NoPeerKey => String::from_str("could not obtain peer_pk"),
            ConnectError::BadAuthentication => String::from_str("did not authenticated correctly"),
        }
    }
}

/// How the authentication of a peer ends. `authenticated` is the peer's
/// answer to `authenticate`, if it gave one; `peer_key_check` says whether
/// the signature of that answer covers the public key of the peer's end of
/// the multiplex, and is `None` when that key is not known. The link stands
/// when the peer answered, its key is known and its signature covers it; the
/// identity that it presented is then the result.
pub open spec fn authentication_of(
    authenticated: Option<AuthResponse>,
    peer_key_check: Option<bool>,
) -> Result<IdentityPublic, ConnectError> {
    match authenticated {
        None => Err(ConnectError::NoAuthResponse),
        Some(resp) => match peer_key_check {
            None => Err(ConnectError::NoPeerKey),
            Some(false) => Err(ConnectError::BadAuthentication),
            Some(true) => Ok(resp.full_pk),
        },
    }
}

/// What became of a datagram that arrived on an onion-packet stream.
#[derive(Clone, Copy, Debug, PartialEq, Eq)]
pub enum Delivery {
    /// The datagram does not have the size of a packet.
    WrongSize,
    /// The packet found the queue full, or the link gone, and was dropped.
    Dropped,
    /// The packet waits for the node.
    Queued,
}

/// The node's ends of the two packet queues of a link that is being set up.
#[verifier::reject_recursive_types(N)]
pub struct LinkQueues<const N: usize> {
    send_outgoing: Sender<RawPacket<N>>,
    recv_incoming: Receiver<RawPacket<N>>,
}

/// One node-to-node connection, as the node that owns it sees it: packets
/// of `N` bytes go out and come in through it.
#[verifier::reject_recursive_types(N)]
pub struct LinkConnection<const N: usize> {
    send_outgoing: Sender<RawPacket<N>>,
    recv_incoming: Receiver<RawPacket<N>>,
    remote_idpk: IdentityPublic,
}

/// The same connection as the tasks that work the link see it: they take
/// what goes out and bring what comes in.
#[verifier::reject_recursive_types(N)]
pub struct PacketPump<const N: usize> {
    send_incoming: Sender<RawPacket<N>>,
    recv_outgoing: Receiver<RawPacket<N>>,
}

/// The packet queues of a new link, one for each direction and each for
/// `LINK_QUEUE_CAPACITY` packets: the node's ends, and the ends of the tasks
/// that work the link.
pub fn link_queues<const N: usize>() -> (LinkQueues<N>, PacketPump<N>) {
    let (send_outgoing, recv_outgoing) = channel_bounded(LINK_QUEUE_CAPACITY);
    let (send_incoming, recv_incoming) = channel_bounded(LINK_QUEUE_CAPACITY);
    (LinkQueues { send_outgoing, recv_incoming }, PacketPump { send_incoming, recv_outgoing })
}

impl<const N: usize> LinkConnection<N> {
    /// The identity that the peer presented.
    pub closed spec fn peer(&self) -> IdentityPublic {
        self.remote_idpk
    }

    /// The connection's receiving end of the queue of incoming packets.
    pub closed spec fn incoming_end(&self) -> Receiver<RawPacket<N>> {
        self.recv_incoming
    }

    /// Sets up the connection over `queues` once the peer has been asked to
    /// authenticate: see `authentication_of` for the two other arguments and
    /// for when the link stands.
    pub fn connect(
        queues: LinkQueues<N>,
        authenticated: Option<AuthResponse>,
        peer_key_check: Option<bool>,
    ) -> (r: Result<LinkConnection<N>, ConnectError>)
        ensures
            match authentication_of(authenticated, peer_key_check) {
                Ok(idpk) => r matches Ok(conn) && conn.peer() == idpk,
                Err(e) => r matches Err(f) && f == e,
            },
    {
        let resp = match authenticated {
            Some(resp) => resp,
            None => {
                return Err(ConnectError::NoAuthResponse);
            },
        };
        match peer_key_check {
            None => Err(ConnectError::NoPeerKey),
            Some(false) => Err(ConnectError::BadAuthentication),
            Some(true) => Ok(
                LinkConnection {
                    send_outgoing: queues.send_outgoing,
                    recv_incoming: queues.recv_incoming,
                    remote_idpk: resp.full_pk,
                },
            ),
        }
    }

    /// Returns the identity publickey presented by the other side.
    pub fn remote_idpk(&self) -> (r: IdentityPublic)
        ensures
            r == self.peer(),
    {
        self.remote_idpk
    }

    /// Sends an onion-routing packet down this connection. The packet is
    /// dropped when `LINK_QUEUE_CAPACITY` packets wait already; the call
    /// never waits.
    pub fn send_raw_packet(&self, pkt: RawPacket<N>) {
        let _ = channel_try_send(&self.send_outgoing, pkt);
    }

    /// Receives an onion-routing packet that came in on this connection, if
    /// one waits; the call never waits itself. `incoming` is for those who
    /// would wait.
    pub fn recv_raw_packet(&self) -> Option<RawPacket<N>> {
        channel_try_recv(&self.recv_incoming)
    }

    /// The end of the queue at which incoming packets can be awaited: the
    /// connection's own receiving end.
    pub fn incoming(&self) -> (r: &Receiver<RawPacket<N>>)
        ensures
            *r == self.incoming_end(),
    {
        &self.recv_incoming
    }
}

impl<const N: usize> PacketPump<N> {
    /// The pump's receiving end of the queue of outgoing packets.
    pub closed spec fn outgoing_end(&self) -> Receiver<RawPacket<N>> {
        self.recv_outgoing
    }

    /// The pump's sending end of the queue of incoming packets.
    pub closed spec fn incoming_end(&self) -> Sender<RawPacket<N>> {
        self.send_incoming
    }

    /// Takes in a datagram that arrived on an onion-packet stream. Only a
    /// datagram with the size of a packet is one, and it is queued for the
    /// node unless the queue is full.
    pub fn deliver(&self, datagram: &[u8]) -> (r: Delivery)
        ensures
            r is WrongSize <==> datagram@.len() != N,
    {
        match RawPacket::<N>::try_from_bytes(datagram) {
            None => Delivery::WrongSize,
            Some(pkt) => {
                if channel_try_send(&self.send_incoming, pkt) {
                    Delivery::Queued
                } else {
                    Delivery::Dropped
                }
            },
        }
    }

    /// The bytes of the next packet that the node sends, if one waits: one
    /// datagram of `N` bytes. Whether one waits is for the queue to say;
    /// `outgoing_datagram` says what becomes of a packet that did.
    pub fn next_outgoing(&self) -> (r: Option<Vec<u8>>)
        ensures
            r matches Some(datagram) ==> datagram@.len() == N,
    {
        outgoing_datagram(channel_try_recv(&self.recv_outgoing))
    }

    /// The end of the queue at which outgoing packets can be awaited: the
    /// pump's own receiving end.
    pub fn outgoing(&self) -> (r: &Receiver<RawPacket<N>>)
        ensures
            *r == self.outgoing_end(),
    {
        &self.recv_outgoing
    }

    /// The end of the queue into which incoming packets are put: the pump's
    /// own sending end.
    pub fn incoming(&self) -> (r: &Sender<RawPacket<N>>)
        ensures
            *r == self.incoming_end(),
    {
        &self.send_incoming
    }
}

/// The datagram in which a packet that was taken from the queue of outgoing
/// packets travels: the bytes of the packet, `N` of them. Without a packet
/// there is no datagram.
pub fn outgoing_datagram<const N: usize>(taken: Option<RawPacket<N>>) -> (r: Option<Vec<u8>>)
    ensures
        r is Some <==> taken is Some,
        r matches Some(datagram) ==> datagram@ == taken->0@ && datagram@.len() == N,
{
    match taken {
        Some(pkt) => {
            proof {
                pkt.lemma_len();
            }
            Some(pkt.to_bytes())
        },
        None => None,
    }
}

/// The pooled streams of a queue, the one that waited longest first: for
/// each the number by which its owner knows it, and the time at which it
/// was put back.
pub uninterp spec fn queue_items(q: ConcurrentQueue<(u64, u64)>) -> Seq<(u64, u64)>;

/// Whether a queue is open: it is until it is closed, and a closed queue
/// takes no items.
pub uninterp spec fn queue_open(q: ConcurrentQueue<(u64, u64)>) -> bool;

/// The number of items that a queue was made to hold, if it was made with a
/// bound.
pub uninterp spec fn queue_bound(q: ConcurrentQueue<(u64, u64)>) -> Option<nat>;

/// `ConcurrentQueue::unbounded`: an empty, open queue without a bound.
#[verifier::external_body]
fn queue_unbounded() -> (q: ConcurrentQueue<(u64, u64)>)
    ensures
        queue_items(q) == Seq::<(u64, u64)>::empty(),
        queue_open(q),
        queue_bound(q) is None,
{
    ConcurrentQueue::unbounded()
}

/// `ConcurrentQueue::push`: the item joins the back, unless the queue is
/// closed or holds as many items as its bound allows; the queue then stays
/// as it is and the item is lost.
#[verifier::external_body]
fn queue_push(q: &mut ConcurrentQueue<(u64, u64)>, item: (u64, u64))
    ensures
        queue_open(*final(q)) == queue_open(*old(q)),
        queue_bound(*final(q)) == queue_bound(*old(q)),
        queue_items(*final(q)) == (if queue_open(*old(q)) && (queue_bound(*old(q)) matches Some(
            n,
        ) ==> queue_items(*old(q)).len() < n) {
            queue_items(*old(q)).push(item)
        } else {
            queue_items(*old(q))
        }),
{
    let _ = q.push(item);
}

/// `ConcurrentQueue::pop`: the item at the front leaves the queue, if there
/// is one.
#[verifier::external_body]
fn queue_pop(q: &mut ConcurrentQueue<(u64, u64)>) -> (r: Option<(u64, u64)>)
    ensures
        queue_open(*final(q)) == queue_open(*old(q)),
        queue_bound(*final(q)) == queue_bound(*old(q)),
        match r {
            Some(item) => queue_items(*old(q)).len() > 0 && item == queue_items(*old(q))[0]
                && queue_items(*final(q)) == queue_items(*old(q)).drop_first(),
            None => queue_items(*old(q)).len() == 0 && queue_items(*final(q)) == queue_items(
                *old(q),
            ),
        },
{
    q.pop().ok()
}

/// Whether a stream that was put back at `pooled_at` may be used again at
/// `now`, both in milliseconds of one clock that does not run backwards: it
/// may while less than `POOL_TIMEOUT_MS` have passed.
pub open spec fn is_fresh(pooled_at: u64, now: u64) -> bool {
    now <= pooled_at || now - pooled_at < POOL_TIMEOUT_MS
}

/// The stream that a call takes from the pool at `now`: the first one,
/// from the front, that may be used again.
pub open spec fn pool_pick(pool: Seq<(u64, u64)>, now: u64) -> Option<u64>
    decreases pool.len(),
{
    if pool.len() == 0 {
        None
    } else if is_fresh(pool[0].1, now) {
        Some(pool[0].0)
    } else {
        pool_pick(pool.drop_first(), now)
    }
}

/// The pool after a call took a stream from it at `now`: the stream that was
/// taken is gone, and so is every stream that stood before it, for those
/// were too old. When none could be taken the pool is empty.
pub open spec fn pool_rest(pool: Seq<(u64, u64)>, now: u64) -> Seq<(u64, u64)>
    decreases pool.len(),
{
    if pool.len() == 0 {
        pool
    } else if is_fresh(pool[0].1, now) {
        pool.drop_first()
    } else {
        pool_rest(pool.drop_first(), now)
    }
}

/// The numbers of the streams that a call at `now` discards as too old: those
/// that stand before the stream that it takes, or all when it takes none.
pub open spec fn pool_discarded(pool: Seq<(u64, u64)>, now: u64) -> Seq<u64>
    decreases pool.len(),
{
    if pool.len() == 0 || is_fresh(pool[0].1, now) {
        Seq::empty()
    } else {
        seq![pool[0].0] + pool_discarded(pool.drop_first(), now)
    }
}

/// What a call finds in the pool.
pub struct PoolTake {
    /// The stream that the call uses, if the pool had one that may be used.
    pub stream: Option<u64>,
    /// The streams that were too old; the pool has forgotten them.
    pub discarded: Vec<u64>,
}

/// The streams to a neighbor that wait to carry another control call.
pub struct MultiplexRpcTransport {
    conn_pool: ConcurrentQueue<(u64, u64)>,
}

impl View for MultiplexRpcTransport {
    type V = Seq<(u64, u64)>;

    /// The pooled streams, the one that waited longest first: for each its
    /// number and the time at which it was put back.
    closed spec fn view(&self) -> Seq<(u64, u64)> {
        queue_items(self.conn_pool)
    }
}

impl MultiplexRpcTransport {
    /// Well-formedness: the pool is as it was made, open and without a
    /// bound.
    pub closed spec fn wf(&self) -> bool {
        queue_open(self.conn_pool) && queue_bound(self.conn_pool) is None
    }

    /// Whether the pool takes another stream. A well-formed pool always
    /// does.
    pub closed spec fn takes(&self) -> bool {
        queue_open(self.conn_pool) && (queue_bound(self.conn_pool) matches Some(n)
            ==> queue_items(self.conn_pool).len() < n)
    }

    /// A well-formed pool takes another stream.
    pub proof fn lemma_wf_takes(&self)
        requires
            self.wf(),
        ensures
            self.takes(),
    {
    }

    /// Constructs a transport with an empty pool.
    pub fn new() -> (r: Self)
        ensures
            r@ == Seq::<(u64, u64)>::empty(),
            r.wf(),
    {
        Self { conn_pool: queue_unbounded() }
    }

    /// Obtains a free connection: the first pooled stream that was put back
    /// less than `POOL_TIMEOUT_MS` before `now`. Older streams that stood
    /// before it are discarded. Without a stream the caller opens a new one.
    pub fn get_conn(&mut self, now: u64) -> (r: PoolTake)
        ensures
            r.stream == pool_pick(old(self)@, now),
            r.discarded@ == pool_discarded(old(self)@, now),
            final(self)@ == pool_rest(old(self)@, now),
            final(self).wf() == old(self).wf(),
    {
        let mut discarded: Vec<u64> = Vec::new();
        loop
            invariant
                pool_pick(self@, now) == pool_pick(old(self)@, now),
                pool_rest(self@, now) == pool_rest(old(self)@, now),
                discarded@ + pool_discarded(self@, now) == pool_discarded(old(self)@, now),
                self.wf() == old(self).wf(),
            decreases self@.len(),
        {
            let ghost dropped = discarded@;
            match queue_pop(&mut self.conn_pool) {
                Some((stream, time)) => {
                    if now <= time || now - time < POOL_TIMEOUT_MS {
                        return PoolTake { stream: Some(stream), discarded };
                    }
                    discarded.push(stream);
                    proof {
                        assert(discarded@ + pool_discarded(self@, now) =~= dropped + (seq![stream]
                            + pool_discarded(self@, now)));
                    }
                },
                None => {
                    return PoolTake { stream: None, discarded };
                },
            }
        }
    }

    /// Ends a call that used the stream `stream`. After a call that went
    /// well the stream is put back at `now`; after one that failed, in
    /// writing, reading or parsing, the stream is given up and the pool
    /// stays as it is.
    pub fn finish_call(&mut self, stream: u64, now: u64, went_well: bool)
        ensures
            final(self).wf() == old(self).wf(),
            final(self)@ == (if went_well && old(self).takes() {
                old(self)@.push((stream, now))
            } else {
                old(self)@
            }),
    {
        if went_well {
            self.put_conn(stream, now);
        }
    }

    /// Puts the stream `stream` back at `now`.
    pub fn put_conn(&mut self, stream: u64, now: u64)
        ensures
            final(self).wf() == old(self).wf(),
            final(self)@ == (if old(self).takes() {
                old(self)@.push((stream, now))
            } else {
                old(self)@
            }),
    {
        queue_push(&mut self.conn_pool, (stream, now));
    }
}

/// A stream that was put back into a pool is the one that the next
/// call takes, as long as less than `POOL_TIMEOUT_MS` have passed; once
/// they have, the call finds the pool empty and leaves it empty.
pub proof fn law_pool_reuse(stream: u64, pooled_at: u64, now: u64)
    ensures
        is_fresh(pooled_at, now) ==> pool_pick(seq![(stream, pooled_at)], now) == Some(stream),
        !is_fresh(pooled_at, now) ==> pool_pick(seq![(stream, pooled_at)], now) is None
            && pool_rest(seq![(stream, pooled_at)], now).len() == 0,
        pooled_at <= now && now - pooled_at < POOL_TIMEOUT_MS ==> is_fresh(pooled_at, now),
        pooled_at <= now && now - pooled_at >= POOL_TIMEOUT_MS ==> !is_fresh(pooled_at, now),
{
    reveal_with_fuel(pool_pick, 2);
    reveal_with_fuel(pool_rest, 2);
}

/// The place of the first pooled stream that may be used at `now`; the
/// length of the pool when none may.
pub open spec fn first_fresh(pool: Seq<(u64, u64)>, now: u64) -> int
    decreases pool.len(),
{
    if pool.len() == 0 || is_fresh(pool[0].1, now) {
        0
    } else {
        1 + first_fresh(pool.drop_first(), now)
    }
}

/// A call takes the first stream that is not too old, discards the streams
/// before it, and leaves the streams behind it as they are; when every
/// stream is too old it discards them all.
pub proof fn law_pool_take(pool: Seq<(u64, u64)>, now: u64)
    ensures
        ({
            let i = first_fresh(pool, now);
            &&& 0 <= i <= pool.len()
            &&& forall|j: int| 0 <= j < i ==> !is_fresh((#[trigger] pool[j]).1, now)
            &&& i < pool.len() ==> is_fresh(pool[i].1, now) && pool_pick(pool, now) == Some(
                pool[i].0,
            ) && pool_rest(pool, now) == pool.skip(i + 1)
            &&& i == pool.len() ==> pool_pick(pool, now) is None && pool_rest(pool, now).len()
                == 0
            &&& pool_discarded(pool, now) == pool.take(i).map_values(|e: (u64, u64)| e.0)
        }),
    decreases pool.len(),
{
    let i = first_fresh(pool, now);
    let ids = |e: (u64, u64)| e.0;
    if pool.len() > 0 && !is_fresh(pool[0].1, now) {
        let rest = pool.drop_first();
        law_pool_take(rest, now);
        assert forall|j: int| 0 <= j < i implies !is_fresh((#[trigger] pool[j]).1, now) by {
            if j > 0 {
                assert(pool[j] == rest[j - 1]);
            }
        }
        if i < pool.len() {
            assert(rest.skip(i) =~= pool.skip(i + 1));
        }
        assert(pool.take(i).map_values(ids) =~= seq![pool[0].0] + rest.take(i - 1).map_values(ids));
    } else {
        if pool.len() > 0 {
            assert(pool.skip(1) =~= pool.drop_first());
        }
        assert(pool.take(0).map_values(ids) =~= Seq::<u64>::empty());
    }
}

/// Two calls never share a stream: a stream that one call took is not among
/// those that the pool keeps for the next, as long as every pooled stream
/// has a number of its own.
pub proof fn law_pool_no_sharing(pool: Seq<(u64, u64)>, now: u64)
    requires
        forall|i: int, j: int|
            0 <= i < j < pool.len() ==> (#[trigger] pool[i]).0 != (#[trigger] pool[j]).0,
    ensures
        pool_pick(pool, now) matches Some(stream) ==> forall|k: int|
            0 <= k < pool_rest(pool, now).len() ==> (#[trigger] pool_rest(pool, now)[k]).0
                != stream,
        pool_pick(pool, now) matches Some(stream) ==> pool_pick(pool_rest(pool, now), now)
            != Some(stream),
{
    let i = first_fresh(pool, now);
    let rest = pool_rest(pool, now);
    law_pool_take(pool, now);
    law_pool_take(rest, now);
    if i < pool.len() {
        assert forall|k: int| 0 <= k < rest.len() implies (#[trigger] rest[k]).0 != pool[i].0 by {
            assert(rest[k] == pool[i + 1 + k]);
        }
    }
}

/// What the node that owns the link answers to its neighbor.
pub struct LinkProtocolImpl {
    my_fingerprint: Fingerprint,
}

impl LinkProtocolImpl {
    /// The fingerprint of the node's own identity.
    pub closed spec fn me(&self) -> Fingerprint {
        self.my_fingerprint
    }

    /// The service of the node whose identity has `my_fingerprint`.
    pub fn new(my_fingerprint: Fingerprint) -> (r: LinkProtocolImpl)
        ensures
            r.me() == my_fingerprint,
    {
        LinkProtocolImpl { my_fingerprint }
    }

    /// The node's version.
    pub fn info(&self, version: &str) -> (r: InfoResponse)
        ensures
            r.version@ == version@,
    {
        InfoResponse { version: String::from_str(version) }
    }

    /// Whether the node is willing to sign `incomplete`: the descriptor
    /// must run from a smaller fingerprint to a larger one, the larger one
    /// must be the node's own, and the smaller one a current neighbor.
    pub open spec fn accepts(
        &self,
        neighbors: Seq<Fingerprint>,
        incomplete: AdjacencyDescriptor,
    ) -> bool {
        &&& lex_lt(incomplete.left@, incomplete.right@)
        &&& incomplete.right == self.me()
        &&& neighbors.contains(incomplete.left)
    }

    /// Decides whether the node signs `left_incomplete`.
    pub fn accepts_adjacency(
        &self,
        neighbors: &Vec<Fingerprint>,
        left_incomplete: &AdjacencyDescriptor,
    ) -> (r: bool)
        ensures
            r == self.accepts(neighbors@, *left_incomplete),
    {
        left_incomplete.left.precedes(&left_incomplete.right) && left_incomplete.right.same(
            &self.my_fingerprint,
        ) && is_neighbor(neighbors, &left_incomplete.left)
    }

    /// Completes an adjacency that a neighbor has signed on its side.
    ///
    /// `signature` is the node's own signature over the descriptor, and
    /// `signed` says whether both signatures of the completed descriptor
    /// verify. A descriptor that the node accepts gets `signature` as its
    /// `right_sig` and is offered to `graph`; it is returned if the graph
    /// takes it. In every other case the answer is `None` and the graph
    /// stays as it was.
    pub fn sign_adjacency(
        &self,
        neighbors: &Vec<Fingerprint>,
        graph: &mut RelayGraph,
        left_incomplete: AdjacencyDescriptor,
        signature: Signature,
        signed: bool,
    ) -> (r: Option<AdjacencyDescriptor>)
        ensures
            ({
                let complete = AdjacencyDescriptor { right_sig: signature, ..left_incomplete };
                let taken = self.accepts(neighbors@, left_incomplete) && adjacency_verdict(
                    old(graph).edges(),
                    complete,
                    signed,
                ) is Ok;
                &&& r == (if taken {
                    Some(complete)
                } else {
                    None
                })
                &&& final(graph).edges() == (if taken {
                    old(graph).edges().push(complete)
                } else {
                    old(graph).edges()
                })
            }),
            r is Some ==> self.accepts(neighbors@, left_incomplete),
            final(graph).ids() == old(graph).ids(),
            old(graph).wf() ==> final(graph).wf(),
    {
        // This must be a neighbor that is "left" of us
        if !self.accepts_adjacency(neighbors, &left_incomplete) {
            return None;
        }
        // Fill in the right-hand-side
        let mut complete = left_incomplete;
        complete.right_sig = signature;
        match graph.insert_adjacency(complete, signed) {
            Ok(_) => Some(complete),
            Err(_) => None,
        }
    }

    /// What the graph knows of `fp`.
    pub fn identity(&self, graph: &RelayGraph, fp: Fingerprint) -> (r: Option<IdentityDescriptor>)
        ensures
            r == find_identity(graph.ids(), fp),
    {
        graph.identity(&fp)
    }

    /// The relay-to-relay adjacencies of the requested fingerprints, each
    /// listed once, in the order in which they are first met.
    pub fn adjacencies(&self, graph: &RelayGraph, fps: Vec<Fingerprint>) -> (r: Vec<
        AdjacencyDescriptor,
    >)
        ensures
            r@ == first_occurrences(gathered(graph.ids(), graph.edges(), fps@)),
            r@.no_duplicates(),
            forall|i: int| 0 <= i < r@.len() ==> between_relays(graph.ids())(#[trigger] r@[i]),
            forall|a: AdjacencyDescriptor|
                #![trigger r@.contains(a)]
                r@.contains(a) <==> (graph.edges().contains(a) && between_relays(graph.ids())(a)
                    && exists|k: int| 0 <= k < fps@.len() && a.touches(#[trigger] fps@[k])),
    {
        let mut out: Vec<AdjacencyDescriptor> = Vec::new();
        let ghost ids = graph.ids();
        let ghost edges = graph.edges();
        let mut k: usize = 0;
        while k < fps.len()
            invariant
                k <= fps.len(),
                ids == graph.ids(),
                edges == graph.edges(),
                out@ == first_occurrences(gathered(ids, edges, fps@.take(k as int))),
            decreases fps.len() - k,
        {
            let near = graph.adjacencies(&fps[k]);
            let found = relays_only(graph, &near);
            let ghost head = gathered(ids, edges, fps@.take(k as int));
            proof {
                assert(fps@.take(k + 1).drop_last() =~= fps@.take(k as int));
            }
            let mut i: usize = 0;
            while i < found.len()
                invariant
                    i <= found.len(),
                    out@ == first_occurrences(head + found@.take(i as int)),
                decreases found.len() - i,
            {
                proof {
                    let s = head + found@.take(i + 1);
                    assert(s.drop_last() =~= head + found@.take(i as int));
                }
                if !holds_adjacency(&out, &found[i]) {
                    out.push(found[i]);
                }
                i += 1;
            }
            proof {
                assert(found@.take(i as int) =~= found@);
            }
            k += 1;
        }
        proof {
            assert(fps@.take(k as int) =~= fps@);
            let g = gathered(ids, edges, fps@);
            lemma_first_occurrences(g);
            assert forall|a: AdjacencyDescriptor|
                #![trigger out@.contains(a)]
                out@.contains(a) <==> (edges.contains(a) && between_relays(ids)(a) && exists|k: int|
                    0 <= k < fps@.len() && a.touches(#[trigger] fps@[k])) by {
                lemma_first_occurrences_contains(g, a);
                lemma_gathered(ids, edges, fps@, a);
            }
            assert forall|i: int| 0 <= i < out@.len() implies between_relays(ids)(
                #[trigger] out@[i],
            ) by {
                assert(out@.contains(out@[i]));
            }
        }
        out
    }
}

} // verus!
