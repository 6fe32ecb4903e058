//! The administrative surface of the node: what it reports about itself,
//! its routes and the relay graph, and how it answers requests on sockets.
use crate::cache::CACHE_MAX_SECS;
use crate::crypt::{Fingerprint, IdentitySecret};
use crate::daemon::link_connection::relays_only;
use crate::packet::Dock;
use crate::socket::{recv_error_text, send_error_text, SocketRecvError, SocketSendError};
use crate::sorting::{is_stable_sort_by_left, lemma_stable_sort_unique, sorted_by_left};
use crate::text::{decimal, hex_encode, hex_of, push_decimal, push_quoted, quoted};
use crate::topology::{between_relays, AdjacencyDescriptor, IdentityDescriptor, RelayGraph};
use moka::sync::Cache;
use sosistab2_obfsudp::ObfsUdpSecret;
use std::time::Duration;
use vstd::prelude::*;
use vstd::string::*;

verus! {

/// How a control request on a socket can fail.
#[derive(Clone, Debug, PartialEq, Eq)]
pub enum ControlProtErr {
    SocketSendError(SocketSendError),
    SocketRecvError(SocketRecvError),
    NoSocket,
}

/// The description of a control error for people: the socket errors
/// describe themselves.
pub open spec fn control_error_text(e: ControlProtErr) -> Seq<char> {
    match e {
        ControlProtErr::SocketSendError(e) => send_error_text(e),
        ControlProtErr::SocketRecvError(e) => recv_error_text(e),
        ControlProtErr::NoSocket =>
            "No socket exists for this socket_id! Bind a socket to this id before trying to use it ^_^"@,
    }
}

impl ControlProtErr {
    /// A description of the error for people.
    pub fn message(&self) -> (r: String)
        ensures
            r@ == control_error_text(*self),
    {
        match self {
            ControlProtErr::SocketSendError(e) => e.message(),
            ControlProtErr::SocketRecvError(e) => e.message(),
            ControlProtErr::NoSocket => String::from_str(
                "No socket exists for this socket_id! Bind a socket to this id before trying to use it ^_^",
            ),
        }
    }
}

impl From<SocketSendError> for ControlProtErr {
    fn from(e: SocketSendError) -> (r: ControlProtErr) {
        ControlProtErr::SocketSendError(e)
    }
}

impl vstd::std_specs::convert::FromSpecImpl<SocketSendError> for ControlProtErr {
    open spec fn obeys_from_spec() -> bool {
        true
    }

    open spec fn from_spec(e: SocketSendError) -> ControlProtErr {
        ControlProtErr::SocketSendError(e)
    }
}

impl From<SocketRecvError> for ControlProtErr {
    fn from(e: SocketRecvError) -> (r: ControlProtErr) {
        ControlProtErr::SocketRecvError(e)
    }
}

impl vstd::std_specs::convert::FromSpecImpl<SocketRecvError> for ControlProtErr {
    open spec fn obeys_from_spec() -> bool {
        true
    }

    open spec fn from_spec(e: SocketRecvError) -> ControlProtErr {
        ControlProtErr::SocketRecvError(e)
    }
}

/// Why a request to the distributed hash table failed.
#[derive(Clone, Debug, PartialEq, Eq)]
pub enum DhtError {
    NetworkFailure(String),
}

/// Why a global RPC call failed.
#[derive(Clone, Copy, Debug, PartialEq, Eq)]
pub enum GlobalRpcError {
    SendError,
}

/// What a configured haven does with the traffic that reaches it.
#[derive(Clone, Copy, Debug, PartialEq, Eq)]
pub enum ForwardHandler {
    UdpService { listen_dock: Dock },
    TcpService { listen_dock: Dock },
    SimpleProxy { listen_dock: Dock },
}

/// A haven of the node's configuration, with the fingerprint of its
/// identity.
#[derive(Clone, Copy, Debug, PartialEq, Eq)]
pub struct HavenForwardConfig {
    pub fingerprint: Fingerprint,
    pub handler: ForwardHandler,
}

/// An inbound transport of the node's configuration.
#[derive(Clone, Debug, PartialEq, Eq)]
pub enum InRouteConfig {
    Obfsudp { listen_port: u16, secret: String },
}

/// What a peer needs to know to connect to an inbound transport.
#[derive(Clone, Debug, PartialEq, Eq)]
pub struct RouteInfo {
    pub fingerprint: String,
    pub connect: String,
    pub cookie: String,
}

/// The text of a `digraph` up to the role of the node.
pub const DOT_OPEN: &'static str =
    "digraph G {\n                subgraph cluster_0 {\n                    color=lightblue;\n                    label=\"myself      [";

/// The text between the role of the node and its fingerprint.
pub const DOT_MYSELF: &'static str =
    "]\";\n                    node [shape=Mdiamond,color=lightblue,style=filled];\n                    ";

/// The text between the fingerprint of the node and its neighbors.
pub const DOT_NEIGHBORS: &'static str =
    "\n                }\n                subgraph cluster_1 {\n                    color=lightpink\n                    label=\"my neighbors\";\n                    node [color=lightpink,style=filled]\n                    ";

/// The text between the neighbors and the nodes.
pub const DOT_NODES: &'static str =
    "\n                }\n                ";

/// The text between the nodes and the adjacencies.
pub const DOT_EDGES: &'static str =
    "\n                ";

/// The text that ends a `digraph`.
pub const DOT_CLOSE: &'static str =
    "\n            }";

/// The word for the node's role: a node with inbound transports is a relay.
pub open spec fn role(has_in_routes: bool) -> Seq<char> {
    if has_in_routes {
        "relay"@
    } else {
        "client"@
    }
}

/// One line for each neighbor: its fingerprint between quotes.
pub open spec fn neighbor_lines(neighbors: Seq<Fingerprint>) -> Seq<char>
    decreases neighbors.len(),
{
    if neighbors.len() == 0 {
        Seq::empty()
    } else {
        neighbor_lines(neighbors.drop_last()) + quoted(hex_of(neighbors.last()@)) + "\n"@
    }
}

/// One line for each adjacency: its two ends between quotes, `link` between
/// them and `end` after them.
pub open spec fn edge_lines(edges: Seq<AdjacencyDescriptor>, link: Seq<char>, end: Seq<char>) -> Seq<
    char,
>
    decreases edges.len(),
{
    if edges.len() == 0 {
        Seq::empty()
    } else {
        edge_lines(edges.drop_last(), link, end) + quoted(hex_of(edges.last().left@)) + link
            + quoted(hex_of(edges.last().right@)) + end
    }
}

/// One line for each node: its fingerprint between quotes, and a label made
/// of the first four and the last four digits of the fingerprint.
pub open spec fn node_lines(nodes: Seq<Fingerprint>) -> Seq<char>
    decreases nodes.len(),
{
    if nodes.len() == 0 {
        Seq::empty()
    } else {
        node_lines(nodes.drop_last()) + quoted(hex_of(nodes.last()@)) + " [label=\""@ + hex_of(
            nodes.last()@,
        ).subrange(0, 4) + ".."@ + hex_of(nodes.last()@).subrange(36, 40) + "\"]\n"@
    }
}

/// The graph as text for people: the node, its neighbors, and the
/// relay-to-relay adjacencies `edges`.
pub open spec fn human_dump(
    me: Fingerprint,
    has_in_routes: bool,
    neighbors: Seq<Fingerprint>,
    edges: Seq<AdjacencyDescriptor>,
) -> Seq<char> {
    "My fingerprint:\n"@ + hex_of(me@) + "    ["@ + role(has_in_routes)
        + "]\n\nMy neighbors:\n"@ + neighbor_lines(neighbors) + "\nRelay graph:\n"@ + edge_lines(
        edges,
        " -- "@,
        "\n"@,
    )
}

/// The graph as a Graphviz `digraph`: the node, its neighbors, the known
/// `nodes` and the adjacencies `edges`.
pub open spec fn dot_dump(
    me: Fingerprint,
    has_in_routes: bool,
    neighbors: Seq<Fingerprint>,
    nodes: Seq<Fingerprint>,
    edges: Seq<AdjacencyDescriptor>,
) -> Seq<char> {
    DOT_OPEN@
        + role(has_in_routes)
        + DOT_MYSELF@
        + quoted(hex_of(me@))
        + DOT_NEIGHBORS@
        + neighbor_lines(neighbors)
        + DOT_NODES@
        + node_lines(nodes)
        + DOT_EDGES@
        + edge_lines(edges, " -> "@, ";\n"@)
        + DOT_CLOSE@
}

/// The fingerprints of the identities, in their order.
pub open spec fn fingerprints_of(ids: Seq<IdentityDescriptor>) -> Seq<Fingerprint> {
    ids.map_values(|d: IdentityDescriptor| d.fingerprint)
}

/// The name of the kind of a haven's handler.
pub open spec fn handler_name(handler: ForwardHandler) -> Seq<char> {
    match handler {
        ForwardHandler::UdpService { .. } => "UdpService"@,
        ForwardHandler::TcpService { .. } => "TcpService"@,
        ForwardHandler::SimpleProxy { .. } => "SimpleProxy"@,
    }
}

/// The dock on which a haven's handler listens.
pub open spec fn handler_dock(handler: ForwardHandler) -> Dock {
    match handler {
        ForwardHandler::UdpService { listen_dock } => listen_dock,
        ForwardHandler::TcpService { listen_dock } => listen_dock,
        ForwardHandler::SimpleProxy { listen_dock } => listen_dock,
    }
}

/// The address of a haven as people write it: the fingerprint, a colon and
/// the dock.
pub open spec fn haven_address(haven: HavenForwardConfig) -> Seq<char> {
    hex_of(haven.fingerprint@) + ":"@ + decimal(handler_dock(haven.handler) as nat)
}

fn neighbor_text(neighbors: &Vec<Fingerprint>) -> (r: String)
    ensures
        r@ == neighbor_lines(neighbors@),
{
    let mut out = String::new();
    let mut i: usize = 0;
    while i < neighbors.len()
        invariant
            i <= neighbors.len(),
            out@ == neighbor_lines(neighbors@.take(i as int)),
        decreases neighbors.len() - i,
    {
        proof {
            assert(neighbors@.take(i + 1).drop_last() =~= neighbors@.take(i as int));
        }
        let hex = neighbors[i].to_hex();
        push_quoted(&mut out, hex.as_str());
        out.append("\n");
        i += 1;
    }
    proof {
        assert(neighbors@.take(i as int) =~= neighbors@);
    }
    out
}

fn edge_text(edges: &Vec<AdjacencyDescriptor>, link: &str, end: &str) -> (r: String)
    ensures
        r@ == edge_lines(edges@, link@, end@),
{
    let mut out = String::new();
    let mut i: usize = 0;
    while i < edges.len()
        invariant
            i <= edges.len(),
            out@ == edge_lines(edges@.take(i as int), link@, end@),
        decreases edges.len() - i,
    {
        proof {
            assert(edges@.take(i + 1).drop_last() =~= edges@.take(i as int));
        }
        let left = edges[i].left.to_hex();
        let right = edges[i].right.to_hex();
        push_quoted(&mut out, left.as_str());
        out.append(link);
        push_quoted(&mut out, right.as_str());
        out.append(end);
        i += 1;
    }
    proof {
        assert(edges@.take(i as int) =~= edges@);
    }
    out
}

fn node_text(nodes: &Vec<Fingerprint>) -> (r: String)
    ensures
        r@ == node_lines(nodes@),
{
    let mut out = String::new();
    let mut i: usize = 0;
    while i < nodes.len()
        invariant
            i <= nodes.len(),
            out@ == node_lines(nodes@.take(i as int)),
        decreases nodes.len() - i,
    {
        proof {
            assert(nodes@.take(i + 1).drop_last() =~= nodes@.take(i as int));
        }
        let node = nodes[i].to_hex();
        push_quoted(&mut out, node.as_str());
        out.append(" [label=\"");
        out.append(node.as_str().substring_char(0, 4));
        out.append("..");
        out.append(node.as_str().substring_char(36, 40));
        out.append("\"]\n");
        i += 1;
    }
    proof {
        assert(nodes@.take(i as int) =~= nodes@);
    }
    out
}

/// The state behind the administrative surface that is the node's own: who
/// it is, and the anonymous identities that it has derived from labels.
pub struct ControlProtocolImpl {
    anon_identities: AnonIdentities,
    global_identity: IdentitySecret,
    my_fingerprint: Fingerprint,
}

impl ControlProtocolImpl {
    /// The fingerprint of the node's own identity.
    pub closed spec fn me(&self) -> Fingerprint {
        self.my_fingerprint
    }

    /// The node's own identity secret.
    pub closed spec fn global_identity(&self) -> IdentitySecret {
        self.global_identity
    }

    /// Well-formedness: what the node remembers of anonymous identities is
    /// well-formed.
    pub closed spec fn wf(&self) -> bool {
        self.anon_identities.wf()
    }

    /// The surface of the node with the identity `global_identity`, whose
    /// fingerprint is `my_fingerprint`.
    pub fn new(global_identity: IdentitySecret, my_fingerprint: Fingerprint) -> (r: Self)
        ensures
            r.me() == my_fingerprint,
            r.global_identity() == global_identity,
            r.wf(),
    {
        Self { anon_identities: AnonIdentities::new(), global_identity, my_fingerprint }
    }

    /// The identity under which a socket is bound: the anonymous identity
    /// derived from the label `anon_id`, or the node's own when no label is
    /// given.
    pub fn bind_identity(&mut self, anon_id: Option<String>) -> (r: IdentitySecret)
        ensures
            final(self).me() == old(self).me(),
            final(self).global_identity() == old(self).global_identity(),
            old(self).wf() ==> final(self).wf(),
            anon_id is None ==> r == old(self).global_identity(),
            old(self).wf() ==> (anon_id matches Some(id) ==> r@ == anon_secret(id@)),
    {
        match anon_id {
            Some(id) => self.anon_identities.get(id.as_str()),
            None => self.global_identity,
        }
    }

    /// The answer to a request on the socket `found` under some id: the
    /// socket, or `NoSocket` when none is bound under that id.
    pub fn bound_socket<S>(found: Option<S>) -> (r: Result<S, ControlProtErr>)
        ensures
            r == (match found {
                Some(s) => Ok::<S, ControlProtErr>(s),
                None => Err(ControlProtErr::NoSocket),
            }),
    {
        match found {
            Some(s) => Ok(s),
            None => Err(ControlProtErr::NoSocket),
        }
    }

    /// The kind and the address of every configured haven.
    pub fn havens_info(&self, havens: &Vec<HavenForwardConfig>) -> (r: Vec<(String, String)>)
        ensures
            r@.len() == havens@.len(),
            forall|i: int|
                0 <= i < havens@.len() ==> (#[trigger] r@[i]).0@ == handler_name(havens@[i].handler)
                    && r@[i].1@ == haven_address(havens@[i]),
    {
        let mut out: Vec<(String, String)> = Vec::new();
        let mut i: usize = 0;
        while i < havens.len()
            invariant
                i <= havens.len(),
                out@.len() == i,
                forall|j: int|
                    0 <= j < i ==> (#[trigger] out@[j]).0@ == handler_name(havens@[j].handler)
                        && out@[j].1@ == haven_address(havens@[j]),
            decreases havens.len() - i,
        {
            let haven = havens[i];
            let mut address = haven.fingerprint.to_hex();
            address.append(":");
            let entry = match haven.handler {
                ForwardHandler::UdpService { listen_dock } => {
                    push_decimal(&mut address, listen_dock);
                    (String::from_str("UdpService"), address)
                },
                ForwardHandler::TcpService { listen_dock } => {
                    push_decimal(&mut address, listen_dock);
                    (String::from_str("TcpService"), address)
                },
                ForwardHandler::SimpleProxy { listen_dock } => {
                    push_decimal(&mut address, listen_dock);
                    (String::from_str("SimpleProxy"), address)
                },
            };
            out.push(entry);
            i += 1;
        }
        out
    }

    /// What a peer needs to connect to each inbound transport, under the
    /// transport's name and in the order of `in_routes`.
    pub fn my_routes(&self, in_routes: &Vec<(String, InRouteConfig)>) -> (r: Vec<
        (String, RouteInfo),
    >)
        ensures
            r@.len() == in_routes@.len(),
            forall|i: int|
                0 <= i < in_routes@.len() ==> (#[trigger] r@[i]).0@ == in_routes@[i].0@
                    && route_info_of(self.me(), in_routes@[i].1, r@[i].1),
    {
        let mut out: Vec<(String, RouteInfo)> = Vec::new();
        let mut i: usize = 0;
        while i < in_routes.len()
            invariant
                i <= in_routes.len(),
                out@.len() == i,
                forall|j: int|
                    0 <= j < i ==> (#[trigger] out@[j]).0@ == in_routes@[j].0@ && route_info_of(
                        self.me(),
                        in_routes@[j].1,
                        out@[j].1,
                    ),
            decreases in_routes.len() - i,
        {
            let name = in_routes[i].0.clone();
            match &in_routes[i].1 {
                InRouteConfig::Obfsudp { listen_port, secret } => {
                    let info = self.route_info(*listen_port, secret.as_str());
                    out.push((name, info));
                },
            }
            i += 1;
        }
        out
    }

    /// What a peer needs to connect to the obfuscated-UDP transport that
    /// listens on `listen_port` with the secret `secret`.
    pub fn route_info(&self, listen_port: u16, secret: &str) -> (r: RouteInfo)
        ensures
            r.fingerprint@ == hex_of(self.me()@),
            r.connect@ == "<YOUR_IP>:"@ + decimal(listen_port as nat),
            r.cookie@ == hex_of(obfs_public_key(blake3_digest(vstd::utf8::encode_utf8(secret@)))),
    {
        let digest = blake3_hash(secret.as_bytes());
        let public = obfsudp_public(digest);
        let mut connect = String::from_str("<YOUR_IP>:");
        push_decimal(&mut connect, listen_port as u32);
        RouteInfo {
            fingerprint: self.my_fingerprint.to_hex(),
            connect,
            cookie: hex_encode(&public),
        }
    }

    /// The relay graph as text. `has_in_routes` says whether the node has
    /// inbound transports, `neighbors` are the fingerprints of its current
    /// neighbors. For people the text lists the relay-to-relay adjacencies;
    /// otherwise it is a Graphviz `digraph` of all nodes and adjacencies.
    /// Either way the adjacencies are sorted by their left end, those with
    /// the same left end staying in the order of the graph: the text is the
    /// one made of the stable sort of the adjacencies, which exists.
    pub fn graph_dump(
        &self,
        has_in_routes: bool,
        neighbors: &Vec<Fingerprint>,
        graph: &RelayGraph,
        human: bool,
    ) -> (r: String)
        ensures
            human ==> forall|sorted: Seq<AdjacencyDescriptor>|
                #![trigger human_dump(self.me(), has_in_routes, neighbors@, sorted)]
                is_stable_sort_by_left(graph.edges().filter(between_relays(graph.ids())), sorted)
                    ==> r@ == human_dump(self.me(), has_in_routes, neighbors@, sorted),
            !human ==> forall|sorted: Seq<AdjacencyDescriptor>|
                #![trigger dot_dump(self.me(), has_in_routes, neighbors@, fingerprints_of(graph.ids()), sorted)]
                is_stable_sort_by_left(graph.edges(), sorted) ==> r@ == dot_dump(
                    self.me(),
                    has_in_routes,
                    neighbors@,
                    fingerprints_of(graph.ids()),
                    sorted,
                ),
            human ==> exists|sorted: Seq<AdjacencyDescriptor>|
                #![trigger human_dump(self.me(), has_in_routes, neighbors@, sorted)]
                is_stable_sort_by_left(graph.edges().filter(between_relays(graph.ids())), sorted),
            !human ==> exists|sorted: Seq<AdjacencyDescriptor>|
                #![trigger dot_dump(self.me(), has_in_routes, neighbors@, fingerprints_of(graph.ids()), sorted)]
                is_stable_sort_by_left(graph.edges(), sorted),
    {
        let my_fp = self.my_fingerprint.to_hex();
        let relay_or_client = if has_in_routes {
            "relay"
        } else {
            "client"
        };
        let all_neighs = neighbor_text(neighbors);
        if human {
            let all = graph.all_adjacencies();
            // only display relays
            let relays = relays_only(graph, &all);
            let sorted = sorted_by_left(relays);
            let all_adjs = edge_text(&sorted, " -- ", "\n");
            let mut out = String::from_str("My fingerprint:\n");
            out.append(my_fp.as_str());
            out.append("    [");
            out.append(relay_or_client);
            out.append("]\n\nMy neighbors:\n");
            out.append(all_neighs.as_str());
            out.append("\nRelay graph:\n");
            out.append(all_adjs.as_str());
            proof {
                assert(out@ == human_dump(self.me(), has_in_routes, neighbors@, sorted@));
                assert forall|other: Seq<AdjacencyDescriptor>|
                    is_stable_sort_by_left(
                        graph.edges().filter(between_relays(graph.ids())),
                        other,
                    ) implies out@ == #[trigger] human_dump(
                    self.me(),
                    has_in_routes,
                    neighbors@,
                    other,
                ) by {
                    lemma_stable_sort_unique(
                        graph.edges().filter(between_relays(graph.ids())),
                        sorted@,
                        other,
                    );
                }
            }
            out
        } else {
            let sorted = sorted_by_left(graph.all_adjacencies());
            let all_adjs = edge_text(&sorted, " -> ", ";\n");
            let nodes = graph.all_nodes();
            let all_nodes = node_text(&nodes);
            let mut out = String::from_str(DOT_OPEN);
            out.append(relay_or_client);
            out.append(DOT_MYSELF);
            push_quoted(&mut out, my_fp.as_str());
            out.append(DOT_NEIGHBORS);
            out.append(all_neighs.as_str());
            out.append(DOT_NODES);
            out.append(all_nodes.as_str());
            out.append(DOT_EDGES);
            out.append(all_adjs.as_str());
            out.append(DOT_CLOSE);
            proof {
                assert(out@ == dot_dump(
                    self.me(),
                    has_in_routes,
                    neighbors@,
                    fingerprints_of(graph.ids()),
                    sorted@,
                ));
                assert forall|other: Seq<AdjacencyDescriptor>|
                    is_stable_sort_by_left(graph.edges(), other) implies out@ == #[trigger] dot_dump(
                    self.me(),
                    has_in_routes,
                    neighbors@,
                    fingerprints_of(graph.ids()),
                    other,
                ) by {
                    lemma_stable_sort_unique(graph.edges(), sorted@, other);
                }
            }
            out
        }
    }

    /// What a global RPC call comes to: its result when the call went
    /// through and the remote side answered with one, `SendError` when the
    /// transport failed, no answer came, or the remote side reported an
    /// error.
    pub fn global_rpc_outcome<V, T, E>(called: Result<Option<Result<V, E>>, T>) -> (r: Result<
        V,
        GlobalRpcError,
    >)
        ensures
            r == (match called {
                Ok(Some(Ok(v))) => Ok::<V, GlobalRpcError>(v),
                _ => Err(GlobalRpcError::SendError),
            }),
    {
        match called {
            Ok(Some(Ok(v))) => Ok(v),
            _ => Err(GlobalRpcError::SendError),
        }
    }

    /// What a lookup of a rendezvous comes to: the answer of the lookup, or
    /// a network failure when it did not end in time.
    pub fn rendezvous_outcome<L>(looked_up: Option<Result<Option<L>, DhtError>>) -> (r: Result<
        Option<L>,
        DhtError,
    >)
        ensures
            match looked_up {
                Some(res) => r == res,
                None => r matches Err(DhtError::NetworkFailure(why)) && why@
                    == "dht_get({key}) timed out"@,
            },
    {
        match looked_up {
            Some(res) => res,
            None => Err(DhtError::NetworkFailure(String::from_str("dht_get({key}) timed out"))),
        }
    }
}

/// Whether `info` is what a peer needs to connect to the transport `route`
/// of the node `me`: the node's fingerprint, the port behind a placeholder
/// for the node's address, and the public key of the transport, which is
/// derived from the digest of its secret.
pub open spec fn route_info_of(me: Fingerprint, route: InRouteConfig, info: RouteInfo) -> bool {
    match route {
        InRouteConfig::Obfsudp { listen_port, secret } => {
            &&& info.fingerprint@ == hex_of(me@)
            &&& info.connect@ == "<YOUR_IP>:"@ + decimal(listen_port as nat)
            &&& info.cookie@ == hex_of(obfs_public_key(blake3_digest(vstd::utf8::encode_utf8(secret@))))
        },
    }
}

/// The BLAKE3 digest of a byte string: 32 bytes.
pub uninterp spec fn blake3_digest(input: Seq<u8>) -> Seq<u8>;

/// `blake3::hash`: the digest of `input`.
#[verifier::external_body]
pub(crate) fn blake3_hash(input: &[u8]) -> (r: [u8; 32])
    ensures
        r@ == blake3_digest(input@),
{
    *blake3::hash(input).as_bytes()
}

/// The public key of the obfuscated-UDP transport whose secret key has the
/// given 32 bytes.
pub uninterp spec fn obfs_public_key(secret: Seq<u8>) -> Seq<u8>;

/// `ObfsUdpSecret::to_public`: the public key that belongs to the secret
/// key with the bytes `secret`.
#[verifier::external_body]
pub(crate) fn obfsudp_public(secret: [u8; 32]) -> (r: [u8; 32])
    ensures
        r@ == obfs_public_key(secret@),
{
    *ObfsUdpSecret::from_bytes(secret).to_public().as_bytes()
}

/// How many anonymous identities are remembered.
pub const ANON_IDENTITIES_CAPACITY: u64 = 100_000;

/// After how many seconds without use an anonymous identity is forgotten.
pub const ANON_IDENTITIES_IDLE_SECS: u64 = 3600;

/// The secret of the anonymous identity with the label `label`: the
/// BLAKE3 digest of the label's bytes.
pub open spec fn anon_secret(label: Seq<char>) -> Seq<u8> {
    blake3_digest(vstd::utf8::encode_utf8(label))
}

/// Every pair of a label and a secret that the cache was ever given. What
/// the cache still holds of them changes with time and is not spoken of.
pub uninterp spec fn cache_given(c: Cache<String, IdentitySecret>) -> Set<(Seq<char>, IdentitySecret)>;

/// `Cache::builder` with `max_capacity`, `time_to_idle` and `build`: a cache
/// that was given nothing yet. The builder does not take an idle time of
/// more than a thousand years, which is left out.
#[verifier::external_body]
fn anon_cache_new(max_capacity: u64, idle_secs: u64) -> (c: Cache<String, IdentitySecret>)
    requires
        idle_secs <= CACHE_MAX_SECS,
    ensures
        cache_given(c) == Set::<(Seq<char>, IdentitySecret)>::empty(),
{
    Cache::builder().max_capacity(max_capacity).time_to_idle(Duration::from_secs(idle_secs)).build()
}

/// `Cache::get_with_by_ref`: the secret that the cache holds for `key`, or
/// else the secret made of `digest`, which the cache is then given for
/// `key`. What the cache holds for a key is something that it was given for
/// that key.
#[verifier::external_body]
fn anon_cache_get_with(cache: &mut Cache<String, IdentitySecret>, key: &str, digest: &[u8; 32]) -> (r:
    IdentitySecret)
    ensures
        r@ == digest@ || cache_given(*old(cache)).contains((key@, r)),
        cache_given(*final(cache)).subset_of(cache_given(*old(cache)).insert((key@, r))),
{
    cache.get_with_by_ref(key, || IdentitySecret::from_bytes(digest))
}

/// The anonymous identities that the node has derived from labels.
pub struct AnonIdentities {
    map: Cache<String, IdentitySecret>,
}

impl AnonIdentities {
    /// Well-formedness: whatever was remembered for a label is the secret
    /// derived from that label.
    pub closed spec fn wf(&self) -> bool {
        forall|label: Seq<char>, secret: IdentitySecret| #[trigger]
            cache_given(self.map).contains((label, secret)) ==> secret@ == anon_secret(label)
    }

    /// No identity is remembered yet.
    pub fn new() -> (r: Self)
        ensures
            r.wf(),
    {
        let map = anon_cache_new(ANON_IDENTITIES_CAPACITY, ANON_IDENTITIES_IDLE_SECS);
        Self { map }
    }

    /// The anonymous identity with the label `id`.
    pub fn get(&mut self, id: &str) -> (r: IdentitySecret)
        ensures
            old(self).wf() ==> final(self).wf() && r@ == anon_secret(id@),
    {
        let pseudo_secret = blake3_hash(id.as_bytes());
        anon_cache_get_with(&mut self.map, id, &pseudo_secret)
    }
}

/// The secret of the anonymous identity with the label `id`, derived anew.
pub fn derive_anon_identity(id: &str) -> (r: IdentitySecret)
    ensures
        r@ == anon_secret(id@),
{
    let pseudo_secret = blake3_hash(id.as_bytes());
    IdentitySecret::from_bytes(&pseudo_secret)
}

} // verus!
