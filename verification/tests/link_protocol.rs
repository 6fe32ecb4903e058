use earendil_core::crypt::{Fingerprint, IdentityPublic, Signature};
use earendil_core::daemon::link_connection::{is_neighbor, relays_only, LinkProtocolImpl};
use earendil_core::topology::{AdjacencyDescriptor, IdentityDescriptor, RelayGraph};

fn fp(n: u8) -> Fingerprint {
    Fingerprint::from_bytes(&[n; 20])
}

fn identity(n: u8, is_relay: bool) -> IdentityDescriptor {
    IdentityDescriptor {
        fingerprint: fp(n),
        identity_pk: IdentityPublic::from_bytes(&[n; 32]),
        onion_pk: [n; 32],
        sig: Signature::from_bytes(&[n; 64]),
        unix_timestamp: 1_700_000_000,
        is_relay,
    }
}

fn half_signed(left: u8, right: u8) -> AdjacencyDescriptor {
    AdjacencyDescriptor {
        left: fp(left),
        right: fp(right),
        left_sig: Signature::from_bytes(&[left; 64]),
        right_sig: Signature::from_bytes(&[0; 64]),
        unix_timestamp: 1_700_000_000,
    }
}

fn signed(left: u8, right: u8) -> AdjacencyDescriptor {
    AdjacencyDescriptor {
        right_sig: Signature::from_bytes(&[right; 64]),
        ..half_signed(left, right)
    }
}

fn graph_with_edges(relays: &[u8], clients: &[u8], edges: &[(u8, u8)]) -> RelayGraph {
    let mut g = RelayGraph::new();
    for r in relays {
        g.insert_identity(identity(*r, true));
    }
    for c in clients {
        g.insert_identity(identity(*c, false));
    }
    for (l, r) in edges {
        assert_eq!(g.insert_adjacency(signed(*l, *r), true), Ok(()));
    }
    g
}

#[test]
fn sign_adjacency_completes_a_neighbors_descriptor() {
    // B and C are relays, B < C, and C is asked to sign
    let service = LinkProtocolImpl::new(fp(0x0c));
    let neighbors = vec![fp(0x0b)];
    let mut graph = RelayGraph::new();
    let mine = Signature::from_bytes(&[0x0c; 64]);
    let got = service.sign_adjacency(&neighbors, &mut graph, half_signed(0x0b, 0x0c), mine, true);
    assert_eq!(got, Some(signed(0x0b, 0x0c)));
    assert_eq!(graph.all_adjacencies(), vec![signed(0x0b, 0x0c)]);
}

#[test]
fn sign_adjacency_refuses_when_the_signer_is_not_on_the_right() {
    // A asks B to sign {left = A, right = B}, but the request names C on the right
    let service = LinkProtocolImpl::new(fp(0x0b));
    let neighbors = vec![fp(0x0a)];
    let mut graph = RelayGraph::new();
    let mine = Signature::from_bytes(&[0x0b; 64]);
    let got = service.sign_adjacency(&neighbors, &mut graph, half_signed(0x0a, 0x0c), mine, true);
    assert_eq!(got, None);
    assert!(graph.all_adjacencies().is_empty());
}

#[test]
fn sign_adjacency_refuses_a_descriptor_that_is_not_ordered() {
    let service = LinkProtocolImpl::new(fp(0x0a));
    let neighbors = vec![fp(0x0b)];
    let mut graph = RelayGraph::new();
    let mine = Signature::from_bytes(&[0x0a; 64]);
    let got = service.sign_adjacency(&neighbors, &mut graph, half_signed(0x0b, 0x0a), mine, true);
    assert_eq!(got, None);
    assert!(!service.accepts_adjacency(&neighbors, &half_signed(0x0b, 0x0a)));
    assert!(graph.all_adjacencies().is_empty());
}

#[test]
fn sign_adjacency_refuses_a_stranger() {
    let service = LinkProtocolImpl::new(fp(0x0c));
    let neighbors = vec![fp(0x01), fp(0x02)];
    let mut graph = RelayGraph::new();
    let mine = Signature::from_bytes(&[0x0c; 64]);
    let got = service.sign_adjacency(&neighbors, &mut graph, half_signed(0x0b, 0x0c), mine, true);
    assert_eq!(got, None);
    assert!(graph.all_adjacencies().is_empty());
}

#[test]
fn sign_adjacency_answers_none_when_the_graph_refuses() {
    let service = LinkProtocolImpl::new(fp(0x0c));
    let neighbors = vec![fp(0x0b)];
    let mine = Signature::from_bytes(&[0x0c; 64]);

    // a signature that does not verify
    let mut graph = RelayGraph::new();
    let got = service.sign_adjacency(&neighbors, &mut graph, half_signed(0x0b, 0x0c), mine, false);
    assert_eq!(got, None);
    assert!(graph.all_adjacencies().is_empty());

    // a pair that is joined already
    let mut graph = graph_with_edges(&[], &[], &[(0x0b, 0x0c)]);
    let got = service.sign_adjacency(&neighbors, &mut graph, half_signed(0x0b, 0x0c), mine, true);
    assert_eq!(got, None);
    assert_eq!(graph.all_adjacencies().len(), 1);
}

#[test]
fn adjacency_handshake_between_three_nodes() {
    // A is a client of the relay B; B and C are relays with B < C.
    let a = 0x0a;
    let b = 0x0b;
    let c = 0x0c;

    // A (client) asks B to sign {left = A, right = B}. A is a neighbor of B
    // and sorts before it, but A is no relay: the graph of B holds no
    // identity under which the signature of A could verify.
    let at_b = LinkProtocolImpl::new(fp(b));
    let mut graph_b = RelayGraph::new();
    let neighbors_of_b = vec![fp(a), fp(c)];
    let refused = at_b.sign_adjacency(
        &neighbors_of_b,
        &mut graph_b,
        half_signed(a, b),
        Signature::from_bytes(&[b; 64]),
        false,
    );
    assert_eq!(refused, None);
    assert!(graph_b.all_adjacencies().is_empty());

    // B asks C to sign {left = B, right = C}
    let at_c = LinkProtocolImpl::new(fp(c));
    let mut graph_c = RelayGraph::new();
    let neighbors_of_c = vec![fp(b)];
    let complete = at_c.sign_adjacency(
        &neighbors_of_c,
        &mut graph_c,
        half_signed(b, c),
        Signature::from_bytes(&[c; 64]),
        true,
    );
    assert_eq!(complete, Some(signed(b, c)));
    // B takes the completed descriptor into its own graph
    assert_eq!(graph_b.insert_adjacency(complete.unwrap(), true), Ok(()));
    assert_eq!(graph_b.all_adjacencies(), graph_c.all_adjacencies());
}

#[test]
fn info_carries_the_version() {
    let service = LinkProtocolImpl::new(fp(1));
    assert_eq!(service.info("0.3.1").version, "0.3.1");
}

#[test]
fn identity_reads_the_graph() {
    let service = LinkProtocolImpl::new(fp(1));
    let graph = graph_with_edges(&[2], &[3], &[]);
    assert_eq!(service.identity(&graph, fp(2)), Some(identity(2, true)));
    assert_eq!(service.identity(&graph, fp(3)), Some(identity(3, false)));
    assert_eq!(service.identity(&graph, fp(4)), None);
}

#[test]
fn adjacencies_join_relays_only() {
    let service = LinkProtocolImpl::new(fp(1));
    // 1, 2, 3 are relays, 4 is a client, 5 is unknown
    let graph = graph_with_edges(&[1, 2, 3], &[4], &[(1, 2), (2, 4), (2, 3), (3, 5)]);
    let got = service.adjacencies(&graph, vec![fp(2), fp(3)]);
    assert_eq!(got, vec![signed(1, 2), signed(2, 3)]);
    for adj in &got {
        assert!(graph.is_relay(&adj.left) && graph.is_relay(&adj.right));
    }
}

#[test]
fn adjacencies_list_each_edge_once() {
    let service = LinkProtocolImpl::new(fp(1));
    let graph = graph_with_edges(&[1, 2, 3], &[], &[(1, 2), (1, 3), (2, 3)]);
    // the edges of 1 and of 2 overlap in (1, 2), and not next to each other
    let got = service.adjacencies(&graph, vec![fp(1), fp(2)]);
    assert_eq!(got, vec![signed(1, 2), signed(1, 3), signed(2, 3)]);
    // asking twice for one fingerprint changes nothing
    let again = service.adjacencies(&graph, vec![fp(1), fp(1), fp(2), fp(1)]);
    assert_eq!(again, got);
    for (i, x) in got.iter().enumerate() {
        for (j, y) in got.iter().enumerate() {
            assert_eq!(i == j, x == y);
        }
    }
}

#[test]
fn adjacencies_of_nothing_and_of_strangers() {
    let service = LinkProtocolImpl::new(fp(1));
    let graph = graph_with_edges(&[1, 2], &[], &[(1, 2)]);
    assert!(service.adjacencies(&graph, vec![]).is_empty());
    assert!(service.adjacencies(&graph, vec![fp(9)]).is_empty());
}

#[test]
fn neighbors_and_relay_filter() {
    let neighbors = vec![fp(1), fp(2)];
    assert!(is_neighbor(&neighbors, &fp(2)));
    assert!(!is_neighbor(&neighbors, &fp(3)));
    assert!(!is_neighbor(&vec![], &fp(1)));

    let graph = graph_with_edges(&[1, 2], &[3], &[]);
    let list = vec![signed(1, 3), signed(1, 2), signed(2, 3)];
    assert_eq!(relays_only(&graph, &list), vec![signed(1, 2)]);
}
