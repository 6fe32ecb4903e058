use earendil_core::crypt::{Fingerprint, IdentityPublic, Signature};
use earendil_core::topology::{AdjacencyDescriptor, AdjacencyError, IdentityDescriptor, RelayGraph};

fn fp(n: u8) -> Fingerprint {
    Fingerprint::from_bytes(&[n; 20])
}

fn identity(n: u8, is_relay: bool) -> IdentityDescriptor {
    IdentityDescriptor {
        fingerprint: fp(n),
        identity_pk: IdentityPublic::from_bytes(&[n; 32]),
        onion_pk: [n; 32],
        sig: Signature::from_bytes(&[n; 64]),
        unix_timestamp: 1_700_000_000,
        is_relay,
    }
}

fn adjacency(left: u8, right: u8) -> AdjacencyDescriptor {
    AdjacencyDescriptor {
        left: fp(left),
        right: fp(right),
        left_sig: Signature::from_bytes(&[left; 64]),
        right_sig: Signature::from_bytes(&[right; 64]),
        unix_timestamp: 1_700_000_000,
    }
}

#[test]
fn empty_graph_knows_nothing() {
    let g = RelayGraph::new();
    assert_eq!(g.identity(&fp(1)), None);
    assert!(g.all_adjacencies().is_empty());
    assert!(g.all_nodes().is_empty());
    assert!(g.adjacencies(&fp(1)).is_empty());
    assert!(!g.is_relay(&fp(1)));
}

#[test]
fn identities_are_found_by_fingerprint() {
    let mut g = RelayGraph::new();
    g.insert_identity(identity(1, true));
    g.insert_identity(identity(2, false));
    assert_eq!(g.identity(&fp(1)), Some(identity(1, true)));
    assert_eq!(g.identity(&fp(2)), Some(identity(2, false)));
    assert_eq!(g.identity(&fp(3)), None);
    assert!(g.is_relay(&fp(1)));
    assert!(!g.is_relay(&fp(2)));
    assert_eq!(g.all_nodes(), vec![fp(1), fp(2)]);
}

#[test]
fn publishing_again_replaces_in_place() {
    let mut g = RelayGraph::new();
    g.insert_identity(identity(1, false));
    g.insert_identity(identity(2, false));
    g.insert_identity(identity(1, true));
    assert_eq!(g.all_nodes(), vec![fp(1), fp(2)]);
    assert_eq!(g.identity(&fp(1)), Some(identity(1, true)));
}

#[test]
fn adjacency_must_run_from_small_to_large() {
    let mut g = RelayGraph::new();
    assert_eq!(
        g.insert_adjacency(adjacency(2, 1), true),
        Err(AdjacencyError::Unordered)
    );
    assert_eq!(
        g.insert_adjacency(adjacency(1, 1), true),
        Err(AdjacencyError::Unordered)
    );
    assert!(g.all_adjacencies().is_empty());
}

#[test]
fn adjacency_must_be_signed() {
    let mut g = RelayGraph::new();
    assert_eq!(
        g.insert_adjacency(adjacency(1, 2), false),
        Err(AdjacencyError::BadSignature)
    );
    assert!(g.all_adjacencies().is_empty());
}

#[test]
fn adjacency_is_taken_once() {
    let mut g = RelayGraph::new();
    assert_eq!(g.insert_adjacency(adjacency(1, 2), true), Ok(()));
    assert_eq!(
        g.insert_adjacency(adjacency(1, 2), true),
        Err(AdjacencyError::Duplicate)
    );
    let mut later = adjacency(1, 2);
    later.unix_timestamp += 1;
    assert_eq!(
        g.insert_adjacency(later, true),
        Err(AdjacencyError::Duplicate)
    );
    assert_eq!(g.all_adjacencies(), vec![adjacency(1, 2)]);
}

#[test]
fn unordered_is_reported_before_unsigned() {
    let mut g = RelayGraph::new();
    assert_eq!(
        g.insert_adjacency(adjacency(3, 1), false),
        Err(AdjacencyError::Unordered)
    );
}

#[test]
fn adjacencies_at_a_fingerprint() {
    let mut g = RelayGraph::new();
    assert_eq!(g.insert_adjacency(adjacency(1, 2), true), Ok(()));
    assert_eq!(g.insert_adjacency(adjacency(3, 4), true), Ok(()));
    assert_eq!(g.insert_adjacency(adjacency(2, 3), true), Ok(()));
    assert_eq!(g.adjacencies(&fp(2)), vec![adjacency(1, 2), adjacency(2, 3)]);
    assert_eq!(g.adjacencies(&fp(4)), vec![adjacency(3, 4)]);
    assert!(g.adjacencies(&fp(9)).is_empty());
    assert_eq!(
        g.all_adjacencies(),
        vec![adjacency(1, 2), adjacency(3, 4), adjacency(2, 3)]
    );
}

#[test]
fn joins_relays_reads_both_ends() {
    let mut g = RelayGraph::new();
    g.insert_identity(identity(1, true));
    g.insert_identity(identity(2, true));
    g.insert_identity(identity(3, false));
    assert!(g.joins_relays(&adjacency(1, 2)));
    assert!(!g.joins_relays(&adjacency(1, 3)));
    assert!(!g.joins_relays(&adjacency(1, 4)));
}

#[test]
fn descriptors_compare_field_by_field() {
    let a = adjacency(1, 2);
    assert!(a.same(&adjacency(1, 2)));
    let mut b = a;
    b.right_sig = Signature::from_bytes(&[9; 64]);
    assert!(!a.same(&b));
    let mut c = a;
    c.unix_timestamp = 5;
    assert!(!a.same(&c));
    assert!(a.is_incident(&fp(1)));
    assert!(a.is_incident(&fp(2)));
    assert!(!a.is_incident(&fp(3)));
}
