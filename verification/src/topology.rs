//! The relay graph: the identities that this node has heard of and the
//! adjacencies between them, as far as the node's own rules read and write
//! them.
use crate::crypt::{lex_lt, Fingerprint, IdentityPublic, Signature};
use vstd::prelude::*;

verus! {

/// A link between two nodes, signed by both. `left` sorts before `right`.
#[derive(Clone, Copy, Debug, PartialEq, Eq)]
pub struct AdjacencyDescriptor {
    pub left: Fingerprint,
    pub right: Fingerprint,
    pub left_sig: Signature,
    pub right_sig: Signature,
    pub unix_timestamp: u64,
}

impl AdjacencyDescriptor {
    /// Whether `fingerprint` is one of the two ends.
    pub open spec fn touches(&self, fingerprint: Fingerprint) -> bool {
        self.left == fingerprint || self.right == fingerprint
    }

    /// Whether `fingerprint` is one of the two ends.
    pub fn is_incident(&self, fingerprint: &Fingerprint) -> (r: bool)
        ensures
            r == self.touches(*fingerprint),
    {
        self.left.same(fingerprint) || self.right.same(fingerprint)
    }

    /// Whether both descriptors agree in every field.
    pub fn same(&self, other: &AdjacencyDescriptor) -> (r: bool)
        ensures
            r == (*self == *other),
    {
        self.left.same(&other.left) && self.right.same(&other.right) && self.left_sig.same(
            &other.left_sig,
        ) && self.right_sig.same(&other.right_sig) && self.unix_timestamp == other.unix_timestamp
    }
}

/// What a node publishes about itself.
#[derive(Clone, Copy, Debug, PartialEq, Eq)]
pub struct IdentityDescriptor {
    /// The fingerprint of `identity_pk`.
    pub fingerprint: Fingerprint,
    pub identity_pk: IdentityPublic,
    pub onion_pk: [u8; 32],
    pub sig: Signature,
    pub unix_timestamp: u64,
    /// Whether the node takes part in route construction.
    pub is_relay: bool,
}

/// Why the graph refused an adjacency.
#[derive(Clone, Copy, Debug, PartialEq, Eq)]
pub enum AdjacencyError {
    /// `left` does not sort before `right`.
    Unordered,
    /// A signature does not verify.
    BadSignature,
    /// The graph already holds an adjacency between the two.
    Duplicate,
}

/// The first position at which an identity with `fingerprint` stands, or -1.
pub open spec fn identity_position(ids: Seq<IdentityDescriptor>, fingerprint: Fingerprint) -> int
    decreases ids.len(),
{
    if ids.len() == 0 {
        -1
    } else if ids[0].fingerprint == fingerprint {
        0
    } else {
        let r = identity_position(ids.drop_first(), fingerprint);
        if r < 0 {
            -1
        } else {
            r + 1
        }
    }
}

/// The identity published under `fingerprint`, if one is known.
pub open spec fn find_identity(ids: Seq<IdentityDescriptor>, fingerprint: Fingerprint) -> Option<
    IdentityDescriptor,
> {
    let i = identity_position(ids, fingerprint);
    if i >= 0 {
        Some(ids[i])
    } else {
        None
    }
}

/// Whether `fingerprint` is known and is a relay.
pub open spec fn is_relay(ids: Seq<IdentityDescriptor>, fingerprint: Fingerprint) -> bool {
    match find_identity(ids, fingerprint) {
        Some(d) => d.is_relay,
        None => false,
    }
}

/// The identities after `identity` is published: it takes the place of the
/// one with its fingerprint, or joins at the end.
pub open spec fn put_identity(ids: Seq<IdentityDescriptor>, identity: IdentityDescriptor) -> Seq<
    IdentityDescriptor,
> {
    let i = identity_position(ids, identity.fingerprint);
    if i >= 0 {
        ids.update(i, identity)
    } else {
        ids.push(identity)
    }
}

/// The test for an end of an adjacency.
pub open spec fn touching(fingerprint: Fingerprint) -> spec_fn(AdjacencyDescriptor) -> bool {
    |a: AdjacencyDescriptor| a.touches(fingerprint)
}

/// The adjacencies with `fingerprint` at one end, in the order of `edges`.
pub open spec fn incident(edges: Seq<AdjacencyDescriptor>, fingerprint: Fingerprint) -> Seq<
    AdjacencyDescriptor,
> {
    edges.filter(touching(fingerprint))
}

/// The test for an adjacency between two relays.
pub open spec fn between_relays(ids: Seq<IdentityDescriptor>) -> spec_fn(
    AdjacencyDescriptor,
) -> bool {
    |a: AdjacencyDescriptor| is_relay(ids, a.left) && is_relay(ids, a.right)
}

/// Whether an adjacency from `left` to `right` is among `edges`.
pub open spec fn has_edge(edges: Seq<AdjacencyDescriptor>, left: Fingerprint, right: Fingerprint) -> bool {
    exists|i: int| 0 <= i < edges.len() && edges[i].left == left && edges[i].right == right
}

/// What the graph answers to an adjacency that is offered to it, `signed`
/// saying whether both its signatures verify.
pub open spec fn adjacency_verdict(
    edges: Seq<AdjacencyDescriptor>,
    adjacency: AdjacencyDescriptor,
    signed: bool,
) -> Result<(), AdjacencyError> {
    if !lex_lt(adjacency.left@, adjacency.right@) {
        Err(AdjacencyError::Unordered)
    } else if !signed {
        Err(AdjacencyError::BadSignature)
    } else if has_edge(edges, adjacency.left, adjacency.right) {
        Err(AdjacencyError::Duplicate)
    } else {
        Ok(())
    }
}

/// What every graph built by this module satisfies: no fingerprint has two
/// identities, every adjacency runs from the smaller fingerprint to the
/// larger, and no two adjacencies join the same pair.
pub open spec fn graph_wf(ids: Seq<IdentityDescriptor>, edges: Seq<AdjacencyDescriptor>) -> bool {
    &&& forall|i: int, j: int|
        0 <= i < j < ids.len() ==> (#[trigger] ids[i]).fingerprint != (#[trigger] ids[j]).fingerprint
    &&& forall|i: int| 0 <= i < edges.len() ==> lex_lt((#[trigger] edges[i]).left@, edges[i].right@)
    &&& forall|i: int, j: int|
        0 <= i < j < edges.len() ==> !((#[trigger] edges[i]).left == (#[trigger] edges[j]).left
            && edges[i].right == edges[j].right)
}

/// What `identity_position` finds: the identity at a found position has the
/// fingerprint and none before it has; when nothing is found none has it.
pub proof fn lemma_identity_position(ids: Seq<IdentityDescriptor>, fingerprint: Fingerprint)
    ensures
        -1 <= identity_position(ids, fingerprint) < ids.len(),
        identity_position(ids, fingerprint) >= 0 ==> ids[identity_position(
            ids,
            fingerprint,
        )].fingerprint == fingerprint,
        forall|j: int|
            0 <= j < ids.len() && (j < identity_position(ids, fingerprint) || identity_position(
                ids,
                fingerprint,
            ) < 0) ==> (#[trigger] ids[j]).fingerprint != fingerprint,
    decreases ids.len(),
{
    if ids.len() > 0 && ids[0].fingerprint != fingerprint {
        let t = ids.drop_first();
        lemma_identity_position(t, fingerprint);
        assert forall|j: int|
            0 <= j < ids.len() && (j < identity_position(ids, fingerprint) || identity_position(
                ids,
                fingerprint,
            ) < 0) implies (#[trigger] ids[j]).fingerprint != fingerprint by {
            if j > 0 {
                assert(t[j - 1] == ids[j]);
            }
        }
    }
}

/// The position of a fingerprint is the one index that the lemma's three
/// facts allow.
pub proof fn lemma_identity_position_is(
    ids: Seq<IdentityDescriptor>,
    fingerprint: Fingerprint,
    i: int,
)
    requires
        0 <= i < ids.len(),
        ids[i].fingerprint == fingerprint,
        forall|j: int| 0 <= j < i ==> (#[trigger] ids[j]).fingerprint != fingerprint,
    ensures
        identity_position(ids, fingerprint) == i,
{
    lemma_identity_position(ids, fingerprint);
}

/// The relay graph.
pub struct RelayGraph {
    identities: Vec<IdentityDescriptor>,
    adjacencies: Vec<AdjacencyDescriptor>,
}

impl RelayGraph {
    /// The known identities, in the order in which they were first published.
    pub closed spec fn ids(&self) -> Seq<IdentityDescriptor> {
        self.identities@
    }

    /// The known adjacencies, in the order in which they were accepted.
    pub closed spec fn edges(&self) -> Seq<AdjacencyDescriptor> {
        self.adjacencies@
    }

    /// Well-formedness of the graph.
    pub open spec fn wf(&self) -> bool {
        graph_wf(self.ids(), self.edges())
    }

    /// The empty graph.
    pub fn new() -> (r: RelayGraph)
        ensures
            r.ids() == Seq::<IdentityDescriptor>::empty(),
            r.edges() == Seq::<AdjacencyDescriptor>::empty(),
            r.wf(),
    {
        RelayGraph { identities: Vec::new(), adjacencies: Vec::new() }
    }

    /// Where the identity with `fingerprint` stands, if it is known.
    fn locate(&self, fingerprint: &Fingerprint) -> (r: Option<usize>)
        ensures
            match r {
                Some(i) => i < self.ids().len() && i == identity_position(
                    self.ids(),
                    *fingerprint,
                ),
                None => identity_position(self.ids(), *fingerprint) < 0,
            },
    {
        let mut i: usize = 0;
        while i < self.identities.len()
            invariant
                i <= self.identities.len(),
                forall|j: int| 0 <= j < i ==> (#[trigger] self.identities@[j]).fingerprint != *fingerprint,
            decreases self.identities.len() - i,
        {
            if self.identities[i].fingerprint.same(fingerprint) {
                proof {
                    lemma_identity_position_is(self.identities@, *fingerprint, i as int);
                }
                return Some(i);
            }
            i += 1;
        }
        proof {
            lemma_identity_position(self.identities@, *fingerprint);
        }
        None
    }

    /// Publishes `identity`, in place of what was known under its
    /// fingerprint.
    pub fn insert_identity(&mut self, identity: IdentityDescriptor)
        ensures
            final(self).ids() == put_identity(old(self).ids(), identity),
            final(self).edges() == old(self).edges(),
            old(self).wf() ==> final(self).wf(),
    {
        proof {
            lemma_identity_position(self.identities@, identity.fingerprint);
        }
        match self.locate(&identity.fingerprint) {
            Some(i) => {
                self.identities[i] = identity;
            },
            None => {
                self.identities.push(identity);
            },
        }
    }

    /// Whether the graph holds an adjacency from `left` to `right`.
    fn joins(&self, left: &Fingerprint, right: &Fingerprint) -> (r: bool)
        ensures
            r == has_edge(self.edges(), *left, *right),
    {
        let mut i: usize = 0;
        while i < self.adjacencies.len()
            invariant
                i <= self.adjacencies.len(),
                forall|j: int|
                    0 <= j < i ==> !((#[trigger] self.adjacencies@[j]).left == *left
                        && self.adjacencies@[j].right == *right),
            decreases self.adjacencies.len() - i,
        {
            if self.adjacencies[i].left.same(left) && self.adjacencies[i].right.same(right) {
                return true;
            }
            i += 1;
        }
        false
    }

    /// Offers `adjacency` to the graph. `signed` says whether both its
    /// signatures verify under the keys of its two ends. The graph takes it
    /// when it is ordered, signed, and joins a pair that is not joined yet.
    pub fn insert_adjacency(&mut self, adjacency: AdjacencyDescriptor, signed: bool) -> (r: Result<
        (),
        AdjacencyError,
    >)
        ensures
            r == adjacency_verdict(old(self).edges(), adjacency, signed),
            r is Ok ==> final(self).edges() == old(self).edges().push(adjacency),
            r is Err ==> final(self).edges() == old(self).edges(),
            final(self).ids() == old(self).ids(),
            old(self).wf() ==> final(self).wf(),
    {
        if !adjacency.left.precedes(&adjacency.right) {
            return Err(AdjacencyError::Unordered);
        }
        if !signed {
            return Err(AdjacencyError::BadSignature);
        }
        if self.joins(&adjacency.left, &adjacency.right) {
            return Err(AdjacencyError::Duplicate);
        }
        self.adjacencies.push(adjacency);
        Ok(())
    }

    /// The identity published under `fingerprint`, if one is known.
    pub fn identity(&self, fingerprint: &Fingerprint) -> (r: Option<IdentityDescriptor>)
        ensures
            r == find_identity(self.ids(), *fingerprint),
    {
        match self.locate(fingerprint) {
            Some(i) => Some(self.identities[i]),
            None => None,
        }
    }

    /// Whether `fingerprint` is known and is a relay.
    pub fn is_relay(&self, fingerprint: &Fingerprint) -> (r: bool)
        ensures
            r == is_relay(self.ids(), *fingerprint),
    {
        match self.identity(fingerprint) {
            Some(d) => d.is_relay,
            None => false,
        }
    }

    /// Whether `adjacency` joins two relays.
    pub fn joins_relays(&self, adjacency: &AdjacencyDescriptor) -> (r: bool)
        ensures
            r == between_relays(self.ids())(*adjacency),
    {
        self.is_relay(&adjacency.left) && self.is_relay(&adjacency.right)
    }

    /// The adjacencies with `fingerprint` at one end.
    pub fn adjacencies(&self, fingerprint: &Fingerprint) -> (r: Vec<AdjacencyDescriptor>)
        ensures
            r@ == incident(self.edges(), *fingerprint),
    {
        let mut out: Vec<AdjacencyDescriptor> = Vec::new();
        let mut i: usize = 0;
        proof {
            reveal(Seq::filter);
        }
        while i < self.adjacencies.len()
            invariant
                i <= self.adjacencies.len(),
                out@ == self.adjacencies@.take(i as int).filter(touching(*fingerprint)),
            decreases self.adjacencies.len() - i,
        {
            let a = self.adjacencies[i];
            proof {
                let head = self.adjacencies@.take(i as int);
                head.lemma_filter_push(a, touching(*fingerprint));
                assert(head.push(a) =~= self.adjacencies@.take(i + 1));
            }
            if a.is_incident(fingerprint) {
                out.push(a);
            }
            i += 1;
        }
        proof {
            assert(self.adjacencies@.take(i as int) =~= self.adjacencies@);
        }
        out
    }

    /// All adjacencies.
    pub fn all_adjacencies(&self) -> (r: Vec<AdjacencyDescriptor>)
        ensures
            r@ == self.edges(),
    {
        self.adjacencies.clone()
    }

    /// The fingerprints of all identities.
    pub fn all_nodes(&self) -> (r: Vec<Fingerprint>)
        ensures
            r@ == self.ids().map_values(|d: IdentityDescriptor| d.fingerprint),
    {
        let mut out: Vec<Fingerprint> = Vec::new();
        let mut i: usize = 0;
        while i < self.identities.len()
            invariant
                i <= self.identities.len(),
                out@ == self.identities@.take(i as int).map_values(
                    |d: IdentityDescriptor| d.fingerprint,
                ),
            decreases self.identities.len() - i,
        {
            out.push(self.identities[i].fingerprint);
            i += 1;
            proof {
                assert(out@ =~= self.identities@.take(i as int).map_values(
                    |d: IdentityDescriptor| d.fingerprint,
                ));
            }
        }
        out
    }
}

} // verus!
