//! The values that neighbors exchange over the control stream of a link.
use crate::crypt::{IdentityPublic, Signature};
use vstd::prelude::*;

verus! {

/// A node's answer to `authenticate`: its identity, and its signature over
/// the public key of its end of the multiplex.
#[derive(Clone, Copy, Debug, PartialEq, Eq)]
pub struct AuthResponse {
    pub full_pk: IdentityPublic,
    pub signature: Signature,
}

/// A node's answer to `info`.
#[derive(Clone, Debug, PartialEq, Eq)]
pub struct InfoResponse {
    pub version: String,
}

} // verus!
