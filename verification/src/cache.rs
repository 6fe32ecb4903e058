//! The cache that remembers anonymous identities and haven sessions.
use moka::sync::Cache;
use vstd::prelude::*;

verus! {

/// `moka::sync::Cache`, a concurrent cache that forgets entries by age and
/// by number. Nothing of its inside is known here.
#[verifier::external_type_specification]
#[verifier::external_body]
#[verifier::reject_recursive_types(K)]
#[verifier::reject_recursive_types(V)]
#[verifier::reject_recursive_types(S)]
pub struct ExCache<K, V, S>(Cache<K, V, S>);

/// The longest time, in seconds, for which a cache can be told to keep an
/// entry: a thousand years.
pub const CACHE_MAX_SECS: u64 = 31_536_000_000;

} // verus!
