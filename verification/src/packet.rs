//! The packet layer's values as this node carries them.
use vstd::prelude::*;

verus! {

/// A demultiplexing port on an identity.
pub type Dock = u32;

/// A single-use token that lets a remote party route one packet back to an
/// anonymous sender. The node stores and hands out reply blocks; it never
/// looks inside one.
#[derive(Clone, Debug, PartialEq, Eq)]
pub struct ReplyBlock {
    pub header: Vec<u8>,
    pub e2e_dest: [u8; 32],
}

/// An onion packet: `N` bytes whose layout belongs to the packet layer. A
/// link reads nothing of a packet but its size.
#[derive(Clone, Copy, Debug, PartialEq, Eq)]
pub struct RawPacket<const N: usize> {
    bytes: [u8; N],
}

impl<const N: usize> View for RawPacket<N> {
    type V = Seq<u8>;

    closed spec fn view(&self) -> Seq<u8> {
        self.bytes@
    }
}

/// `bytemuck::try_from_bytes` for a byte array: the array that the slice
/// holds, when the slice has the array's length, and nothing otherwise. A
/// byte array has no alignment that a slice could miss.
#[verifier::external_body]
fn array_from_bytes<const N: usize>(s: &[u8]) -> (r: Option<[u8; N]>)
    ensures
        r matches Some(a) ==> s@.len() == N && a@ == s@,
        r is None ==> s@.len() != N,
{
    bytemuck::try_from_bytes::<[u8; N]>(s).ok().copied()
}

/// `bytemuck::bytes_of` for a byte array: the bytes of the array.
#[verifier::external_body]
fn array_bytes<const N: usize>(a: &[u8; N]) -> (r: &[u8])
    ensures
        r@ == a@,
{
    bytemuck::bytes_of(a)
}

impl<const N: usize> RawPacket<N> {
    /// Every packet is `N` bytes long.
    pub proof fn lemma_len(self)
        ensures
            self@.len() == N,
    {
    }

    /// The packet with the given bytes.
    pub fn new(bytes: [u8; N]) -> (r: Self)
        ensures
            r@ == bytes@,
    {
        RawPacket { bytes }
    }

    /// The packet that a datagram holds: a datagram is a packet when it has
    /// exactly the size of one.
    pub fn try_from_bytes(datagram: &[u8]) -> (r: Option<Self>)
        ensures
            r is Some <==> datagram@.len() == N,
            r matches Some(p) ==> p@ == datagram@,
    {
        match array_from_bytes::<N>(datagram) {
            Some(bytes) => Some(RawPacket { bytes }),
            None => None,
        }
    }

    /// The bytes of the packet, as they travel in one datagram.
    pub fn to_bytes(&self) -> (r: Vec<u8>)
        ensures
            r@ == self@,
    {
        vstd::slice::slice_to_vec(array_bytes(&self.bytes))
    }
}

} // verus!
