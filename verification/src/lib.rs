//! Client-side core of an onion-service message relay: the address codec
//! that turns 32-byte public keys into self-certifying service addresses,
//! the wire-protocol codec for user lists, message lists and requests, and
//! the non-blocking refresh scheduler that keeps both streams warm.

pub mod addr;
pub mod sched;
pub mod wire;

pub use addr::onion_to_pubkey;
pub use addr::pubkey_to_onion;
pub use wire::Message;
pub use wire::UserData;

use vstd::prelude::*;

verus! {

/// A peer's identity: exactly 32 bytes of public key material.
/// Equality is byte equality; the value is never mutated once built.
#[derive(Clone, Copy, Debug)]
pub struct Pubkey(pub [u8; 32]);

impl View for Pubkey {
    type V = Seq<u8>;

    open spec fn view(&self) -> Seq<u8> {
        self.0@
    }
}

/// Appends a byte slice to a byte vector.
pub(crate) fn push_bytes(dst: &mut Vec<u8>, src: &[u8])
    ensures
        final(dst)@ == old(dst)@ + src@,
{
    let mut i: usize = 0;
    while i < src.len()
        invariant
            0 <= i <= src@.len(),
            dst@ == old(dst)@ + src@.subrange(0, i as int),
        decreases src@.len() - i,
    {
        dst.push(src[i]);
        i = i + 1;
        proof {
            assert(dst@ =~= old(dst)@ + src@.subrange(0, i as int));
        }
    }
    proof {
        assert(dst@ =~= old(dst)@ + src@);
    }
}

} // verus!
