//! The byte string that a sealed bid commits to: the amount as 16 big-endian
//! bytes in two's complement, the 32-byte salt, and the auction id as 8
//! big-endian bytes. The caller hashes it and checks the hash against the
//! buyer's commitment.

use vstd::prelude::*;

verus! {

/// The low `n` bytes of `x`, most significant first.
pub open spec fn be_bytes(x: nat, n: nat) -> Seq<u8>
    decreases n,
{
    if n == 0 {
        Seq::empty()
    } else {
        be_bytes(x / 256, (n - 1) as nat).push((x % 256) as u8)
    }
}

/// The two's complement bit pattern of `x`, as an unsigned number.
pub open spec fn twos_complement(x: i128) -> nat {
    if x >= 0 {
        x as nat
    } else {
        (x + 0x1_0000_0000_0000_0000_0000_0000_0000_0000) as nat
    }
}

/// The preimage of the commitment to bidding `amount` with `salt` on auction
/// `id`.
pub open spec fn preimage(amount: i128, salt: Seq<u8>, id: u64) -> Seq<u8> {
    be_bytes(twos_complement(amount), 16) + salt + be_bytes(id as nat, 8)
}

/// Appends the low `n` bytes of `x`, most significant first.
fn push_be_bytes(out: &mut Vec<u8>, x: u128, n: usize)
    ensures
        final(out)@ == old(out)@ + be_bytes(x as nat, n as nat),
    decreases n,
{
    if n > 0 {
        push_be_bytes(out, x / 256, n - 1);
        out.push((x % 256) as u8);
        proof {
            assert(final(out)@ =~= old(out)@ + be_bytes(x as nat, n as nat));
        }
    } else {
        proof {
            assert(out@ =~= old(out)@ + be_bytes(x as nat, n as nat));
        }
    }
}

/// The bytes that a sealed bid of `amount` with `salt` on auction `id`
/// commits to.
pub fn sealed_bid_preimage(amount: i128, salt: &[u8; 32], id: u64) -> (r: Vec<u8>)
    ensures
        r@ == preimage(amount, salt@, id),
        r@.len() == 56,
{
    let bits: u128 = if amount >= 0 {
        amount as u128
    } else {
        u128::MAX - (-(amount + 1)) as u128
    };
    assert(bits == twos_complement(amount));
    let mut out: Vec<u8> = Vec::new();
    push_be_bytes(&mut out, bits, 16);
    let mut i: usize = 0;
    while i < 32
        invariant
            i <= 32,
            out@ == be_bytes(twos_complement(amount), 16) + salt@.subrange(0, i as int),
        decreases 32 - i,
    {
        out.push(salt[i]);
        proof {
            assert(salt@.subrange(0, i + 1) =~= salt@.subrange(0, i as int).push(salt@[i as int]));
        }
        i = i + 1;
    }
    proof {
        assert(salt@.subrange(0, 32) =~= salt@);
    }
    push_be_bytes(&mut out, id as u128, 8);
    proof {
        lemma_be_bytes_len(twos_complement(amount), 16);
        lemma_be_bytes_len(id as nat, 8);
    }
    out
}

proof fn lemma_be_bytes_len(x: nat, n: nat)
    ensures
        be_bytes(x, n).len() == n,
    decreases n,
{
    if n > 0 {
        lemma_be_bytes_len(x / 256, (n - 1) as nat);
    }
}

} // verus!
