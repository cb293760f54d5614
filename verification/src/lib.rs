//! Sinsemilla hash and commitment outside the circuit, with its bit-level
//! logic verified.
use vstd::arithmetic::power2::pow2;
use vstd::prelude::*;

pub mod addition;
pub mod curve;
pub mod domain;
pub mod laws;
pub mod pad;

verus! {

/// Number of bits of each message piece in SinsemillaHashToPoint.
pub const K: usize = 10;

/// The largest integer such that 2^C <= (r_P - 1) / 2, where r_P is the order of Pallas.
pub const C: usize = 253;

/// 1 / 2^K, as the little-endian representation of a Pallas base-field element.
pub const INV_TWO_POW_K: [u8; 32] = [
    1, 0, 192, 196, 160, 229, 70, 82, 221, 165, 74, 202, 85, 7, 62, 34, 0, 0, 0, 0, 0, 0, 0, 0, 0,
    0, 0, 0, 0, 0, 240, 63,
];

/// SWU hash-to-curve personalization for the Sinsemilla Q generators.
pub const Q_PERSONALIZATION: &'static str = "z.cash:SinsemillaQ";

/// SWU hash-to-curve personalization for the Sinsemilla S generators.
pub const S_PERSONALIZATION: &'static str = "z.cash:SinsemillaS";

/// The value of a little-endian bit string: bit `i` has weight 2^i.
pub open spec fn lebs2ip(bits: Seq<bool>) -> nat
    decreases bits.len(),
{
    if bits.len() == 0 {
        0
    } else {
        lebs2ip(bits.drop_last()) + if bits.last() {
            pow2((bits.len() - 1) as nat)
        } else {
            0
        }
    }
}

/// Converts a little-endian `K`-bit string into an integer.
pub fn lebs2ip_k(bits: [bool; K]) -> (r: u32)
    ensures
        r == lebs2ip(bits@),
        r < pow2(K as nat),
{
    let mut acc: u32 = 0;
    let mut i: usize = 0;
    proof {
        vstd::arithmetic::power2::lemma2_to64();
    }
    while i < K
        invariant
            i <= K,
            acc == lebs2ip(bits@.take(i as int)),
            acc < pow2(i as nat),
        decreases K - i,
    {
        proof {
            vstd::bits::lemma_u32_pow2_no_overflow(i as nat);
            vstd::bits::lemma_u32_pow2_no_overflow((i + 1) as nat);
            vstd::bits::lemma_u32_shl_is_mul(1u32, i as u32);
            vstd::arithmetic::power2::lemma_pow2_unfold((i + 1) as nat);
            assert(bits@.take((i + 1) as int).drop_last() =~= bits@.take(i as int));
        }
        let term: u32 = if bits[i] {
            1u32 << (i as u32)
        } else {
            0
        };
        acc = acc + term;
        i = i + 1;
    }
    proof {
        assert(bits@.take(K as int) =~= bits@);
    }
    acc
}

} // verus!
