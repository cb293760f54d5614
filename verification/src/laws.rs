//! Properties of padding, piece indices and SinsemillaHashToPoint that hold for
//! every input.
use vstd::arithmetic::power2::{lemma_pow2_pos, lemma_pow2_unfold, pow2};
use vstd::prelude::*;

use crate::addition::incomplete_add;
use crate::curve::{spec_point_add, spec_point_mul, zero_bytes};
use crate::domain::{commit_spec, generator_spec, hash_fold, hash_to_point_spec, num_pieces, piece};
use crate::pad::{pad_bits, padding_len, zeros};
use crate::{lebs2ip, K};

verus! {

/// The `n` little-endian bits of `j`: bit `i` is set when `j / 2^i` is odd.
pub open spec fn le_bits(j: nat, n: nat) -> Seq<bool> {
    Seq::new(n, |i: int| (j / pow2(i as nat)) % 2 == 1)
}

/// Padding keeps the message as a prefix, appends only zero bits, and ends on the
/// least multiple of `K` that is at least the message's length; the padded message
/// has ⌈len / K⌉ pieces.
pub proof fn law_pad_bits(msg: Seq<bool>)
    ensures
        pad_bits(msg).len() % (K as nat) == 0,
        msg.len() <= pad_bits(msg).len() < msg.len() + K,
        pad_bits(msg).subrange(0, msg.len() as int) == msg,
        forall|i: int| msg.len() <= i < pad_bits(msg).len() ==> !#[trigger] pad_bits(msg)[i],
        num_pieces(msg) == (msg.len() + K - 1) / (K as int),
{
    assert(pad_bits(msg).subrange(0, msg.len() as int) =~= msg);
}

/// Padding a padded message changes nothing, so a message and its padding hash to
/// the same point.
pub proof fn law_padding_is_invisible(q: Seq<u8>, msg: Seq<bool>)
    ensures
        pad_bits(pad_bits(msg)) == pad_bits(msg),
        hash_to_point_spec(q, pad_bits(msg)) == hash_to_point_spec(q, msg),
{
    law_pad_bits(msg);
    assert(padding_len(pad_bits(msg).len()) == 0);
    assert(pad_bits(pad_bits(msg)) =~= pad_bits(msg));
}

/// The empty message hashes to Q.
pub proof fn law_empty_message(q: Seq<u8>)
    ensures
        hash_to_point_spec(q, Seq::<bool>::empty()) == Some(q),
{
    assert(pad_bits(Seq::<bool>::empty()) =~= Seq::<bool>::empty());
}

/// Once the accumulator is ⊥, every later accumulator is ⊥.
pub proof fn law_bottom_absorbs(q: Option<Seq<u8>>, padded: Seq<bool>, n: nat, m: nat)
    requires
        n <= m,
        hash_fold(q, padded, n) is None,
    ensures
        hash_fold(q, padded, m) is None,
    decreases m - n,
{
    if n < m {
        law_bottom_absorbs(q, padded, n, (m - 1) as nat);
    }
}

proof fn lemma_lebs2ip_low_bit_first(s: Seq<bool>)
    requires
        s.len() > 0,
    ensures
        lebs2ip(s) == (if s[0] {
            1nat
        } else {
            0nat
        }) + 2 * lebs2ip(s.drop_first()),
    decreases s.len(),
{
    vstd::arithmetic::power2::lemma2_to64();
    if s.len() == 1 {
        assert(s.drop_last() =~= Seq::<bool>::empty());
        assert(s.drop_first() =~= Seq::<bool>::empty());
    } else {
        lemma_lebs2ip_low_bit_first(s.drop_last());
        assert(s.drop_first().drop_last() =~= s.drop_last().drop_first());
        assert(s.drop_first().last() == s.last());
        lemma_pow2_unfold((s.len() - 1) as nat);
    }
}

/// `lebs2ip` reads back the little-endian bits of every `j < 2^n`.
pub proof fn law_lebs2ip_of_le_bits(j: nat, n: nat)
    requires
        j < pow2(n),
    ensures
        lebs2ip(le_bits(j, n)) == j,
    decreases n,
{
    vstd::arithmetic::power2::lemma2_to64();
    if n == 0 {
        assert(le_bits(j, n) =~= Seq::<bool>::empty());
    } else {
        let s = le_bits(j, n);
        lemma_lebs2ip_low_bit_first(s);
        lemma_pow2_unfold(n);
        assert forall|i: int| 0 <= i < n - 1 implies #[trigger] s.drop_first()[i] == le_bits(
            j / 2,
            (n - 1) as nat,
        )[i] by {
            lemma_pow2_pos(i as nat);
            lemma_pow2_unfold((i + 1) as nat);
            vstd::arithmetic::div_mod::lemma_div_denominator(j as int, 2, pow2(i as nat) as int);
        }
        assert(s.drop_first() =~= le_bits(j / 2, (n - 1) as nat));
        law_lebs2ip_of_le_bits(j / 2, (n - 1) as nat);
        vstd::arithmetic::div_mod::lemma_div_basics(j as int);
        assert(s[0] == (j % 2 == 1));
    }
}

/// A message of exactly one piece, the little-endian bits of `j`, hashes to
/// (Q ⸭ S(j)) ⸭ Q.
pub proof fn law_single_piece(q: Seq<u8>, j: nat)
    requires
        j < pow2(K as nat),
    ensures
        hash_to_point_spec(q, le_bits(j, K as nat)) == incomplete_add(
            incomplete_add(Some(q), Some(generator_spec(j))),
            Some(q),
        ),
{
    let msg = le_bits(j, K as nat);
    assert(pad_bits(msg) =~= msg);
    assert(piece(msg, 0) =~= msg);
    law_lebs2ip_of_le_bits(j, K as nat);
    assert(num_pieces(msg) == 1);
    assert(hash_fold(Some(q), msg, 0) == Some(q));
}

/// Incomplete addition is ⊥ when either side is ⊥ or the identity, and P ⸭ P = ⊥.
pub proof fn law_incomplete_add_degenerate(p: Seq<u8>, b: Option<Seq<u8>>)
    ensures
        incomplete_add(None, b) is None,
        incomplete_add(b, None) is None,
        incomplete_add(Some(zero_bytes()), b) is None,
        incomplete_add(b, Some(zero_bytes())) is None,
        incomplete_add(Some(p), Some(p)) is None,
{
}

proof fn lemma_hash_fold_prefix(q: Option<Seq<u8>>, p1: Seq<bool>, p2: Seq<bool>, n: nat)
    requires
        n * K <= p1.len(),
        n * K <= p2.len(),
        forall|i: int| 0 <= i < n * K ==> p1[i] == p2[i],
    ensures
        hash_fold(q, p1, n) == hash_fold(q, p2, n),
    decreases n,
{
    if n > 0 {
        let m = (n - 1) as nat;
        lemma_hash_fold_prefix(q, p1, p2, m);
        assert(piece(p1, m) =~= piece(p2, m));
    }
}

/// Hashing is incremental: appending one `K`-bit piece `b` to a message whose length
/// is a multiple of `K` takes the previous result `A` to (A ⸭ S(lebs2ip(b))) ⸭ A,
/// whatever the length of the message.
pub proof fn law_hash_appends_one_piece(q: Seq<u8>, m: Seq<bool>, b: Seq<bool>)
    requires
        m.len() % (K as nat) == 0,
        b.len() == K,
    ensures
        hash_to_point_spec(q, m + b) == incomplete_add(
            incomplete_add(hash_to_point_spec(q, m), Some(generator_spec(lebs2ip(b)))),
            hash_to_point_spec(q, m),
        ),
{
    let mb = m + b;
    let n = m.len() / (K as nat);
    assert(pad_bits(m) =~= m);
    assert(pad_bits(mb) =~= mb);
    assert(num_pieces(m) == n);
    assert(num_pieces(mb) == n + 1);
    assert(piece(mb, n) =~= b);
    lemma_hash_fold_prefix(Some(q), mb, m, n);
}

/// SinsemillaCommit blinds with the whole scalar: the commitment exists exactly when
/// the hash point M does, and is then M + [r] R, with `r` the scalar's full representation.
pub proof fn law_commit_blinds_with_whole_scalar(
    q: Seq<u8>,
    r_base: Seq<u8>,
    msg: Seq<bool>,
    r: Seq<u8>,
)
    ensures
        commit_spec(q, r_base, msg, r) is Some <==> hash_to_point_spec(q, msg) is Some,
        hash_to_point_spec(q, msg) matches Some(m) ==> commit_spec(q, r_base, msg, r) == Some(
            spec_point_add(m, spec_point_mul(r, r_base)),
        ),
{
}

} // verus!
