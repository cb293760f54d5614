//! SinsemillaHashToPoint, SinsemillaHash, SinsemillaCommit and SinsemillaShortCommit.
use vstd::prelude::*;
use vstd::string::StringExecFns;
use vstd::string::StringSliceAdditionalSpecFns;
use vstd::utf8::{encode_scalar, encode_utf8, is_ascii_chars, is_ascii_chars_encode_utf8};

use crate::addition::{incomplete_add, opt_view, IncompletePoint};
use crate::curve::{
    spec_hash_to_curve, spec_point_add, spec_point_affine_x, spec_point_is_identity, spec_point_mul, zero_bytes, Base,
    Point, Scalar,
};
use crate::pad::{pad_bits, Pad};
use crate::{lebs2ip, lebs2ip_k, C, K, Q_PERSONALIZATION, S_PERSONALIZATION};

verus! {

// ---------------------------------------------------------------------------
// Progress reporting.
// ---------------------------------------------------------------------------
/// Told after each `K`-bit piece of a message has been absorbed, for a caller on a
/// slow device that must report progress while a hash runs.
pub trait Progress {
    /// How many times `report` has been called on this value.
    spec fn reported(&self) -> nat;

    fn report(&mut self)
        ensures
            final(self).reported() == old(self).reported() + 1,
    ;
}

/// Progress that nobody watches.
pub struct Silent {
    reports: Ghost<nat>,
}

impl Silent {
    pub fn new() -> (s: Silent)
        ensures
            s.reported() == 0,
    {
        Silent { reports: Ghost(0) }
    }
}

impl Progress for Silent {
    closed spec fn reported(&self) -> nat {
        self.reports@
    }

    fn report(&mut self) {
        self.reports = Ghost(self.reports@ + 1);
    }
}

/// Progress told through a callback, such as a closure.
pub struct Callback<F> {
    callback: F,
    calls: Ghost<nat>,
}

impl<F: FnMut()> Callback<F> {
    /// `callback`, not called yet.
    pub fn new(callback: F) -> (c: Callback<F>)
        ensures
            c.reported() == 0,
    {
        Callback { callback, calls: Ghost(0) }
    }
}

impl<F: FnMut()> Progress for Callback<F> {
    /// How many times the callback has been called through `report`.
    closed spec fn reported(&self) -> nat {
        self.calls@
    }

    fn report(&mut self) {
        call_back(self)
    }
}

/// `FnMut::call_mut` of the callback: calls it exactly once, and counts that call.
/// Nothing is claimed of what the callback itself does.
#[verifier::external_body]
fn call_back<F: FnMut()>(c: &mut Callback<F>)
    ensures
        final(c).reported() == old(c).reported() + 1,
{
    (c.callback)()
}

// ---------------------------------------------------------------------------
// The mathematical model.
// ---------------------------------------------------------------------------
/// The little-endian bytes of a 32-bit integer.
pub open spec fn u32_le_bytes(j: nat) -> Seq<u8> {
    seq![(j % 256) as u8, (j / 256 % 256) as u8, (j / 65536 % 256) as u8, (j / 16777216 % 256) as u8]
}

/// The generator S(j): the hash to the curve of the 4 little-endian bytes of `j`,
/// with the personalization for the S generators.
pub open spec fn generator_spec(j: nat) -> Seq<u8> {
    spec_hash_to_curve(S_PERSONALIZATION@, u32_le_bytes(j))
}

/// The `i`-th `K`-bit piece of a padded message.
pub open spec fn piece(padded: Seq<bool>, i: nat) -> Seq<bool> {
    padded.subrange(i * K, i * K + K)
}

/// The accumulator after the first `n` pieces: Acc(0) = Q and
/// Acc(i + 1) = (Acc(i) ⸭ S(lebs2ip(piece i))) ⸭ Acc(i).
pub open spec fn hash_fold(q: Option<Seq<u8>>, padded: Seq<bool>, n: nat) -> Option<Seq<u8>>
    decreases n,
{
    if n == 0 {
        q
    } else {
        let acc = hash_fold(q, padded, (n - 1) as nat);
        incomplete_add(
            incomplete_add(acc, Some(generator_spec(lebs2ip(piece(padded, (n - 1) as nat))))),
            acc,
        )
    }
}

/// The number of `K`-bit pieces of a message once padded.
pub open spec fn num_pieces(msg: Seq<bool>) -> nat {
    pad_bits(msg).len() / (K as nat)
}

/// SinsemillaHashToPoint(Q, msg), with `None` for ⊥.
pub open spec fn hash_to_point_spec(q: Seq<u8>, msg: Seq<bool>) -> Option<Seq<u8>> {
    hash_fold(Some(q), pad_bits(msg), num_pieces(msg))
}

/// The coordinate extractor: the affine x-coordinate, zero for the identity, ⊥ for ⊥.
pub open spec fn extract_spec(p: Option<Seq<u8>>) -> Option<Seq<u8>> {
    match p {
        None => None,
        Some(p) => Some(
            match spec_point_affine_x(p) {
                Some(x) => x,
                None => zero_bytes(),
            },
        ),
    }
}

/// SinsemillaCommit_r(msg) = SinsemillaHashToPoint(Q, msg) + [r] R, with ⊥ for ⊥.
pub open spec fn commit_spec(q: Seq<u8>, r_base: Seq<u8>, msg: Seq<bool>, r: Seq<u8>) -> Option<Seq<u8>> {
    match hash_to_point_spec(q, msg) {
        None => None,
        Some(p) => Some(spec_point_add(p, spec_point_mul(r, r_base))),
    }
}

/// The representations of an optional base-field element.
pub open spec fn opt_base_view(x: Option<Base>) -> Option<Seq<u8>> {
    match x {
        Some(b) => Some(b@),
        None => None,
    }
}

// ---------------------------------------------------------------------------
// UTF-8 lengths of the personalization strings.
// ---------------------------------------------------------------------------
proof fn lemma_encode_utf8_len_bound(s: Seq<char>)
    ensures
        encode_utf8(s).len() <= 4 * s.len(),
    decreases s.len(),
{
    if s.len() > 0 {
        assert(encode_scalar(s[0] as u32).len() <= 4);
        lemma_encode_utf8_len_bound(s.drop_first());
    }
}

proof fn lemma_encode_utf8_concat(a: Seq<char>, b: Seq<char>)
    ensures
        encode_utf8(a + b) == encode_utf8(a) + encode_utf8(b),
    decreases a.len(),
{
    if a.len() > 0 {
        assert((a + b).drop_first() =~= a.drop_first() + b);
        lemma_encode_utf8_concat(a.drop_first(), b);
        assert(encode_utf8(a + b) =~= encode_utf8(a) + encode_utf8(b));
    } else {
        assert(a + b =~= b);
    }
}

// ---------------------------------------------------------------------------
// The domains.
// ---------------------------------------------------------------------------
/// The generator S(index), computed from its defining hash to the curve.
pub fn generator(index: u32) -> (s: Point)
    ensures
        s@ == generator_spec(index as nat),
{
    let bytes: [u8; 4] = [
        (index % 256) as u8,
        (index / 256 % 256) as u8,
        (index / 65536 % 256) as u8,
        (index / 16777216 % 256) as u8,
    ];
    proof {
        reveal_strlit("z.cash:SinsemillaS");
        lemma_encode_utf8_len_bound(S_PERSONALIZATION@);
        assert(bytes@ =~= u32_le_bytes(index as nat));
    }
    Point::hash_to_curve(S_PERSONALIZATION, &bytes)
}

/// The coordinate extractor for Pallas.
pub fn extract_p_bottom(point: Option<Point>) -> (r: Option<Base>)
    ensures
        opt_base_view(r) == extract_spec(opt_view(point)),
        point matches Some(p) && spec_point_is_identity(p@) ==> opt_base_view(r) == Some(
            zero_bytes(),
        ),
{
    match point {
        None => None,
        Some(p) => match p.affine_x() {
            Some(x) => Some(x),
            None => Some(Base::zero()),
        },
    }
}

/// A domain in which SinsemillaHashToPoint and SinsemillaHash can be used.
#[derive(Clone, Debug)]
pub struct HashDomain {
    q: Point,
}

impl View for HashDomain {
    type V = Seq<u8>;

    /// The encoding of the domain's Q.
    closed spec fn view(&self) -> Seq<u8> {
        self.q@
    }
}

impl HashDomain {
    /// Constructs a new `HashDomain` with a specific prefix string.
    pub fn new(domain: &str) -> (h: HashDomain)
        ensures
            h@ == spec_hash_to_curve(Q_PERSONALIZATION@, domain.spec_bytes()),
    {
        proof {
            reveal_strlit("z.cash:SinsemillaQ");
            lemma_encode_utf8_len_bound(Q_PERSONALIZATION@);
        }
        HashDomain { q: Point::hash_to_curve(Q_PERSONALIZATION, domain.as_bytes()) }
    }

    /// SinsemillaHashToPoint.
    pub fn hash_to_point(&self, msg: &[bool]) -> (r: Option<Point>)
        requires
            msg@.len() <= K * C,
        ensures
            opt_view(r) == hash_to_point_spec(self@, msg@),
    {
        let mut silent = Silent::new();
        self.hash_to_point_inner(msg, &mut silent).into_option()
    }

    /// `hash_to_point`, calling `progress` after each `K`-bit piece of the message.
    pub fn hash_to_point_with_progress<P: Progress>(&self, msg: &[bool], progress: &mut P) -> (r:
        Option<Point>)
        requires
            msg@.len() <= K * C,
        ensures
            opt_view(r) == hash_to_point_spec(self@, msg@),
            final(progress).reported() == old(progress).reported() + num_pieces(msg@),
    {
        self.hash_to_point_inner(msg, progress).into_option()
    }

    fn hash_to_point_inner<P: Progress>(&self, msg: &[bool], progress: &mut P) -> (r:
        IncompletePoint)
        requires
            msg@.len() <= K * C,
        ensures
            r@ == hash_to_point_spec(self@, msg@),
            final(progress).reported() == old(progress).reported() + num_pieces(msg@),
    {
        let padded = Pad::new(msg).collect();
        let n = padded.len() / K;
        let mut acc = IncompletePoint::from_point(self.q);
        let mut i: usize = 0;
        while i < n
            invariant
                padded@ == pad_bits(msg@),
                n == num_pieces(msg@),
                n * K <= padded.len(),
                i <= n,
                acc@ == hash_fold(Some(self.q@), padded@, i as nat),
                progress.reported() == old(progress).reported() + i,
            decreases n - i,
        {
            assert(i * K + K <= n * K) by (nonlinear_arith)
                requires
                    i < n,
            ;
            let b = i * K;
            let chunk: [bool; K] = [
                padded[b],
                padded[b + 1],
                padded[b + 2],
                padded[b + 3],
                padded[b + 4],
                padded[b + 5],
                padded[b + 6],
                padded[b + 7],
                padded[b + 8],
                padded[b + 9],
            ];
            assert(chunk@ =~= piece(padded@, i as nat));
            let index = lebs2ip_k(chunk);
            let s_chunk = IncompletePoint::from_point(generator(index));
            acc = acc.add(s_chunk).add(acc);
            progress.report();
            i = i + 1;
        }
        acc
    }

    /// SinsemillaHash.
    ///
    /// The message length must be at most `K * C`.
    pub fn hash(&self, msg: &[bool]) -> (r: Option<Base>)
        requires
            msg@.len() <= K * C,
        ensures
            opt_base_view(r) == extract_spec(hash_to_point_spec(self@, msg@)),
            hash_to_point_spec(self@, msg@) matches Some(p) && spec_point_is_identity(p)
                ==> opt_base_view(r) == Some(zero_bytes()),
    {
        extract_p_bottom(self.hash_to_point(msg))
    }

    /// Constructs a new `HashDomain` from a given `Q`.
    #[allow(non_snake_case)]
    pub fn from_Q(Q: Point) -> (h: HashDomain)
        ensures
            h@ == Q@,
    {
        HashDomain { q: Q }
    }

    /// Returns the Sinsemilla Q constant for this domain.
    #[allow(non_snake_case)]
    pub fn Q(&self) -> (q: Point)
        ensures
            q@ == self@,
    {
        self.q
    }
}

/// A domain in which SinsemillaCommit and SinsemillaShortCommit can be used.
#[derive(Debug)]
pub struct CommitDomain {
    m: HashDomain,
    r: Point,
}

impl View for CommitDomain {
    type V = (Seq<u8>, Seq<u8>);

    /// The encodings of the domain's Q and R.
    closed spec fn view(&self) -> (Seq<u8>, Seq<u8>) {
        (self.m@, self.r@)
    }
}

impl CommitDomain {
    /// Constructs a new `CommitDomain` with a specific prefix string.
    ///
    /// `domain` followed by "-r" is a hash-to-curve prefix, so its UTF-8
    /// encoding must be shorter than 226 bytes.
    pub fn new(domain: &str) -> (c: CommitDomain)
        requires
            domain.spec_bytes().len() < 226,
        ensures
            c@.0 == spec_hash_to_curve(Q_PERSONALIZATION@, encode_utf8(domain@ + "-M"@)),
            c@.1 == spec_hash_to_curve(domain@ + "-r"@, Seq::<u8>::empty()),
    {
        let mut m_prefix = String::from_str(domain);
        m_prefix.append("-M");
        let mut r_prefix = String::from_str(domain);
        r_prefix.append("-r");
        let empty: Vec<u8> = Vec::new();
        proof {
            reveal_strlit("-r");
            assert(is_ascii_chars("-r"@));
            is_ascii_chars_encode_utf8("-r"@);
            lemma_encode_utf8_concat(domain@, "-r"@);
        }
        let r = Point::hash_to_curve(r_prefix.as_str(), empty.as_slice());
        CommitDomain { m: HashDomain::new(m_prefix.as_str()), r }
    }

    /// SinsemillaCommit.
    ///
    /// The message length must be at most `K * C`.
    pub fn commit(&self, msg: &[bool], r: &Scalar) -> (p: Option<Point>)
        requires
            msg@.len() <= K * C,
        ensures
            opt_view(p) == commit_spec(self@.0, self@.1, msg@, r@),
    {
        let mut silent = Silent::new();
        self.commit_with_progress(msg, r, &mut silent)
    }

    /// `commit`, calling `progress` as `HashDomain::hash_to_point_with_progress` does.
    pub fn commit_with_progress<P: Progress>(&self, msg: &[bool], r: &Scalar, progress: &mut P) -> (p:
        Option<Point>)
        requires
            msg@.len() <= K * C,
        ensures
            opt_view(p) == commit_spec(self@.0, self@.1, msg@, r@),
            p is Some <==> hash_to_point_spec(self@.0, msg@) is Some,
            hash_to_point_spec(self@.0, msg@) matches Some(m) ==> opt_view(p) == Some(
                spec_point_add(m, spec_point_mul(r@, self@.1)),
            ),
            final(progress).reported() == old(progress).reported() + num_pieces(msg@),
    {
        // Complete addition is used for the blinding factor.
        match self.m.hash_to_point_inner(msg, progress).into_option() {
            None => None,
            Some(p) => Some(p.add(&self.r.mul(r))),
        }
    }

    /// SinsemillaShortCommit.
    ///
    /// The message length must be at most `K * C`.
    pub fn short_commit(&self, msg: &[bool], r: &Scalar) -> (x: Option<Base>)
        requires
            msg@.len() <= K * C,
        ensures
            opt_base_view(x) == extract_spec(commit_spec(self@.0, self@.1, msg@, r@)),
            commit_spec(self@.0, self@.1, msg@, r@) matches Some(p) && spec_point_is_identity(p)
                ==> opt_base_view(x) == Some(zero_bytes()),
    {
        let mut silent = Silent::new();
        self.short_commit_with_progress(msg, r, &mut silent)
    }

    /// `short_commit`, calling `progress` as `HashDomain::hash_to_point_with_progress` does.
    pub fn short_commit_with_progress<P: Progress>(
        &self,
        msg: &[bool],
        r: &Scalar,
        progress: &mut P,
    ) -> (x: Option<Base>)
        requires
            msg@.len() <= K * C,
        ensures
            opt_base_view(x) == extract_spec(commit_spec(self@.0, self@.1, msg@, r@)),
            commit_spec(self@.0, self@.1, msg@, r@) matches Some(p) && spec_point_is_identity(p)
                ==> opt_base_view(x) == Some(zero_bytes()),
            final(progress).reported() == old(progress).reported() + num_pieces(msg@),
    {
        extract_p_bottom(self.commit_with_progress(msg, r, progress))
    }

    /// Returns the Sinsemilla R constant for this domain.
    #[allow(non_snake_case)]
    pub fn R(&self) -> (r: Point)
        ensures
            r@ == self@.1,
    {
        self.r
    }

    /// Returns the Sinsemilla Q constant for this domain.
    #[allow(non_snake_case)]
    pub fn Q(&self) -> (q: Point)
        ensures
            q@ == self@.0,
    {
        self.m.q
    }
}

} // verus!
