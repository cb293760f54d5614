//! Pallas points, base-field elements and scalars, held as their canonical
//! 32-byte encodings. Every group or field operation is computed by
//! `pasta_curves` behind the trusted items of this module.
use group::ff::PrimeField;
use group::{Curve, Group, GroupEncoding, Wnaf};
use pasta_curves::arithmetic::{CurveAffine, CurveExt};
use pasta_curves::pallas;
use subtle::ConstantTimeEq;
use vstd::arithmetic::power2::pow2;
use vstd::prelude::*;
use vstd::string::StringSliceAdditionalSpecFns;

verus! {

// ---------------------------------------------------------------------------
// Names for what pasta_curves computes.
// ---------------------------------------------------------------------------
/// Whether `pallas::Point::from_bytes` accepts the 32 bytes.
pub uninterp spec fn spec_point_decodes(bytes: Seq<u8>) -> bool;

/// The encoding of `pallas::Point::hash_to_curve(domain_prefix)(message)`.
pub uninterp spec fn spec_hash_to_curve(domain_prefix: Seq<char>, message: Seq<u8>) -> Seq<u8>;

/// Whether an encoded point is the identity (`Group::is_identity`). Of the
/// encodings that `from_bytes` accepts, only 32 zero bytes decode to the identity:
/// a zero x with the sign bit set would need a square root of 5, which is not a
/// square in the base field.
pub open spec fn spec_point_is_identity(p: Seq<u8>) -> bool {
    p == zero_bytes()
}

/// Whether two encoded points are equal (`ConstantTimeEq::ct_eq`). The encodings
/// that `from_bytes` accepts are canonical (x below the modulus, one sign bit for y),
/// so two of them decode to the same point exactly when they are the same bytes.
pub open spec fn spec_point_eq(p: Seq<u8>, q: Seq<u8>) -> bool {
    p == q
}

/// The encoding of `-p`.
pub uninterp spec fn spec_point_neg(p: Seq<u8>) -> Seq<u8>;

/// The encoding of `p + q` (complete addition).
pub uninterp spec fn spec_point_add(p: Seq<u8>, q: Seq<u8>) -> Seq<u8>;

/// The encoding of `Wnaf::new().scalar(s).base(p)`, that is `[s] p`.
pub uninterp spec fn spec_point_mul(s: Seq<u8>, p: Seq<u8>) -> Seq<u8>;

/// The canonical encoding of the affine x-coordinate of `p`, or `None` when
/// `p` is the identity (`CurveAffine::coordinates`).
pub uninterp spec fn spec_point_affine_x(p: Seq<u8>) -> Option<Seq<u8>>;

/// The value of little-endian bytes.
pub open spec fn le_value(bytes: Seq<u8>) -> nat
    decreases bytes.len(),
{
    if bytes.len() == 0 {
        0
    } else {
        (bytes[0] + 256 * le_value(bytes.drop_first())) as nat
    }
}

/// The order q of the Pallas group, the modulus of its scalar field.
pub open spec fn scalar_modulus() -> nat {
    0x40000000000000000000000000000000224698fc0994a8dd8c46eb2100000001nat
}

/// Whether `pallas::Scalar::from_repr` accepts the 32 bytes: their little-endian
/// value is below the modulus.
pub open spec fn spec_scalar_canonical(repr: Seq<u8>) -> bool {
    repr.len() == 32 && le_value(repr) < scalar_modulus()
}

/// 32 zero bytes.
pub open spec fn zero_bytes() -> Seq<u8> {
    Seq::new(32, |i: int| 0u8)
}

/// The little-endian 32-byte representation of a 64-bit integer.
pub open spec fn u64_repr(v: u64) -> Seq<u8> {
    Seq::new(32, |i: int| if i < 8 { (v as nat / pow2((8 * i) as nat) % 256) as u8 } else { 0u8 })
}

// ---------------------------------------------------------------------------
// Trusted items: each one makes one call into pasta_curves.
// ---------------------------------------------------------------------------
/// `pallas::Point::from_bytes(bytes).is_some()`.
#[verifier::external_body]
fn point_bytes_decode(bytes: &[u8; 32]) -> (r: bool)
    ensures
        r == spec_point_decodes(bytes@),
{
    bool::from(pallas::Point::from_bytes(bytes).is_some())
}

/// `pallas::Point::hash_to_curve(domain_prefix)(message)`, encoded. The returned
/// closure asserts that the prefix is shorter than 228 bytes (the expanded DST holds
/// the prefix, "-pallas" and 21 more bytes, and its length must fit in one byte).
/// What it returns is an encoding that `from_bytes` accepts.
#[verifier::external_body]
fn hash_to_curve_bytes(domain_prefix: &str, message: &[u8]) -> (r: [u8; 32])
    requires
        domain_prefix.spec_bytes().len() < 228,
    ensures
        r@ == spec_hash_to_curve(domain_prefix@, message@),
        spec_point_decodes(r@),
{
    pallas::Point::hash_to_curve(domain_prefix)(message).to_bytes()
}

/// `Group::is_identity` of a decoded point.
#[verifier::external_body]
fn point_bytes_is_identity(p: &[u8; 32]) -> (r: bool)
    requires
        spec_point_decodes(p@),
    ensures
        r == spec_point_is_identity(p@),
{
    bool::from(pallas::Point::from_bytes(p).unwrap().is_identity())
}

/// `ConstantTimeEq::ct_eq` of two decoded points.
#[verifier::external_body]
fn point_bytes_ct_eq(p: &[u8; 32], q: &[u8; 32]) -> (r: bool)
    requires
        spec_point_decodes(p@),
        spec_point_decodes(q@),
    ensures
        r == spec_point_eq(p@, q@),
{
    bool::from(pallas::Point::from_bytes(p).unwrap().ct_eq(&pallas::Point::from_bytes(q).unwrap()))
}

/// Negation of a decoded point; its encoding is accepted by `from_bytes`.
#[verifier::external_body]
fn point_bytes_neg(p: &[u8; 32]) -> (r: [u8; 32])
    requires
        spec_point_decodes(p@),
    ensures
        r@ == spec_point_neg(p@),
        spec_point_decodes(r@),
{
    (-pallas::Point::from_bytes(p).unwrap()).to_bytes()
}

/// Complete addition of two decoded points; its encoding is accepted by `from_bytes`.
#[verifier::external_body]
fn point_bytes_add(p: &[u8; 32], q: &[u8; 32]) -> (r: [u8; 32])
    requires
        spec_point_decodes(p@),
        spec_point_decodes(q@),
    ensures
        r@ == spec_point_add(p@, q@),
        spec_point_decodes(r@),
{
    (pallas::Point::from_bytes(p).unwrap() + pallas::Point::from_bytes(q).unwrap()).to_bytes()
}

/// `Wnaf::new().scalar(s).base(p)`; its encoding is accepted by `from_bytes`.
#[verifier::external_body]
fn point_bytes_wnaf_mul(s: &[u8; 32], p: &[u8; 32]) -> (r: [u8; 32])
    requires
        spec_scalar_canonical(s@),
        spec_point_decodes(p@),
    ensures
        r@ == spec_point_mul(s@, p@),
        spec_point_decodes(r@),
{
    let s = pallas::Scalar::from_repr(*s).unwrap();
    Wnaf::new().scalar(&s).base(pallas::Point::from_bytes(p).unwrap()).to_bytes()
}

/// `p.to_affine().coordinates()`, keeping the x-coordinate's canonical representation.
/// `coordinates` is `None` exactly for the identity.
#[verifier::external_body]
fn point_bytes_affine_x(p: &[u8; 32]) -> (r: Option<[u8; 32]>)
    requires
        spec_point_decodes(p@),
    ensures
        r matches Some(x) ==> spec_point_affine_x(p@) == Some(x@),
        r is None ==> spec_point_affine_x(p@) is None,
        r is None <==> spec_point_is_identity(p@),
{
    let coords = pallas::Point::from_bytes(p).unwrap().to_affine().coordinates();
    Option::from(coords).map(|c: pasta_curves::arithmetic::Coordinates<pallas::Affine>| c.x().to_repr())
}

/// `pallas::Scalar::from_repr(repr).is_some()`.
#[verifier::external_body]
fn scalar_repr_is_canonical(repr: &[u8; 32]) -> (r: bool)
    ensures
        r == spec_scalar_canonical(repr@),
{
    bool::from(pallas::Scalar::from_repr(*repr).is_some())
}

/// `pallas::Scalar::from(v).to_repr()`: the little-endian bytes of `v`, which is
/// below the modulus, so `from_repr` accepts them.
#[verifier::external_body]
fn scalar_repr_from_u64(v: u64) -> (r: [u8; 32])
    ensures
        r@ == u64_repr(v),
        spec_scalar_canonical(r@),
{
    pallas::Scalar::from(v).to_repr()
}

// ---------------------------------------------------------------------------
// The library's types.
// ---------------------------------------------------------------------------
/// A point of the Pallas curve, held as its compressed encoding.
#[derive(Clone, Copy, PartialEq, Eq, Debug)]
pub struct Point {
    bytes: [u8; 32],
}

impl Point {
    #[verifier::type_invariant]
    spec fn decodes(self) -> bool {
        spec_point_decodes(self.bytes@)
    }
}

impl View for Point {
    type V = Seq<u8>;

    closed spec fn view(&self) -> Seq<u8> {
        self.bytes@
    }
}

/// An element of the Pallas base field, held as its canonical little-endian representation.
#[derive(Clone, Copy, PartialEq, Eq, Debug)]
pub struct Base {
    repr: [u8; 32],
}

impl View for Base {
    type V = Seq<u8>;

    closed spec fn view(&self) -> Seq<u8> {
        self.repr@
    }
}

/// An element of the Pallas scalar field, held as its canonical little-endian representation.
#[derive(Clone, Copy, PartialEq, Eq, Debug)]
pub struct Scalar {
    repr: [u8; 32],
}

impl Scalar {
    #[verifier::type_invariant]
    spec fn canonical(self) -> bool {
        spec_scalar_canonical(self.repr@)
    }
}

impl View for Scalar {
    type V = Seq<u8>;

    closed spec fn view(&self) -> Seq<u8> {
        self.repr@
    }
}

impl Point {
    /// The point with the given compressed encoding, if it is one.
    pub fn from_bytes(bytes: [u8; 32]) -> (r: Option<Point>)
        ensures
            r is Some <==> spec_point_decodes(bytes@),
            r matches Some(p) ==> p@ == bytes@,
    {
        if point_bytes_decode(&bytes) {
            Some(Point { bytes })
        } else {
            None
        }
    }

    /// The compressed encoding.
    pub fn to_bytes(&self) -> (r: [u8; 32])
        ensures
            r@ == self@,
    {
        self.bytes
    }

    /// `pallas::Point::hash_to_curve(domain_prefix)(message)`.
    pub fn hash_to_curve(domain_prefix: &str, message: &[u8]) -> (r: Point)
        requires
            domain_prefix.spec_bytes().len() < 228,
        ensures
            r@ == spec_hash_to_curve(domain_prefix@, message@),
    {
        Point { bytes: hash_to_curve_bytes(domain_prefix, message) }
    }

    pub fn is_identity(&self) -> (r: bool)
        ensures
            r == spec_point_is_identity(self@),
    {
        proof {
            use_type_invariant(self);
        }
        point_bytes_is_identity(&self.bytes)
    }

    pub fn ct_eq(&self, other: &Point) -> (r: bool)
        ensures
            r == spec_point_eq(self@, other@),
    {
        proof {
            use_type_invariant(self);
            use_type_invariant(other);
        }
        point_bytes_ct_eq(&self.bytes, &other.bytes)
    }

    pub fn neg(&self) -> (r: Point)
        ensures
            r@ == spec_point_neg(self@),
    {
        proof {
            use_type_invariant(self);
        }
        Point { bytes: point_bytes_neg(&self.bytes) }
    }

    /// Complete addition.
    pub fn add(&self, other: &Point) -> (r: Point)
        ensures
            r@ == spec_point_add(self@, other@),
    {
        proof {
            use_type_invariant(self);
            use_type_invariant(other);
        }
        Point { bytes: point_bytes_add(&self.bytes, &other.bytes) }
    }

    /// `[s] self`, computed with a width-4 wNAF.
    pub fn mul(&self, s: &Scalar) -> (r: Point)
        ensures
            r@ == spec_point_mul(s@, self@),
    {
        proof {
            use_type_invariant(self);
            use_type_invariant(s);
        }
        Point { bytes: point_bytes_wnaf_mul(&s.repr, &self.bytes) }
    }

    /// The affine x-coordinate, or `None` for the identity.
    pub fn affine_x(&self) -> (r: Option<Base>)
        ensures
            r matches Some(x) ==> spec_point_affine_x(self@) == Some(x@),
            r is None ==> spec_point_affine_x(self@) is None,
            r is None <==> spec_point_is_identity(self@),
    {
        proof {
            use_type_invariant(self);
        }
        match point_bytes_affine_x(&self.bytes) {
            Some(repr) => Some(Base { repr }),
            None => None,
        }
    }
}

impl Base {
    /// Zero, whose little-endian representation is 32 zero bytes.
    pub fn zero() -> (r: Base)
        ensures
            r@ == zero_bytes(),
    {
        let r = Base { repr: [0u8; 32] };
        assert(r.repr@ =~= zero_bytes());
        r
    }

    /// The canonical little-endian representation.
    pub fn to_repr(&self) -> (r: [u8; 32])
        ensures
            r@ == self@,
    {
        self.repr
    }
}

impl Scalar {
    /// The scalar with the given little-endian representation, if it is canonical.
    pub fn from_repr(repr: [u8; 32]) -> (r: Option<Scalar>)
        ensures
            r is Some <==> spec_scalar_canonical(repr@),
            r matches Some(s) ==> s@ == repr@,
    {
        if scalar_repr_is_canonical(&repr) {
            Some(Scalar { repr })
        } else {
            None
        }
    }

    /// The scalar `v`.
    pub fn from_u64(v: u64) -> (r: Scalar)
        ensures
            r@ == u64_repr(v),
    {
        Scalar { repr: scalar_repr_from_u64(v) }
    }

    /// The canonical little-endian representation.
    pub fn to_repr(&self) -> (r: [u8; 32])
        ensures
            r@ == self@,
    {
        self.repr
    }
}

} // verus!
