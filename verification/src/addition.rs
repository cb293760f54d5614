//! Incomplete addition on P ∪ {⊥}, simulated with complete addition.
use vstd::prelude::*;

use crate::curve::{spec_point_add, spec_point_eq, spec_point_is_identity, spec_point_neg, Point};

verus! {

/// The encodings of an optional point.
pub open spec fn opt_view(p: Option<Point>) -> Option<Seq<u8>> {
    match p {
        Some(q) => Some(q@),
        None => None,
    }
}

/// Incomplete addition ⸭ on encoded points, with `None` for ⊥:
/// ⊥ ⸭ P = P ⸭ ⊥ = ⊥; 0 ⸭ P = P ⸭ 0 = ⊥; P ⸭ Q = ⊥ when P = ±Q;
/// otherwise P ⸭ Q = P + Q.
pub open spec fn incomplete_add(a: Option<Seq<u8>>, b: Option<Seq<u8>>) -> Option<Seq<u8>> {
    match (a, b) {
        (Some(p), Some(q)) => {
            if spec_point_is_identity(p) || spec_point_is_identity(q) || spec_point_eq(p, q)
                || spec_point_eq(p, spec_point_neg(q)) {
                None
            } else {
                Some(spec_point_add(p, q))
            }
        },
        _ => None,
    }
}

/// P ∪ {⊥}: a point, or ⊥ (`None`).
#[derive(Clone, Copy, PartialEq, Eq, Debug)]
pub struct IncompletePoint(pub Option<Point>);

impl View for IncompletePoint {
    type V = Option<Seq<u8>>;

    open spec fn view(&self) -> Option<Seq<u8>> {
        opt_view(self.0)
    }
}

impl IncompletePoint {
    /// The point itself.
    pub fn from_point(p: Point) -> (r: IncompletePoint)
        ensures
            r@ == Some(p@),
    {
        IncompletePoint(Some(p))
    }

    /// The point, or `None` for ⊥.
    pub fn into_option(self) -> (r: Option<Point>)
        ensures
            opt_view(r) == self@,
    {
        self.0
    }

    /// Incomplete addition `self ⸭ rhs`.
    pub fn add(self, rhs: IncompletePoint) -> (r: IncompletePoint)
        ensures
            r@ == incomplete_add(self@, rhs@),
    {
        match (self.0, rhs.0) {
            (Some(p), Some(q)) => {
                // 0 ⸭ 0 = ⊥, 0 ⸭ P = ⊥, P ⸭ 0 = ⊥,
                // (x, y) ⸭ (x', y') = ⊥ if x == x',
                // (x, y) ⸭ (x', y') = (x, y) + (x', y') if x != x'.
                if p.is_identity() || q.is_identity() || p.ct_eq(&q) || p.ct_eq(&q.neg()) {
                    IncompletePoint(None)
                } else {
                    IncompletePoint(Some(p.add(&q)))
                }
            },
            // ⊥ ⸭ ⊥ = ⊥, ⊥ ⸭ P = ⊥, P ⸭ ⊥ = ⊥.
            _ => IncompletePoint(None),
        }
    }
}

} // verus!
