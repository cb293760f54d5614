use group::ff::{Field, PrimeField};
use group::{Curve, Group, GroupEncoding};
use pasta_curves::arithmetic::{CurveAffine, CurveExt};
use pasta_curves::pallas;

use sinsemilla::addition::IncompletePoint;
use sinsemilla::curve::{Base, Point, Scalar};
use sinsemilla::domain::{generator, Callback, CommitDomain, HashDomain};
use sinsemilla::pad::Pad;
use sinsemilla::{lebs2ip_k, C, INV_TWO_POW_K, K, Q_PERSONALIZATION, S_PERSONALIZATION};


fn to_pallas(p: Point) -> pallas::Point {
    pallas::Point::from_bytes(&p.to_bytes()).unwrap()
}

fn from_pallas(p: pallas::Point) -> Point {
    Point::from_bytes(p.to_bytes()).unwrap()
}

/// Incomplete addition computed with pasta_curves alone.
fn pasta_incomplete_add(a: Option<pallas::Point>, b: Option<pallas::Point>) -> Option<pallas::Point> {
    let (p, q) = (a?, b?);
    if bool::from(p.is_identity() | q.is_identity()) || p == q || p == -q {
        None
    } else {
        Some(p + q)
    }
}

#[test]
fn pad() {
    assert_eq!(Pad::new(&[]).collect(), vec![false; 0]);
    assert_eq!(
        Pad::new(&[true]).collect(),
        vec![true, false, false, false, false, false, false, false, false, false]
    );
    assert_eq!(
        Pad::new(&[true, true]).collect(),
        vec![true, true, false, false, false, false, false, false, false, false]
    );
    assert_eq!(
        Pad::new(&[true, true, true]).collect(),
        vec![true, true, true, false, false, false, false, false, false, false]
    );
    assert_eq!(
        Pad::new(&[true, true, false, true, false, true, false, true, false, true]).collect(),
        vec![true, true, false, true, false, true, false, true, false, true]
    );
    assert_eq!(
        Pad::new(&[true, true, false, true, false, true, false, true, false, true, true]).collect(),
        vec![
            true, true, false, true, false, true, false, true, false, true, true, false, false,
            false, false, false, false, false, false, false
        ]
    );
}

#[test]
fn progress_is_reported_after_each_piece() {
    // 21 bits: two full pieces and a padded third.
    let msg = [true, false, true].repeat(7);
    let hash = HashDomain::new("z.cash:test-progress");
    let mut calls = 0;
    let with_progress =
        hash.hash_to_point_with_progress(&msg, &mut Callback::new(|| calls += 1));
    assert_eq!(calls, 3);
    assert_eq!(with_progress, hash.hash_to_point(&msg));

    let commit = CommitDomain::new("z.cash:test-progress");
    let r = Scalar::from_u64(7);
    let mut calls = 0;
    let with_progress =
        commit.short_commit_with_progress(&msg, &r, &mut Callback::new(|| calls += 1));
    assert_eq!(calls, 3);
    assert_eq!(with_progress, commit.short_commit(&msg, &r));
}

#[test]
fn computed_generators() {
    let domain = HashDomain::new("z.cash:Sinsemilla-computed-generators-test");

    for j in 0..(1u32 << K) {
        let msg: Vec<bool> = (0..K).map(|i| (j & (1 << i)) != 0).collect();
        let actual = domain.hash_to_point(&msg);

        let s = pallas::Point::hash_to_curve(S_PERSONALIZATION)(&j.to_le_bytes());
        let q = Some(to_pallas(domain.Q()));
        let expected = pasta_incomplete_add(pasta_incomplete_add(q, Some(s)), q);

        assert_eq!(actual.map(to_pallas), expected);
    }

    for msg in [
        vec![],
        vec![true],
        vec![
            true, false, true, true, false, false, true, false, true, false, true,
        ],
    ] {
        let actual = domain.hash_to_point(&msg);
        let mut padded = msg.clone();
        while padded.len() % K != 0 {
            padded.push(false);
        }
        let mut acc = Some(to_pallas(domain.Q()));
        for chunk in padded.chunks(K) {
            let index: u32 = chunk.iter().enumerate().map(|(i, b)| (*b as u32) << i).sum();
            let s = pallas::Point::hash_to_curve(S_PERSONALIZATION)(&index.to_le_bytes());
            acc = pasta_incomplete_add(pasta_incomplete_add(acc, Some(s)), acc);
        }
        assert_eq!(actual.map(to_pallas), acc);
    }
}

#[test]
fn lebs2ip_k_values() {
    assert_eq!(lebs2ip_k([false; K]), 0);
    assert_eq!(lebs2ip_k([true; K]), 1023);
    assert_eq!(
        lebs2ip_k([true, false, false, false, false, false, false, false, false, false]),
        1
    );
    assert_eq!(
        lebs2ip_k([false, false, false, false, false, false, false, false, false, true]),
        512
    );
    assert_eq!(
        lebs2ip_k([false, true, true, false, false, false, false, false, false, false]),
        6
    );
    for j in 0..(1u32 << K) {
        let bits: Vec<bool> = (0..K).map(|i| (j & (1 << i)) != 0).collect();
        assert_eq!(lebs2ip_k(bits.try_into().unwrap()), j);
    }
}

#[test]
fn pad_is_fused_and_step_by_step() {
    let bits = [true, false, true];
    let mut p = Pad::new(&bits);
    let mut out = vec![];
    while let Some(b) = p.next() {
        out.push(b);
    }
    assert_eq!(out.len(), K);
    assert_eq!(&out[..3], &bits);
    assert_eq!(p.next(), None);
    assert_eq!(p.next(), None);
}

#[test]
fn pad_at_the_length_limit() {
    let bits = vec![true; K * C];
    let padded = Pad::new(&bits).collect();
    assert_eq!(padded, bits);
    let bits = vec![true; K * C - 1];
    let padded = Pad::new(&bits).collect();
    assert_eq!(padded.len(), K * C);
    assert!(!padded[K * C - 1]);
}

#[test]
fn constants() {
    let inv = pallas::Base::from_repr(INV_TWO_POW_K).unwrap();
    assert_eq!(inv * pallas::Base::from(1u64 << K), pallas::Base::ONE);
    assert_eq!(Q_PERSONALIZATION, "z.cash:SinsemillaQ");
    assert_eq!(S_PERSONALIZATION, "z.cash:SinsemillaS");
    assert_eq!(C, 253);
}

#[test]
fn domains_match_hash_to_curve() {
    let h = HashDomain::new("z.cash:test");
    assert_eq!(
        to_pallas(h.Q()),
        pallas::Point::hash_to_curve(Q_PERSONALIZATION)(b"z.cash:test")
    );
    let c = CommitDomain::new("z.cash:test");
    assert_eq!(
        to_pallas(c.Q()),
        pallas::Point::hash_to_curve(Q_PERSONALIZATION)(b"z.cash:test-M")
    );
    assert_eq!(to_pallas(c.R()), pallas::Point::hash_to_curve("z.cash:test-r")(&[]));
    assert_eq!(
        to_pallas(generator(5)),
        pallas::Point::hash_to_curve(S_PERSONALIZATION)(&5u32.to_le_bytes())
    );
}

#[test]
fn point_operations_match_pasta() {
    let p = pallas::Point::hash_to_curve("test")(b"p");
    let q = pallas::Point::hash_to_curve("test")(b"q");
    let (lp, lq) = (from_pallas(p), from_pallas(q));
    assert_eq!(to_pallas(lp.add(&lq)), p + q);
    assert_eq!(to_pallas(lp.neg()), -p);
    assert_ne!(lp.neg(), lp);
    let s = Scalar::from_u64(12345);
    assert_eq!(to_pallas(lp.mul(&s)), p * pallas::Scalar::from(12345u64));
    assert!(lp.ct_eq(&lp));
    assert!(!lp.ct_eq(&lq));
    assert!(!lp.is_identity());
    let x = *p.to_affine().coordinates().unwrap().x();
    assert_eq!(lp.affine_x().unwrap().to_repr(), x.to_repr());
    assert_eq!(lp.affine_x().unwrap(), from_pallas(p).affine_x().unwrap());
}

#[test]
fn identity_and_invalid_encodings() {
    let id = Point::from_bytes([0u8; 32]).unwrap();
    assert!(id.is_identity());
    assert_eq!(id.affine_x(), None);
    assert_eq!(Base::zero().to_repr(), [0u8; 32]);
    assert_eq!(Point::from_bytes([0xffu8; 32]), None);
    assert_eq!(Scalar::from_repr([0xffu8; 32]), None);
    let seven = Scalar::from_u64(7);
    let mut repr = [0u8; 32];
    repr[0] = 7;
    assert_eq!(seven.to_repr(), repr);
    assert_eq!(Scalar::from_repr(repr), Some(seven));
    assert_eq!(to_pallas(id), pallas::Point::identity());
}

#[test]
fn identity_q_gives_bottom_or_zero() {
    let id = Point::from_bytes([0u8; 32]).unwrap();
    let domain = HashDomain::from_Q(id);
    // No pieces: the result is Q itself, whose extracted coordinate is zero.
    assert_eq!(domain.hash_to_point(&[]), Some(id));
    assert_eq!(domain.hash(&[]), Some(Base::zero()));
    // 0 ⸭ S = ⊥.
    assert_eq!(domain.hash_to_point(&[true]), None);
    assert_eq!(domain.hash(&[true]), None);
}

#[test]
fn incomplete_addition_cases() {
    let p = from_pallas(pallas::Point::hash_to_curve("test")(b"p"));
    let q = from_pallas(pallas::Point::hash_to_curve("test")(b"q"));
    let id = Point::from_bytes([0u8; 32]).unwrap();
    let ip = IncompletePoint::from_point(p);
    let bottom = IncompletePoint(None);
    assert_eq!(ip.add(bottom), bottom);
    assert_eq!(bottom.add(ip), bottom);
    assert_eq!(ip.add(ip), bottom);
    assert_eq!(ip.add(IncompletePoint::from_point(p.neg())), bottom);
    assert_eq!(ip.add(IncompletePoint::from_point(id)), bottom);
    assert_eq!(
        ip.add(IncompletePoint::from_point(q)).into_option(),
        Some(p.add(&q))
    );
}

#[test]
fn hash_and_commit_relations() {
    let msg = [true, true, false, true, false, false, true, false, true, false, true, true];
    let h = HashDomain::new("z.cash:test-relations");
    let point = h.hash_to_point(&msg).unwrap();
    let x = *to_pallas(point).to_affine().coordinates().unwrap().x();
    assert_eq!(h.hash(&msg).unwrap().to_repr(), x.to_repr());
    // Padding the message by hand does not change the hash.
    let padded = Pad::new(&msg).collect();
    assert_eq!(h.hash_to_point(&padded), Some(point));

    let c = CommitDomain::new("z.cash:test-relations");
    let r = Scalar::from_u64(99);
    let m = HashDomain::from_Q(c.Q()).hash_to_point(&msg).unwrap();
    let expected = to_pallas(m) + to_pallas(c.R()) * pallas::Scalar::from(99u64);
    let commitment = c.commit(&msg, &r).unwrap();
    assert_eq!(to_pallas(commitment), expected);
    let x = *expected.to_affine().coordinates().unwrap().x();
    assert_eq!(c.short_commit(&msg, &r).unwrap().to_repr(), x.to_repr());
}

#[test]
fn empty_message_hashes_to_q() {
    let domain = HashDomain::new("z.cash:test-empty");
    assert_eq!(domain.hash_to_point(&[]), Some(domain.Q()));
    let mut calls = 0;
    assert_eq!(
        domain.hash_to_point_with_progress(&[], &mut Callback::new(|| calls += 1)),
        Some(domain.Q())
    );
    assert_eq!(calls, 0);
}

#[test]
fn bottom_stays_bottom() {
    let id = Point::from_bytes([0u8; 32]).unwrap();
    let domain = HashDomain::from_Q(id);
    let mut calls = 0;
    assert_eq!(
        domain.hash_to_point_with_progress(&[true; 35], &mut Callback::new(|| calls += 1)),
        None
    );
    assert_eq!(calls, 4);
}
