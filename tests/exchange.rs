use mta::mta::{MessageA, MessageB, MtaError};
use mta::small::{
    SmallDecryptionKey, SmallEncryptionKey, SmallScalar, SmallStatement, SmallSuite, ORDER,
};
use mta::suite::Suite;

const N: u64 = 2_147_483_647;

fn statements() -> Vec<SmallStatement> {
    vec![
        SmallStatement { h1: 2, h2: 3, n_tilde: 77 },
        SmallStatement { h1: 5, h2: 7, n_tilde: 91 },
        SmallStatement { h1: 4, h2: 9, n_tilde: 143 },
    ]
}

fn honest_a(a: u64, st: &[SmallStatement]) -> MessageA<SmallSuite> {
    let ek = SmallEncryptionKey { n: N };
    MessageA::<SmallSuite>::a_with_predefined_randomness(&SmallScalar::new(a), &ek, &12345, st)
}

#[test]
fn fixed_vector() {
    let ek = SmallEncryptionKey { n: 101 };
    let dk = SmallDecryptionKey { n: 101 };
    let a = SmallScalar::new(3);
    let b = SmallScalar::new(5);
    let st = vec![SmallStatement { h1: 2, h2: 3, n_tilde: 77 }];
    let m_a = MessageA::<SmallSuite>::a_with_predefined_randomness(&a, &ek, &7, &st);
    assert_eq!(m_a.c, 710);
    assert_eq!(m_a.range_proofs.len(), 1);
    let (m_b, beta) =
        MessageB::<SmallSuite>::b_with_predefined_randomness(&b, &ek, m_a, &13, &42, &st).unwrap();
    assert_eq!(m_b.c, 4905);
    assert_eq!(beta.value(), 2);
    let (alpha, share) = m_b.verify_proofs_get_alpha(&dk, &a).unwrap();
    assert_eq!(share, 57);
    assert_eq!(alpha.value(), 2);
    assert_eq!((alpha.value() + beta.value()) % ORDER, 15 % ORDER);
    let alpha2 = m_b.verify_proofs_get_alpha_gg18(&dk, &a).unwrap();
    assert_eq!(alpha2.value(), 2);
}

#[test]
fn honest_exchange_shares_add_up() {
    let ek = SmallEncryptionKey { n: N };
    let dk = SmallDecryptionKey { n: N };
    let st = statements();
    for av in 0..ORDER {
        for bv in 0..ORDER {
            let a = SmallScalar::new(av);
            let b = SmallScalar::new(bv);
            let (m_a, r_a) = MessageA::<SmallSuite>::a(&a, &ek, &st);
            assert!(r_a < N);
            let (m_b, beta, r_b, beta_tag) = MessageB::<SmallSuite>::b(&b, &ek, m_a, &st).unwrap();
            assert!(r_b < N);
            assert!(beta_tag < N);
            assert_eq!(beta.value(), (ORDER - beta_tag % ORDER) % ORDER);
            let (alpha, share) = m_b.verify_proofs_get_alpha(&dk, &a).unwrap();
            assert_eq!(share, av * bv + beta_tag);
            assert_eq!((alpha.value() + beta.value()) % ORDER, (av * bv) % ORDER);
        }
    }
}

#[test]
fn tampered_range_proof_rejected() {
    let ek = SmallEncryptionKey { n: N };
    let st = statements();
    let mut m_a = honest_a(4, &st);
    m_a.range_proofs[1].c ^= 1;
    let r = MessageB::<SmallSuite>::b_with_predefined_randomness(
        &SmallScalar::new(6), &ek, m_a, &99, &1000, &st,
    );
    assert_eq!(r.err(), Some(MtaError::InvalidKey));
}

#[test]
fn tampered_ciphertext_rejected() {
    let ek = SmallEncryptionKey { n: N };
    let st = statements();
    let mut m_a = honest_a(4, &st);
    m_a.c ^= 1 << 5;
    let r = MessageB::<SmallSuite>::b_with_predefined_randomness(
        &SmallScalar::new(6), &ek, m_a, &99, &1000, &st,
    );
    assert!(r.is_err());
}

#[test]
fn swapped_statements_rejected() {
    let ek = SmallEncryptionKey { n: N };
    let st = statements();
    let m_a = honest_a(4, &st);
    let swapped = vec![st[1], st[0], st[2]];
    let r = MessageB::<SmallSuite>::b_with_predefined_randomness(
        &SmallScalar::new(6), &ek, m_a, &99, &1000, &swapped,
    );
    assert!(r.is_err());
}

#[test]
fn one_statement_short_rejected() {
    let ek = SmallEncryptionKey { n: N };
    let st = statements();
    let m_a = honest_a(4, &st);
    let r = MessageB::<SmallSuite>::b_with_predefined_randomness(
        &SmallScalar::new(6), &ek, m_a, &99, &1000, &st[..2],
    );
    assert_eq!(r.err(), Some(MtaError::InvalidKey));
    let m_a = honest_a(4, &st);
    let r = MessageB::<SmallSuite>::b(&SmallScalar::new(6), &ek, m_a, &st[..2]);
    assert!(r.is_err());
}

#[test]
fn no_statements_accepted() {
    let ek = SmallEncryptionKey { n: N };
    let m_a = honest_a(4, &[]);
    assert!(m_a.range_proofs.is_empty());
    let r = MessageB::<SmallSuite>::b_with_predefined_randomness(
        &SmallScalar::new(6), &ek, m_a, &99, &1000, &[],
    );
    assert!(r.is_ok());
}

#[test]
fn predefined_randomness_is_deterministic() {
    let ek = SmallEncryptionKey { n: N };
    let st = statements();
    let m1 = honest_a(7, &st);
    let m2 = honest_a(7, &st);
    assert_eq!(m1.c, m2.c);
    let b = SmallScalar::new(9);
    let (b1, beta1) =
        MessageB::<SmallSuite>::b_with_predefined_randomness(&b, &ek, m1, &55, &777, &st).unwrap();
    let (b2, beta2) =
        MessageB::<SmallSuite>::b_with_predefined_randomness(&b, &ek, m2, &55, &777, &st).unwrap();
    assert_eq!(b1.c, b2.c);
    assert_eq!(beta1.value(), beta2.value());
}

#[test]
fn fresh_randomness_differs() {
    let ek = SmallEncryptionKey { n: N };
    let st = statements();
    let a = SmallScalar::new(7);
    let (m1, r1) = MessageA::<SmallSuite>::a(&a, &ek, &st);
    let (m2, r2) = MessageA::<SmallSuite>::a(&a, &ek, &st);
    assert_ne!(r1, r2);
    assert_ne!(m1.c, m2.c);
}

#[test]
fn public_check_compares_commitments() {
    let p5 = <SmallSuite as Suite>::generator_mul(&SmallScalar::new(5));
    let p5b = <SmallSuite as Suite>::dlog_public_point(&<SmallSuite as Suite>::dlog_prove(
        &SmallScalar::new(16),
    ));
    let p6 = <SmallSuite as Suite>::generator_mul(&SmallScalar::new(6));
    assert!(MessageB::<SmallSuite>::verify_b_against_public(&p5, &p5b));
    assert!(!MessageB::<SmallSuite>::verify_b_against_public(&p5, &p6));
}

#[test]
fn public_check_ignores_proof_validity() {
    let ek = SmallEncryptionKey { n: N };
    let st = statements();
    let b = SmallScalar::new(8);
    let (mut m_b, _) = MessageB::<SmallSuite>::b_with_predefined_randomness(
        &b, &ek, honest_a(2, &st), &3, &4, &st,
    )
    .unwrap();
    m_b.b_proof.z = SmallScalar::new(m_b.b_proof.z.value() + 1);
    assert!(!<SmallSuite as Suite>::dlog_verify(&m_b.b_proof));
    let public_gb = <SmallSuite as Suite>::generator_mul(&b);
    assert!(MessageB::<SmallSuite>::verify_b_against_public(&public_gb, &m_b.b_proof.pk));
}

#[test]
fn tampered_b_proof_rejected_at_extraction() {
    let ek = SmallEncryptionKey { n: N };
    let dk = SmallDecryptionKey { n: N };
    let st = statements();
    let a = SmallScalar::new(3);
    let (mut m_b, _) = MessageB::<SmallSuite>::b_with_predefined_randomness(
        &SmallScalar::new(5), &ek, honest_a(3, &st), &3, &4, &st,
    )
    .unwrap();
    assert!(m_b.verify_proofs_get_alpha(&dk, &a).is_ok());
    m_b.b_proof = <SmallSuite as Suite>::dlog_prove(&SmallScalar::new(6));
    assert!(<SmallSuite as Suite>::dlog_verify(&m_b.b_proof));
    assert_eq!(<SmallSuite as Suite>::decrypt(&dk, &m_b.c), 3 * 5 + 4);
    assert_eq!(m_b.verify_proofs_get_alpha(&dk, &a).err(), Some(MtaError::InvalidKey));
    assert_eq!(m_b.verify_proofs_get_alpha_gg18(&dk, &a).err(), Some(MtaError::InvalidKey));
}

#[test]
fn invalid_beta_tag_proof_rejected() {
    let ek = SmallEncryptionKey { n: N };
    let dk = SmallDecryptionKey { n: N };
    let st = statements();
    let (mut m_b, _) = MessageB::<SmallSuite>::b_with_predefined_randomness(
        &SmallScalar::new(5), &ek, honest_a(3, &st), &3, &4, &st,
    )
    .unwrap();
    m_b.beta_tag_proof.z = SmallScalar::new(m_b.beta_tag_proof.z.value() + 3);
    assert!(m_b.verify_proofs_get_alpha(&dk, &SmallScalar::new(3)).is_err());
}

#[test]
fn wrong_secret_rejected_at_extraction() {
    let ek = SmallEncryptionKey { n: N };
    let dk = SmallDecryptionKey { n: N };
    let st = statements();
    let (m_b, _) = MessageB::<SmallSuite>::b_with_predefined_randomness(
        &SmallScalar::new(5), &ek, honest_a(3, &st), &3, &4, &st,
    )
    .unwrap();
    assert!(m_b.verify_proofs_get_alpha(&dk, &SmallScalar::new(4)).is_err());
}

#[test]
fn alpha_from_plaintext_reduces() {
    let ek = SmallEncryptionKey { n: N };
    let st = statements();
    let (m_b, _) = MessageB::<SmallSuite>::b_with_predefined_randomness(
        &SmallScalar::new(5), &ek, honest_a(3, &st), &3, &20, &st,
    )
    .unwrap();
    let alpha = m_b.alpha_from_plaintext(&35, &SmallScalar::new(3)).unwrap();
    assert_eq!(alpha.value(), 2);
    assert!(m_b.alpha_from_plaintext(&36, &SmallScalar::new(3)).is_err());
}

#[test]
fn beta_tag_reduced_into_field() {
    let ek = SmallEncryptionKey { n: N };
    let st = statements();
    let (m_b, beta) = MessageB::<SmallSuite>::b_with_predefined_randomness(
        &SmallScalar::new(5), &ek, honest_a(3, &st), &3, &1_000_000, &st,
    )
    .unwrap();
    assert_eq!(beta.value(), (11 - 1_000_000 % 11) % 11);
    assert_eq!(m_b.beta_tag_proof.pk.log(), 1_000_000 % 11);
    assert_eq!(m_b.b_proof.pk.log(), 5);
    let (_, beta0) = MessageB::<SmallSuite>::b_with_predefined_randomness(
        &SmallScalar::new(5), &ek, honest_a(3, &st), &3, &22, &st,
    )
    .unwrap();
    assert_eq!(beta0.value(), 0);
}

#[test]
fn sample_below_stays_below() {
    for n in [1u64, 2, 12, 1000, N] {
        for _ in 0..20 {
            assert!(<SmallSuite as Suite>::sample_below(&n) < n);
        }
    }
}

#[test]
fn small_arithmetic() {
    let s = SmallScalar::new(25);
    assert_eq!(s.value(), 3);
    assert_eq!(<SmallSuite as Suite>::scalar_neg(&s).value(), 8);
    assert_eq!(<SmallSuite as Suite>::scalar_neg(&SmallScalar::new(0)).value(), 0);
    let p = <SmallSuite as Suite>::generator_mul(&SmallScalar::new(7));
    let q = <SmallSuite as Suite>::point_mul(&p, &SmallScalar::new(5));
    assert_eq!(q.log(), 2);
    assert_eq!(<SmallSuite as Suite>::point_add(&p, &q).log(), 9);
    let ek = SmallEncryptionKey { n: 101 };
    let c = <SmallSuite as Suite>::encrypt(&ek, &20, &3);
    assert_eq!(c, 323);
    let d = <SmallSuite as Suite>::mul(&ek, &c, &4);
    let e = <SmallSuite as Suite>::add(&ek, &d, &c);
    let dk = SmallDecryptionKey { n: 101 };
    assert_eq!(<SmallSuite as Suite>::decrypt(&dk, &d), 80);
    assert_eq!(<SmallSuite as Suite>::decrypt(&dk, &e), 100);
}
