use vstd::prelude::*;
use vstd::arithmetic::div_mod::{
    lemma_add_mod_noop,
    lemma_add_mod_noop_right,
    lemma_fundamental_div_mod,
    lemma_mod_equivalence,
    lemma_mod_multiples_vanish,
    lemma_mul_mod_noop_left,
    lemma_mul_mod_noop_right,
    lemma_small_mod,
};
use vstd::arithmetic::mul::{lemma_mul_is_associative, lemma_mul_is_commutative};
use crate::mta::{
    beta_of,
    is_message_a,
    is_message_b,
    range_proofs_accepted,
    share_accepted,
    MessageA,
    MessageB,
};
use crate::suite::Suite;

verus! {

/// The plaintext that an honest second message carries under A's key is
/// `a * b + beta_tag`, as long as that sum stays below the key's modulus.
proof fn lemma_honest_plaintext<S: Suite>(
    ek: S::EncryptionKey,
    a: nat,
    b: nat,
    r_a: nat,
    r_b: nat,
    beta_tag: nat,
)
    requires
        S::valid_key(ek),
        a < S::order(),
        a * b + beta_tag < S::modulus(ek),
    ensures
        S::plaintext(
            ek,
            S::cipher_add(
                ek,
                S::cipher_mul(ek, S::encryption(ek, a, r_a), b),
                S::encryption(ek, beta_tag, r_b),
            ),
        ) == a * b + beta_tag,
{
    let n = S::modulus(ek);
    let c_a = S::encryption(ek, a, r_a);
    let c_ab = S::cipher_mul(ek, c_a, b);
    let c_bt = S::encryption(ek, beta_tag, r_b);
    S::lemma_valid_key(ek);
    S::lemma_plaintext_encryption(ek, a, r_a);
    lemma_small_mod(a, n);
    S::lemma_plaintext_mul(ek, c_a, b);
    lemma_small_mod(a * b, n);
    S::lemma_plaintext_encryption(ek, beta_tag, r_b);
    lemma_small_mod(beta_tag, n);
    S::lemma_plaintext_add(ek, c_ab, c_bt);
    lemma_small_mod(a * b + beta_tag, n);
}

/// An honest exchange succeeds: B accepts every range proof of A's first
/// message, A accepts B's second message, and the two shares add up to
/// `a * b` in the scalar field. This holds whenever `a * b + beta_tag` stays
/// below the modulus of A's key, which a blinding value drawn below that
/// modulus violates only with negligible probability.
pub proof fn lemma_honest_exchange<S: Suite>(
    dk: S::DecryptionKey,
    a: S::Scalar,
    b: S::Scalar,
    m_a: MessageA<S>,
    r_a: nat,
    statements: Seq<S::Statement>,
    m_b: MessageB<S>,
    beta: S::Scalar,
    r_b: nat,
    beta_tag: nat,
)
    requires
        S::valid_decryption_key(dk),
        is_message_a(m_a, S::scalar_val(a), S::public_of(dk), r_a, statements),
        r_a < S::modulus(S::public_of(dk)),
        is_message_b(
            m_b,
            beta,
            S::public_of(dk),
            S::int_val(m_a.c),
            S::scalar_val(b),
            r_b,
            beta_tag,
        ),
        S::scalar_val(a) * S::scalar_val(b) + beta_tag < S::modulus(S::public_of(dk)),
    ensures
        range_proofs_accepted(m_a, S::public_of(dk), statements),
        ({
            let alpha = S::plaintext(S::public_of(dk), S::int_val(m_b.c)) % S::order();
            &&& share_accepted(m_b, S::scalar_val(a), alpha)
            &&& (alpha + S::scalar_val(beta)) % S::order() == (S::scalar_val(a) * S::scalar_val(b))
                % S::order()
        }),
{
    let ek = S::public_of(dk);
    let q = S::order() as int;
    let av = S::scalar_val(a);
    let bv = S::scalar_val(b);
    S::lemma_valid_decryption_key(dk);
    S::lemma_order();
    S::lemma_scalar_bound(a);
    lemma_honest_plaintext::<S>(ek, av, bv, r_a, r_b, beta_tag);
    let ab = av * bv;
    let bt = beta_tag as int;
    // the shares
    lemma_fundamental_div_mod(bt, q);
    lemma_add_mod_noop(ab + bt, q - bt % q, q);
    assert((q - bt % q) % q == beta_of::<S>(beta_tag));
    let d = bt / q;
    assert(q * (d + 1) == q * d + q) by (nonlinear_arith);
    assert(ab + bt + (q - bt % q) == q * (bt / q + 1) + ab);
    lemma_mod_multiples_vanish(bt / q + 1, ab as int, q);
    // the exponent equation
    lemma_mul_is_commutative(av as int, bv as int);
    lemma_add_mod_noop_right((bv * av) as int, bt, q);
}

/// The builders with predefined randomness are deterministic: two first
/// messages made from the same secret, key, randomness and statements carry
/// the same ciphertext.
pub proof fn lemma_message_a_deterministic<S: Suite>(
    m1: MessageA<S>,
    m2: MessageA<S>,
    a: nat,
    ek: S::EncryptionKey,
    r: nat,
    statements: Seq<S::Statement>,
)
    requires
        is_message_a(m1, a, ek, r, statements),
        is_message_a(m2, a, ek, r, statements),
    ensures
        S::int_val(m1.c) == S::int_val(m2.c),
{
}

/// Two second messages made from the same first-message ciphertext, secret,
/// key, randomness and blinding value carry the same ciphertext, and the
/// shares that come with them are equal.
pub proof fn lemma_message_b_deterministic<S: Suite>(
    m1: MessageB<S>,
    beta1: S::Scalar,
    m2: MessageB<S>,
    beta2: S::Scalar,
    ek: S::EncryptionKey,
    c_a: nat,
    b: nat,
    r: nat,
    beta_tag: nat,
)
    requires
        is_message_b(m1, beta1, ek, c_a, b, r, beta_tag),
        is_message_b(m2, beta2, ek, c_a, b, r, beta_tag),
    ensures
        S::int_val(m1.c) == S::int_val(m2.c),
        S::scalar_val(beta1) == S::scalar_val(beta2),
{
}

/// If an honest second message has its proof for `b` replaced by an accepted
/// proof for another scalar `b2`, A rejects it, although the ciphertext still
/// decrypts to `a * b + beta_tag`. This needs `a` to be nonzero: a zero `a`
/// cancels `b` out of the exponent equation.
pub proof fn lemma_tampered_b_proof_rejected<S: Suite>(
    dk: S::DecryptionKey,
    a: S::Scalar,
    b: S::Scalar,
    m_a: MessageA<S>,
    r_a: nat,
    statements: Seq<S::Statement>,
    m_b: MessageB<S>,
    beta: S::Scalar,
    r_b: nat,
    beta_tag: nat,
    b2: S::Scalar,
    tampered: MessageB<S>,
)
    requires
        S::valid_decryption_key(dk),
        is_message_a(m_a, S::scalar_val(a), S::public_of(dk), r_a, statements),
        is_message_b(
            m_b,
            beta,
            S::public_of(dk),
            S::int_val(m_a.c),
            S::scalar_val(b),
            r_b,
            beta_tag,
        ),
        S::scalar_val(a) * S::scalar_val(b) + beta_tag < S::modulus(S::public_of(dk)),
        S::scalar_val(a) != 0,
        S::scalar_val(b2) != S::scalar_val(b),
        tampered.c == m_b.c,
        tampered.beta_tag_proof == m_b.beta_tag_proof,
        S::point_log(S::dlog_public(tampered.b_proof)) == S::scalar_val(b2),
    ensures
        !share_accepted(
            tampered,
            S::scalar_val(a),
            S::plaintext(S::public_of(dk), S::int_val(tampered.c)) % S::order(),
        ),
{
    let ek = S::public_of(dk);
    let q = S::order() as int;
    let av = S::scalar_val(a);
    let bv = S::scalar_val(b);
    let b2v = S::scalar_val(b2);
    S::lemma_valid_decryption_key(dk);
    S::lemma_order();
    S::lemma_scalar_bound(a);
    S::lemma_scalar_bound(b);
    S::lemma_scalar_bound(b2);
    lemma_honest_plaintext::<S>(ek, av, bv, r_a, r_b, beta_tag);
    let z = (beta_tag % S::order()) as int;
    let x = (b2v * av) as int;
    let y = (bv * av) as int;
    lemma_mul_is_commutative(av as int, bv as int);
    lemma_add_mod_noop_right(y, beta_tag as int, q);
    if share_accepted(tampered, av, S::plaintext(ek, S::int_val(tampered.c)) % S::order()) {
        assert((x + z) % q == (y + z) % q);
        lemma_mod_equivalence(x + z, y + z, q);
        assert((x + z) - (y + z) == x - y);
        lemma_mod_equivalence(x, y, q);
        let inv = S::lemma_inverse(av);
        lemma_mul_mod_noop_left(x, inv as int, q);
        lemma_mul_mod_noop_left(y, inv as int, q);
        lemma_mul_is_associative(b2v as int, av as int, inv as int);
        lemma_mul_is_associative(bv as int, av as int, inv as int);
        lemma_mul_mod_noop_right(b2v as int, (av * inv) as int, q);
        lemma_mul_mod_noop_right(bv as int, (av * inv) as int, q);
        lemma_small_mod(b2v, q as nat);
        lemma_small_mod(bv, q as nat);
        assert(false);
    }
}

} // verus!
