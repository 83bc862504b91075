use vstd::prelude::*;
use vstd::arithmetic::div_mod::lemma_add_mod_noop_right;
use crate::suite::{Decryptor, Suite};

verus! {

/// The one rejection of the share conversion. It does not tell which check
/// failed, so that a failure leaks nothing about the cause.
#[derive(Debug, PartialEq, Eq, Structural)]
pub enum MtaError {
    InvalidKey,
}

/// First message, from A to B: A's secret under A's key, and one range proof
/// per verifier statement, in the order of the statements.
pub struct MessageA<S: Suite> {
    pub c: S::Int,
    pub range_proofs: Vec<S::RangeProof>,
}

/// Second message, from B to A: `b * a + beta_tag` under A's key, with proofs
/// of knowledge of `b` and of `beta_tag` reduced into the scalar field.
pub struct MessageB<S: Suite> {
    pub c: S::Int,
    pub b_proof: S::DLogProof,
    pub beta_tag_proof: S::DLogProof,
}

/// Each range proof of `m_a` is accepted for the statement at its position,
/// and there are as many proofs as statements.
pub open spec fn range_proofs_accepted<S: Suite>(
    m_a: MessageA<S>,
    ek: S::EncryptionKey,
    statements: Seq<S::Statement>,
) -> bool {
    &&& m_a.range_proofs@.len() == statements.len()
    &&& forall|i: int|
        0 <= i < statements.len() ==> #[trigger] S::range_accepts(
            m_a.range_proofs@[i],
            S::int_val(m_a.c),
            ek,
            statements[i],
        )
}

/// `m_a` is A's first message for secret `a` and encryption randomness `r`.
pub open spec fn is_message_a<S: Suite>(
    m_a: MessageA<S>,
    a: nat,
    ek: S::EncryptionKey,
    r: nat,
    statements: Seq<S::Statement>,
) -> bool {
    &&& S::int_val(m_a.c) == S::encryption(ek, a, r)
    &&& m_a.range_proofs@.len() == statements.len()
    &&& r < S::modulus(ek) ==> range_proofs_accepted(m_a, ek, statements)
}

/// The additive share `0 - beta_tag` of B, in the scalar field.
pub open spec fn beta_of<S: Suite>(beta_tag: nat) -> nat {
    ((S::order() - beta_tag % S::order()) % (S::order() as int)) as nat
}

/// `m_b` and `beta` answer a first message with ciphertext `c_a`, for B's
/// secret `b`, encryption randomness `r` and blinding value `beta_tag`.
pub open spec fn is_message_b<S: Suite>(
    m_b: MessageB<S>,
    beta: S::Scalar,
    ek: S::EncryptionKey,
    c_a: nat,
    b: nat,
    r: nat,
    beta_tag: nat,
) -> bool {
    &&& S::int_val(m_b.c) == S::cipher_add(
        ek,
        S::cipher_mul(ek, c_a, b),
        S::encryption(ek, beta_tag, r),
    )
    &&& S::scalar_val(beta) == beta_of::<S>(beta_tag)
    &&& S::dlog_accepts(m_b.b_proof)
    &&& S::point_log(S::dlog_public(m_b.b_proof)) == b
    &&& S::dlog_accepts(m_b.beta_tag_proof)
    &&& S::point_log(S::dlog_public(m_b.beta_tag_proof)) == beta_tag % S::order()
}

/// The checks that A makes on a second message before trusting the share
/// `alpha`: both proofs hold and `b * a + beta_tag == alpha` in the exponent.
pub open spec fn share_accepted<S: Suite>(m_b: MessageB<S>, a: nat, alpha: nat) -> bool {
    &&& S::dlog_accepts(m_b.b_proof)
    &&& S::dlog_accepts(m_b.beta_tag_proof)
    &&& (S::point_log(S::dlog_public(m_b.b_proof)) * a + S::point_log(
        S::dlog_public(m_b.beta_tag_proof),
    )) % S::order() == alpha
}

impl<S: Suite> MessageA<S> {
    /// Builds A's first message with fresh randomness below the key's
    /// modulus, and returns the randomness too.
    pub fn a(a: &S::Scalar, alice_ek: &S::EncryptionKey, dlog_statements: &[S::Statement]) -> (res:
        (Self, S::Int))
        requires
            S::valid_key(*alice_ek),
        ensures
            S::int_val(res.1) < S::modulus(*alice_ek),
            is_message_a(res.0, S::scalar_val(*a), *alice_ek, S::int_val(res.1), dlog_statements@),
            range_proofs_accepted(res.0, *alice_ek, dlog_statements@),
    {
        proof {
            S::lemma_valid_key(*alice_ek);
        }
        let n = S::key_modulus(alice_ek);
        let randomness = S::sample_below(&n);
        let m_a = MessageA::a_with_predefined_randomness(a, alice_ek, &randomness, dlog_statements);
        (m_a, randomness)
    }

    /// Builds A's first message with the given encryption randomness.
    pub fn a_with_predefined_randomness(
        a: &S::Scalar,
        alice_ek: &S::EncryptionKey,
        randomness: &S::Int,
        dlog_statements: &[S::Statement],
    ) -> (m_a: Self)
        requires
            S::valid_key(*alice_ek),
        ensures
            is_message_a(m_a, S::scalar_val(*a), *alice_ek, S::int_val(*randomness), dlog_statements@),
    {
        let a_int = S::scalar_to_int(a);
        let c_a = S::encrypt(alice_ek, &a_int, randomness);
        proof {
            S::lemma_scalar_bound(*a);
        }
        let mut range_proofs: Vec<S::RangeProof> = Vec::new();
        let mut i: usize = 0;
        while i < dlog_statements.len()
            invariant
                i <= dlog_statements@.len(),
                range_proofs@.len() == i,
                S::int_val(c_a) == S::encryption(*alice_ek, S::scalar_val(*a), S::int_val(*randomness)),
                S::int_val(a_int) == S::scalar_val(*a),
                S::scalar_val(*a) < S::order(),
                S::valid_key(*alice_ek),
                S::int_val(*randomness) < S::modulus(*alice_ek) ==> forall|j: int|
                    0 <= j < i ==> #[trigger] S::range_accepts(
                        range_proofs@[j],
                        S::int_val(c_a),
                        *alice_ek,
                        dlog_statements@[j],
                    ),
            decreases dlog_statements@.len() - i,
        {
            let proof = S::range_prove(&a_int, &c_a, alice_ek, &dlog_statements[i], randomness);
            range_proofs.push(proof);
            i = i + 1;
        }
        MessageA { c: c_a, range_proofs }
    }
}

impl<S: Suite> MessageB<S> {
    /// Answers A's first message with fresh randomness and a fresh blinding
    /// value, both below the key's modulus. Returns the message, B's share
    /// `beta`, the randomness and the blinding value.
    pub fn b(
        b: &S::Scalar,
        alice_ek: &S::EncryptionKey,
        m_a: MessageA<S>,
        dlog_statements: &[S::Statement],
    ) -> (res: Result<(Self, S::Scalar, S::Int, S::Int), MtaError>)
        requires
            S::valid_key(*alice_ek),
        ensures
            res is Err <==> !range_proofs_accepted(m_a, *alice_ek, dlog_statements@),
            res matches Ok((m_b, beta, r, beta_tag)) ==> {
                &&& S::int_val(r) < S::modulus(*alice_ek)
                &&& S::int_val(beta_tag) < S::modulus(*alice_ek)
                &&& is_message_b(
                    m_b,
                    beta,
                    *alice_ek,
                    S::int_val(m_a.c),
                    S::scalar_val(*b),
                    S::int_val(r),
                    S::int_val(beta_tag),
                )
            },
    {
        proof {
            S::lemma_valid_key(*alice_ek);
        }
        let n = S::key_modulus(alice_ek);
        let beta_tag = S::sample_below(&n);
        let randomness = S::sample_below(&n);
        match MessageB::b_with_predefined_randomness(
            b,
            alice_ek,
            m_a,
            &randomness,
            &beta_tag,
            dlog_statements,
        ) {
            Ok((m_b, beta)) => Ok((m_b, beta, randomness, beta_tag)),
            Err(e) => Err(e),
        }
    }

    /// Answers A's first message with the given encryption randomness and
    /// blinding value `beta_tag`. Every range proof is checked against its
    /// statement, all of them whatever the outcome of the others.
    pub fn b_with_predefined_randomness(
        b: &S::Scalar,
        alice_ek: &S::EncryptionKey,
        m_a: MessageA<S>,
        randomness: &S::Int,
        beta_tag: &S::Int,
        dlog_statements: &[S::Statement],
    ) -> (res: Result<(Self, S::Scalar), MtaError>)
        requires
            S::valid_key(*alice_ek),
        ensures
            res is Err <==> !range_proofs_accepted(m_a, *alice_ek, dlog_statements@),
            res matches Ok((m_b, beta)) ==> is_message_b(
                m_b,
                beta,
                *alice_ek,
                S::int_val(m_a.c),
                S::scalar_val(*b),
                S::int_val(*randomness),
                S::int_val(*beta_tag),
            ),
    {
        if m_a.range_proofs.len() != dlog_statements.len() {
            return Err(MtaError::InvalidKey);
        }
        let mut all_valid = true;
        let mut i: usize = 0;
        while i < dlog_statements.len()
            invariant
                i <= dlog_statements@.len(),
                m_a.range_proofs@.len() == dlog_statements@.len(),
                S::valid_key(*alice_ek),
                all_valid == forall|j: int|
                    0 <= j < i ==> #[trigger] S::range_accepts(
                        m_a.range_proofs@[j],
                        S::int_val(m_a.c),
                        *alice_ek,
                        dlog_statements@[j],
                    ),
            decreases dlog_statements@.len() - i,
        {
            let ok = S::range_verify(&m_a.range_proofs[i], &m_a.c, alice_ek, &dlog_statements[i]);
            all_valid = all_valid && ok;
            i = i + 1;
        }
        if !all_valid {
            return Err(MtaError::InvalidKey);
        }
        let beta_tag_fe = S::scalar_from_int(beta_tag);
        let c_beta_tag = S::encrypt(alice_ek, beta_tag, randomness);
        let b_bn = S::scalar_to_int(b);
        let b_c_a = S::mul(alice_ek, &m_a.c, &b_bn);
        let c_b = S::add(alice_ek, &b_c_a, &c_beta_tag);
        let beta = S::scalar_neg(&beta_tag_fe);
        let dlog_proof_b = S::dlog_prove(b);
        let dlog_proof_beta_tag = S::dlog_prove(&beta_tag_fe);
        Ok((MessageB { c: c_b, b_proof: dlog_proof_b, beta_tag_proof: dlog_proof_beta_tag }, beta))
    }

    /// Derives A's share `alpha` from the decrypted plaintext of this
    /// message, after checking both proofs and the exponent equation.
    pub fn alpha_from_plaintext(&self, plaintext: &S::Int, a: &S::Scalar) -> (res: Result<
        S::Scalar,
        MtaError,
    >)
        ensures
            res is Ok <==> share_accepted(*self, S::scalar_val(*a), S::int_val(*plaintext) % S::order()),
            res matches Ok(alpha) ==> S::scalar_val(alpha) == S::int_val(*plaintext) % S::order(),
    {
        let alpha = S::scalar_from_int(plaintext);
        let g_alpha = S::generator_mul(&alpha);
        let pk_b = S::dlog_public_point(&self.b_proof);
        let pk_beta_tag = S::dlog_public_point(&self.beta_tag_proof);
        let b_a = S::point_mul(&pk_b, a);
        let ba_btag = S::point_add(&b_a, &pk_beta_tag);
        proof {
            S::lemma_order();
            let q = S::order() as int;
            let lb = S::point_log(pk_b) as int;
            let lbt = S::point_log(pk_beta_tag) as int;
            lemma_add_mod_noop_right(lbt, lb * S::scalar_val(*a), q);
            assert(S::point_log(ba_btag) == (lb * S::scalar_val(*a) + lbt) % q);
        }
        let proofs_ok = S::dlog_verify(&self.b_proof) && S::dlog_verify(&self.beta_tag_proof);
        if proofs_ok && S::point_eq(&ba_btag, &g_alpha) {
            Ok(alpha)
        } else {
            Err(MtaError::InvalidKey)
        }
    }

    /// A's final step: decrypts this message with `dk`, checks it, and
    /// returns A's share `alpha` with the decrypted plaintext.
    pub fn verify_proofs_get_alpha(&self, dk: &S::DecryptionKey, a: &S::Scalar) -> (res: Result<
        (S::Scalar, S::Int),
        MtaError,
    >)
        requires
            S::valid_decryption_key(*dk),
        ensures
            ({
                let pt = S::plaintext(S::public_of(*dk), S::int_val(self.c));
                &&& res is Ok <==> share_accepted(*self, S::scalar_val(*a), pt % S::order())
                &&& res matches Ok((alpha, share)) ==> S::scalar_val(alpha) == pt % S::order()
                    && S::int_val(share) == pt
            }),
    {
        let alice_share = S::decrypt(dk, &self.c);
        match self.alpha_from_plaintext(&alice_share, a) {
            Ok(alpha) => Ok((alpha, alice_share)),
            Err(e) => Err(e),
        }
    }

    /// As [`MessageB::verify_proofs_get_alpha`], decrypting through a key
    /// holder instead of a raw decryption key.
    pub fn verify_proofs_get_alpha_gg18<D: Decryptor<S>>(&self, private: &D, a: &S::Scalar) -> (res:
        Result<S::Scalar, MtaError>)
        requires
            private.valid(),
        ensures
            ({
                let pt = S::plaintext(private.public_key(), S::int_val(self.c));
                &&& res is Ok <==> share_accepted(*self, S::scalar_val(*a), pt % S::order())
                &&& res matches Ok(alpha) ==> S::scalar_val(alpha) == pt % S::order()
            }),
    {
        let alice_share = private.decrypt(&self.c);
        self.alpha_from_plaintext(&alice_share, a)
    }

    /// Compares a publicly known `b * G` with the one carried by a message.
    pub fn verify_b_against_public(public_gb: &S::Point, mta_gb: &S::Point) -> (r: bool)
        ensures
            r == (S::point_log(*public_gb) == S::point_log(*mta_gb)),
    {
        S::point_eq(public_gb, mta_gb)
    }
}

} // verus!
