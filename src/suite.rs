use vstd::prelude::*;

verus! {

/// The cryptographic collaborators of the share conversion.
///
/// Values are modelled mathematically: a large integer by its natural number,
/// a scalar by its residue below the group order `q`, a point by its discrete
/// logarithm with respect to the generator, and a ciphertext by the plaintext
/// that it carries under an encryption key.
pub trait Suite: Sized {
    /// Arbitrary-precision non-negative integer.
    type Int;
    /// Element of the scalar field of the group.
    type Scalar;
    /// Element of the prime-order group.
    type Point;
    /// Public key of the additively homomorphic cryptosystem.
    type EncryptionKey;
    /// Private key of the additively homomorphic cryptosystem.
    type DecryptionKey;
    /// Public parameters against which a range proof is checked.
    type Statement;
    /// Proof that an encrypted plaintext is small.
    type RangeProof;
    /// Proof of knowledge of the discrete logarithm of a public point.
    type DLogProof;

    spec fn int_val(i: Self::Int) -> nat;

    /// The group order `q`.
    spec fn order() -> nat;

    spec fn scalar_val(s: Self::Scalar) -> nat;

    /// Discrete logarithm of a point with respect to the generator.
    spec fn point_log(p: Self::Point) -> nat;

    spec fn valid_key(ek: Self::EncryptionKey) -> bool;

    /// The plaintext modulus `N` of an encryption key.
    spec fn modulus(ek: Self::EncryptionKey) -> nat;

    spec fn valid_decryption_key(dk: Self::DecryptionKey) -> bool;

    /// The encryption key that belongs to a decryption key.
    spec fn public_of(dk: Self::DecryptionKey) -> Self::EncryptionKey;

    /// The plaintext that ciphertext `c` carries under `ek`.
    spec fn plaintext(ek: Self::EncryptionKey, c: nat) -> nat;

    /// Ciphertext of `m` under `ek` with encryption randomness `r`.
    spec fn encryption(ek: Self::EncryptionKey, m: nat, r: nat) -> nat;

    /// Homomorphic sum of two ciphertexts.
    spec fn cipher_add(ek: Self::EncryptionKey, c1: nat, c2: nat) -> nat;

    /// Homomorphic product of a ciphertext with a known plaintext `k`.
    spec fn cipher_mul(ek: Self::EncryptionKey, c: nat, k: nat) -> nat;

    spec fn range_accepts(
        proof: Self::RangeProof,
        c: nat,
        ek: Self::EncryptionKey,
        st: Self::Statement,
    ) -> bool;

    spec fn dlog_accepts(proof: Self::DLogProof) -> bool;

    /// The public point whose discrete logarithm a proof claims to know.
    spec fn dlog_public(proof: Self::DLogProof) -> Self::Point;

    proof fn lemma_order()
        ensures
            Self::order() > 1,
    ;

    /// Every nonzero scalar has a multiplicative inverse: the order is prime.
    proof fn lemma_inverse(x: nat) -> (y: nat)
        requires
            0 < x < Self::order(),
        ensures
            (x * y) % Self::order() == 1,
    ;

    proof fn lemma_scalar_bound(s: Self::Scalar)
        ensures
            Self::scalar_val(s) < Self::order(),
    ;

    /// A valid key has a plaintext space larger than the scalar field.
    proof fn lemma_valid_key(ek: Self::EncryptionKey)
        requires
            Self::valid_key(ek),
        ensures
            Self::modulus(ek) > Self::order(),
    ;

    proof fn lemma_valid_decryption_key(dk: Self::DecryptionKey)
        requires
            Self::valid_decryption_key(dk),
        ensures
            Self::valid_key(Self::public_of(dk)),
    ;

    /// Decrypting an encryption gives back the plaintext modulo `N`.
    proof fn lemma_plaintext_encryption(ek: Self::EncryptionKey, m: nat, r: nat)
        requires
            Self::valid_key(ek),
        ensures
            Self::plaintext(ek, Self::encryption(ek, m, r)) == m % Self::modulus(ek),
    ;

    proof fn lemma_plaintext_add(ek: Self::EncryptionKey, c1: nat, c2: nat)
        requires
            Self::valid_key(ek),
        ensures
            Self::plaintext(ek, Self::cipher_add(ek, c1, c2)) == (Self::plaintext(ek, c1)
                + Self::plaintext(ek, c2)) % Self::modulus(ek),
    ;

    proof fn lemma_plaintext_mul(ek: Self::EncryptionKey, c: nat, k: nat)
        requires
            Self::valid_key(ek),
        ensures
            Self::plaintext(ek, Self::cipher_mul(ek, c, k)) == (Self::plaintext(ek, c) * k)
                % Self::modulus(ek),
    ;

    /// Draws a uniformly random integer below `n`.
    fn sample_below(n: &Self::Int) -> (r: Self::Int)
        requires
            Self::int_val(*n) > 0,
        ensures
            Self::int_val(r) < Self::int_val(*n),
    ;

    fn key_modulus(ek: &Self::EncryptionKey) -> (r: Self::Int)
        requires
            Self::valid_key(*ek),
        ensures
            Self::int_val(r) == Self::modulus(*ek),
    ;

    fn scalar_to_int(s: &Self::Scalar) -> (r: Self::Int)
        ensures
            Self::int_val(r) == Self::scalar_val(*s),
    ;

    /// Reduces an integer into the scalar field.
    fn scalar_from_int(i: &Self::Int) -> (r: Self::Scalar)
        ensures
            Self::scalar_val(r) == Self::int_val(*i) % Self::order(),
    ;

    /// `0 - s` in the scalar field.
    fn scalar_neg(s: &Self::Scalar) -> (r: Self::Scalar)
        ensures
            Self::scalar_val(r) == (Self::order() - Self::scalar_val(*s)) % (Self::order() as int),
    ;

    /// `s * G` for the generator `G`.
    fn generator_mul(s: &Self::Scalar) -> (r: Self::Point)
        ensures
            Self::point_log(r) == Self::scalar_val(*s),
    ;

    fn point_mul(p: &Self::Point, s: &Self::Scalar) -> (r: Self::Point)
        ensures
            Self::point_log(r) == (Self::point_log(*p) * Self::scalar_val(*s)) % Self::order(),
    ;

    fn point_add(p: &Self::Point, q: &Self::Point) -> (r: Self::Point)
        ensures
            Self::point_log(r) == (Self::point_log(*p) + Self::point_log(*q)) % Self::order(),
    ;

    /// Equality of points on their canonical encoding.
    fn point_eq(p: &Self::Point, q: &Self::Point) -> (r: bool)
        ensures
            r == (Self::point_log(*p) == Self::point_log(*q)),
    ;

    fn encrypt(ek: &Self::EncryptionKey, m: &Self::Int, r: &Self::Int) -> (c: Self::Int)
        requires
            Self::valid_key(*ek),
        ensures
            Self::int_val(c) == Self::encryption(*ek, Self::int_val(*m), Self::int_val(*r)),
    ;

    fn decrypt(dk: &Self::DecryptionKey, c: &Self::Int) -> (m: Self::Int)
        requires
            Self::valid_decryption_key(*dk),
        ensures
            Self::int_val(m) == Self::plaintext(Self::public_of(*dk), Self::int_val(*c)),
    ;

    fn add(ek: &Self::EncryptionKey, c1: &Self::Int, c2: &Self::Int) -> (r: Self::Int)
        requires
            Self::valid_key(*ek),
        ensures
            Self::int_val(r) == Self::cipher_add(*ek, Self::int_val(*c1), Self::int_val(*c2)),
    ;

    fn mul(ek: &Self::EncryptionKey, c: &Self::Int, k: &Self::Int) -> (r: Self::Int)
        requires
            Self::valid_key(*ek),
        ensures
            Self::int_val(r) == Self::cipher_mul(*ek, Self::int_val(*c), Self::int_val(*k)),
    ;

    /// Proves that the plaintext `m` of `c` is small. An honest proof, made
    /// for a scalar-sized plaintext with the randomness that produced `c`, is
    /// accepted.
    fn range_prove(
        m: &Self::Int,
        c: &Self::Int,
        ek: &Self::EncryptionKey,
        st: &Self::Statement,
        r: &Self::Int,
    ) -> (proof: Self::RangeProof)
        requires
            Self::valid_key(*ek),
        ensures
            Self::int_val(*m) < Self::order() && Self::int_val(*r) < Self::modulus(*ek)
                && Self::int_val(*c) == Self::encryption(*ek, Self::int_val(*m), Self::int_val(*r))
                ==> Self::range_accepts(proof, Self::int_val(*c), *ek, *st),
    ;

    fn range_verify(
        proof: &Self::RangeProof,
        c: &Self::Int,
        ek: &Self::EncryptionKey,
        st: &Self::Statement,
    ) -> (r: bool)
        requires
            Self::valid_key(*ek),
        ensures
            r == Self::range_accepts(*proof, Self::int_val(*c), *ek, *st),
    ;

    /// Proves knowledge of `x`; the proof carries `x * G` and is accepted.
    fn dlog_prove(x: &Self::Scalar) -> (proof: Self::DLogProof)
        ensures
            Self::dlog_accepts(proof),
            Self::point_log(Self::dlog_public(proof)) == Self::scalar_val(*x),
    ;

    fn dlog_verify(proof: &Self::DLogProof) -> (r: bool)
        ensures
            r == Self::dlog_accepts(*proof),
    ;

    fn dlog_public_point(proof: &Self::DLogProof) -> (r: Self::Point)
        ensures
            r == Self::dlog_public(*proof),
    ;
}

/// A holder of a decryption key that decrypts on request without handing the
/// key out.
pub trait Decryptor<S: Suite> {
    spec fn valid(&self) -> bool;

    /// The encryption key whose ciphertexts this holder decrypts.
    spec fn public_key(&self) -> S::EncryptionKey;

    fn decrypt(&self, c: &S::Int) -> (m: S::Int)
        requires
            self.valid(),
        ensures
            S::int_val(m) == S::plaintext(self.public_key(), S::int_val(*c)),
    ;
}

} // verus!
