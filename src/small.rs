use vstd::prelude::*;
use vstd::arithmetic::div_mod::{
    lemma_add_mod_noop,
    lemma_mod_mod,
    lemma_mod_multiples_vanish,
    lemma_mul_mod_noop,
    lemma_mul_mod_noop_left,
};
use crate::suite::{Decryptor, Suite};

verus! {

/// Order of the small group.
pub const ORDER: u64 = 11;

/// Upper bound (exclusive) on the plaintext modulus of a small key, so that
/// ciphertexts below `N * N` fit in a `u64`.
pub const MODULUS_LIMIT: u64 = 0x8000_0000;

/// A small, insecure instance of [`Suite`] over machine integers, for
/// deterministic vectors and tests. The group is `Z_11` under addition with
/// generator 1, a ciphertext of `m` is `m + N * r` modulo `N * N`, a range
/// proof binds a ciphertext, a key and a statement, and a discrete-log proof
/// is a Schnorr proof with a nonce derived from the secret. None of it
/// protects any secret.
pub struct SmallSuite;

/// A scalar of `Z_11`, held in canonical form.
#[derive(Clone, Copy, Debug)]
pub struct SmallScalar {
    v: u64,
}

/// A point of `Z_11`, held as its discrete logarithm.
#[derive(Clone, Copy, Debug)]
pub struct SmallPoint {
    x: u64,
}

#[derive(Clone, Copy, Debug)]
pub struct SmallEncryptionKey {
    pub n: u64,
}

#[derive(Clone, Copy, Debug)]
pub struct SmallDecryptionKey {
    pub n: u64,
}

#[derive(Clone, Copy, Debug, PartialEq, Eq, Structural)]
pub struct SmallStatement {
    pub h1: u64,
    pub h2: u64,
    pub n_tilde: u64,
}

#[derive(Clone, Copy, Debug)]
pub struct SmallRangeProof {
    pub c: u64,
    pub n: u64,
    pub statement: SmallStatement,
}

#[derive(Clone, Copy, Debug)]
pub struct SmallDLogProof {
    pub pk: SmallPoint,
    pub t: SmallPoint,
    pub z: SmallScalar,
}

impl SmallScalar {
    pub closed spec fn view_val(self) -> nat {
        (self.v % ORDER) as nat
    }

    /// The scalar `v mod 11`.
    pub fn new(v: u64) -> (s: Self)
        ensures
            s.view_val() == v % ORDER,
    {
        SmallScalar { v: v % ORDER }
    }

    pub fn value(&self) -> (r: u64)
        ensures
            r == self.view_val(),
    {
        self.v % ORDER
    }
}

impl SmallPoint {
    pub closed spec fn view_log(self) -> nat {
        (self.x % ORDER) as nat
    }

    /// The discrete logarithm of this point.
    pub fn log(&self) -> (r: u64)
        ensures
            r == self.view_log(),
    {
        self.x % ORDER
    }
}

/// Fiat-Shamir challenge of the small discrete-log proof.
pub open spec fn challenge(pk: nat, t: nat) -> nat {
    (3 * pk + 5 * t + 1) % (ORDER as nat)
}

fn challenge_exec(pk: u64, t: u64) -> (e: u64)
    requires
        pk < ORDER,
        t < ORDER,
    ensures
        e == challenge(pk as nat, t as nat),
        e < ORDER,
{
    (3 * pk + 5 * t + 1) % ORDER
}

/// Relies on std's `RandomState`, whose keys are drawn from the operating
/// system's randomness: hashing a constant with a fresh one gives an
/// unpredictable value. Nothing is known of the result.
#[verifier::external_body]
fn random_u64() -> (r: u64) {
    std::hash::BuildHasher::hash_one(&std::collections::hash_map::RandomState::new(), 0u64)
}

proof fn lemma_small_product(x: u64, y: u64)
    requires
        x < ORDER,
        y < ORDER,
    ensures
        x * y < ORDER * ORDER,
{
    assert(x * y < ORDER * ORDER) by (nonlinear_arith)
        requires
            x < ORDER,
            y < ORDER,
    ;
}

pub open spec fn small_key_valid(n: u64) -> bool {
    ORDER < n < MODULUS_LIMIT
}

proof fn lemma_square_bound(n: u64)
    requires
        small_key_valid(n),
    ensures
        n * n < 0x4000_0000_0000_0000,
        n * n > 0,
{
    assert(n * n < 0x4000_0000_0000_0000) by (nonlinear_arith)
        requires
            n < 0x8000_0000,
    ;
    assert(n * n > 0) by (nonlinear_arith)
        requires
            n > 0,
    ;
}

impl Suite for SmallSuite {
    type Int = u64;
    type Scalar = SmallScalar;
    type Point = SmallPoint;
    type EncryptionKey = SmallEncryptionKey;
    type DecryptionKey = SmallDecryptionKey;
    type Statement = SmallStatement;
    type RangeProof = SmallRangeProof;
    type DLogProof = SmallDLogProof;

    open spec fn int_val(i: u64) -> nat {
        i as nat
    }

    open spec fn order() -> nat {
        ORDER as nat
    }

    open spec fn scalar_val(s: SmallScalar) -> nat {
        s.view_val()
    }

    open spec fn point_log(p: SmallPoint) -> nat {
        p.view_log()
    }

    open spec fn valid_key(ek: SmallEncryptionKey) -> bool {
        small_key_valid(ek.n)
    }

    open spec fn modulus(ek: SmallEncryptionKey) -> nat {
        ek.n as nat
    }

    open spec fn valid_decryption_key(dk: SmallDecryptionKey) -> bool {
        small_key_valid(dk.n)
    }

    open spec fn public_of(dk: SmallDecryptionKey) -> SmallEncryptionKey {
        SmallEncryptionKey { n: dk.n }
    }

    open spec fn plaintext(ek: SmallEncryptionKey, c: nat) -> nat {
        c % (ek.n as nat)
    }

    open spec fn encryption(ek: SmallEncryptionKey, m: nat, r: nat) -> nat {
        let n = ek.n as nat;
        (m % (n * n) + n * (r % n)) % (n * n)
    }

    open spec fn cipher_add(ek: SmallEncryptionKey, c1: nat, c2: nat) -> nat {
        let n = ek.n as nat;
        (c1 + c2) % (n * n)
    }

    open spec fn cipher_mul(ek: SmallEncryptionKey, c: nat, k: nat) -> nat {
        let n = ek.n as nat;
        (c * k) % (n * n)
    }

    open spec fn range_accepts(
        proof: SmallRangeProof,
        c: nat,
        ek: SmallEncryptionKey,
        st: SmallStatement,
    ) -> bool {
        proof.c as nat == c && proof.n == ek.n && proof.statement == st
    }

    open spec fn dlog_accepts(proof: SmallDLogProof) -> bool {
        let pk = proof.pk.view_log();
        let t = proof.t.view_log();
        proof.z.view_val() == (t + challenge(pk, t) * pk) % (ORDER as nat)
    }

    open spec fn dlog_public(proof: SmallDLogProof) -> SmallPoint {
        proof.pk
    }

    proof fn lemma_order() {
    }

    proof fn lemma_inverse(x: nat) -> (y: nat) {
        if x == 1 {
            1
        } else if x == 2 {
            6
        } else if x == 3 {
            4
        } else if x == 4 {
            3
        } else if x == 5 {
            9
        } else if x == 6 {
            2
        } else if x == 7 {
            8
        } else if x == 8 {
            7
        } else if x == 9 {
            5
        } else {
            10
        }
    }

    proof fn lemma_scalar_bound(s: SmallScalar) {
    }

    proof fn lemma_valid_key(ek: SmallEncryptionKey) {
    }

    proof fn lemma_valid_decryption_key(dk: SmallDecryptionKey) {
    }

    proof fn lemma_plaintext_encryption(ek: SmallEncryptionKey, m: nat, r: nat) {
        let n = ek.n as int;
        let k = n * ((r as int) % n);
        let x = (m as int) % (n * n);
        lemma_square_bound(ek.n);
        lemma_mod_mod(x + k, n, n);
        lemma_mod_multiples_vanish((r as int) % n, x, n);
        lemma_mod_mod(m as int, n, n);
    }

    proof fn lemma_plaintext_add(ek: SmallEncryptionKey, c1: nat, c2: nat) {
        let n = ek.n as int;
        lemma_mod_mod((c1 + c2) as int, n, n);
        lemma_add_mod_noop(c1 as int, c2 as int, n);
    }

    proof fn lemma_plaintext_mul(ek: SmallEncryptionKey, c: nat, k: nat) {
        let n = ek.n as int;
        lemma_mod_mod((c * k) as int, n, n);
        lemma_mul_mod_noop_left(c as int, k as int, n);
    }

    fn sample_below(n: &u64) -> (r: u64) {
        random_u64() % *n
    }

    fn key_modulus(ek: &SmallEncryptionKey) -> (r: u64) {
        ek.n
    }

    fn scalar_to_int(s: &SmallScalar) -> (r: u64) {
        s.v % ORDER
    }

    fn scalar_from_int(i: &u64) -> (r: SmallScalar) {
        SmallScalar { v: *i % ORDER }
    }

    fn scalar_neg(s: &SmallScalar) -> (r: SmallScalar) {
        SmallScalar { v: (ORDER - s.v % ORDER) % ORDER }
    }

    fn generator_mul(s: &SmallScalar) -> (r: SmallPoint) {
        SmallPoint { x: s.v % ORDER }
    }

    fn point_mul(p: &SmallPoint, s: &SmallScalar) -> (r: SmallPoint) {
        proof {
            lemma_small_product(p.x % ORDER, s.v % ORDER);
        }
        SmallPoint { x: ((p.x % ORDER) * (s.v % ORDER)) % ORDER }
    }

    fn point_add(p: &SmallPoint, q: &SmallPoint) -> (r: SmallPoint) {
        SmallPoint { x: ((p.x % ORDER) + (q.x % ORDER)) % ORDER }
    }

    fn point_eq(p: &SmallPoint, q: &SmallPoint) -> (r: bool) {
        p.x % ORDER == q.x % ORDER
    }

    fn encrypt(ek: &SmallEncryptionKey, m: &u64, r: &u64) -> (c: u64) {
        let n = ek.n;
        proof {
            lemma_square_bound(n);
        }
        let n2 = n * n;
        let k = r % n;
        assert(n * k < n * n) by (nonlinear_arith)
            requires
                k < n,
        ;
        (*m % n2 + n * k) % n2
    }

    fn decrypt(dk: &SmallDecryptionKey, c: &u64) -> (m: u64) {
        *c % dk.n
    }

    fn add(ek: &SmallEncryptionKey, c1: &u64, c2: &u64) -> (r: u64) {
        let n = ek.n;
        proof {
            lemma_square_bound(n);
            lemma_add_mod_noop(*c1 as int, *c2 as int, (n * n) as int);
        }
        let n2 = n * n;
        (*c1 % n2 + *c2 % n2) % n2
    }

    fn mul(ek: &SmallEncryptionKey, c: &u64, k: &u64) -> (r: u64) {
        let n = ek.n;
        proof {
            lemma_square_bound(n);
            lemma_mul_mod_noop(*c as int, *k as int, (n * n) as int);
        }
        let n2 = n * n;
        let x = (*c % n2) as u128;
        let y = (*k % n2) as u128;
        assert(x * y < 0x1_0000_0000_0000_0000_0000_0000_0000_0000) by (nonlinear_arith)
            requires
                x < 0x4000_0000_0000_0000,
                y < 0x4000_0000_0000_0000,
        ;
        ((x * y) % (n2 as u128)) as u64
    }

    fn range_prove(
        m: &u64,
        c: &u64,
        ek: &SmallEncryptionKey,
        st: &SmallStatement,
        r: &u64,
    ) -> (proof: SmallRangeProof) {
        SmallRangeProof { c: *c, n: ek.n, statement: *st }
    }

    fn range_verify(
        proof: &SmallRangeProof,
        c: &u64,
        ek: &SmallEncryptionKey,
        st: &SmallStatement,
    ) -> (r: bool) {
        proof.c == *c && proof.n == ek.n && proof.statement == *st
    }

    fn dlog_prove(x: &SmallScalar) -> (proof: SmallDLogProof) {
        let pk = x.v % ORDER;
        let k = (pk * 7 + 4) % ORDER;
        let e = challenge_exec(pk, k);
        proof {
            lemma_small_product(e, pk);
        }
        let z = (k + e * pk) % ORDER;
        SmallDLogProof { pk: SmallPoint { x: pk }, t: SmallPoint { x: k }, z: SmallScalar { v: z } }
    }

    fn dlog_verify(proof: &SmallDLogProof) -> (r: bool) {
        let pk = proof.pk.x % ORDER;
        let t = proof.t.x % ORDER;
        let e = challenge_exec(pk, t);
        proof {
            lemma_small_product(e, pk);
        }
        proof.z.v % ORDER == (t + e * pk) % ORDER
    }

    fn dlog_public_point(proof: &SmallDLogProof) -> (r: SmallPoint) {
        proof.pk
    }
}

impl Decryptor<SmallSuite> for SmallDecryptionKey {
    open spec fn valid(&self) -> bool {
        small_key_valid(self.n)
    }

    open spec fn public_key(&self) -> SmallEncryptionKey {
        SmallEncryptionKey { n: self.n }
    }

    fn decrypt(&self, c: &u64) -> (m: u64) {
        *c % self.n
    }
}

} // verus!
