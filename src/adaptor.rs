//! Algorithms for the Schnorr "adaptor signature" signature encryption.
//!
//! Adaptor signatures are a kind of signature encryption that is generated by
//! the signer and allows the signer (or anyone else who has seen the
//! ciphertext) to recover the decryption key from the decrypted signature.
//!
//! A ciphertext is read as `(R, ŝ, negate)`: the logarithm of its nonce point,
//! the value of `ŝ` and the negation flag. The spec functions below state each
//! algorithm over those values.
use vstd::prelude::*;
use vstd::arithmetic::div_mod::{
    lemma_add_mod_noop, lemma_add_mod_noop_right, lemma_sub_mod_noop, lemma_sub_mod_noop_right,
};
use crate::group::{
    base_mul, bytes32_eq, cond_neg, group_order, has_even_y, into_even_y, point_add,
    point_encoding, point_mul, point_sub, scalar_add, scalar_mul, scalar_sub, sub_mod, xonly_of,
    Point, Scalar,
};
use crate::schnorr::{
    challenge_val, nonce_val, schnorr_verifies, Derivation, KeyPair, Schnorr, Signature,
};

verus! {

/// An encrypted signature: a nonce point `R` that is not the identity and has
/// an even y-coordinate, the public scalar `ŝ`, and whether the decryption key
/// must be negated before use.
#[derive(Clone, Copy, Debug, PartialEq, Eq)]
pub struct EncryptedSignature {
    r: Point,
    s_hat: Scalar,
    needs_negation: bool,
}

impl View for EncryptedSignature {
    type V = (nat, nat, bool);

    open spec fn view(&self) -> (nat, nat, bool) {
        (self.spec_r().log(), self.spec_s_hat().val(), self.spec_needs_negation())
    }
}

/// The nonce point of a ciphertext is normalised: not the identity, even y.
pub open spec fn nonce_point_normalised(r: nat) -> bool {
    r != 0 && has_even_y(r)
}

impl EncryptedSignature {
    /// The nonce point `R`.
    pub closed spec fn spec_r(self) -> Point {
        self.r
    }

    /// The public scalar `ŝ`.
    pub closed spec fn spec_s_hat(self) -> Scalar {
        self.s_hat
    }

    /// The negation flag.
    pub closed spec fn spec_needs_negation(self) -> bool {
        self.needs_negation
    }

    /// `R` is not the identity and has an even y-coordinate.
    #[verifier::type_invariant]
    pub open spec fn wf(self) -> bool {
        nonce_point_normalised(self.spec_r().log())
    }

    /// Assembles a ciphertext; `None` when `r` is the identity or has an odd
    /// y-coordinate.
    pub fn new(r: Point, s_hat: Scalar, needs_negation: bool) -> (res: Option<EncryptedSignature>)
        ensures
            res is Some <==> nonce_point_normalised(r.log()),
            res matches Some(ct) ==> ct.spec_r() == r && ct.spec_s_hat() == s_hat
                && ct.spec_needs_negation() == needs_negation,
    {
        match into_even_y(&r) {
            None => None,
            Some((_, negated)) => {
                if negated {
                    None
                } else {
                    Some(EncryptedSignature { r, s_hat, needs_negation })
                }
            },
        }
    }

    /// The nonce point `R`.
    pub fn r(&self) -> (res: Point)
        ensures
            res == self.spec_r(),
    {
        self.r
    }

    /// The public scalar `ŝ`.
    pub fn s_hat(&self) -> (res: Scalar)
        ensures
            res == self.spec_s_hat(),
    {
        self.s_hat
    }

    /// Whether the decryption key must be negated before use.
    pub fn needs_negation(&self) -> (res: bool)
        ensures
            res == self.spec_needs_negation(),
    {
        self.needs_negation
    }
}

/// The nonce `r` that signing `msg` with `kp` under the encryption key `y` derives.
pub open spec fn sign_nonce(kp: KeyPair, y: Point, msg: Seq<u8>, d: Derivation) -> nat {
    nonce_val(d, kp.sk().encoding(), kp.pk().encoding(), y.encoding(), msg)
}

/// The logarithm of `r·G + Y` before normalisation.
pub open spec fn sign_full_nonce(kp: KeyPair, y: Point, msg: Seq<u8>, d: Derivation) -> nat {
    (sign_nonce(kp, y, msg, d) + y.log()) % group_order()
}

/// The ciphertext that `encrypted_sign` produces, `None` when `r·G + Y` is the
/// identity.
pub open spec fn sign_outcome(kp: KeyPair, y: Point, msg: Seq<u8>, d: Derivation) -> Option<
    (nat, nat, bool),
> {
    let full = sign_full_nonce(kp, y, msg, d);
    if full == 0 {
        None
    } else {
        let flag = !has_even_y(full);
        let r = cond_neg(full, flag);
        let c = challenge_val(xonly_of(point_encoding(r)), xonly_of(kp.pk().encoding()), msg);
        let s_hat = (cond_neg(sign_nonce(kp, y, msg, d), flag) + c * kp.sk().val()) % group_order();
        Some((r, s_hat, flag))
    }
}

/// The point `R + Y` (flag set) or `R - Y` (flag clear) that verification
/// compares, as a logarithm.
pub open spec fn adapted_nonce(ct: (nat, nat, bool), y: nat) -> nat {
    if ct.2 {
        (ct.0 + y) % group_order()
    } else {
        sub_mod(ct.0, y)
    }
}

/// Whether `ct` is a valid encryption, under `y`, of a signature of `msg`
/// by `pk`: `R ± Y == ŝ·G - c·X`.
pub open spec fn verify_outcome(pk: Point, y: Point, msg: Seq<u8>, ct: (nat, nat, bool)) -> bool {
    let c = challenge_val(xonly_of(point_encoding(ct.0)), xonly_of(pk.encoding()), msg);
    adapted_nonce(ct, y.log()) == sub_mod(ct.1, (c * pk.log()) % group_order())
}

/// The ciphertext with its negation flag cleared.
pub open spec fn flag_cleared(ct: (nat, nat, bool)) -> (nat, nat, bool) {
    (ct.0, ct.1, false)
}

/// The signature that decrypting `ct` with the key `y` gives:
/// `(R.x, ŝ ± y)`.
pub open spec fn decrypt_outcome(y: nat, ct: (nat, nat, bool)) -> (Seq<u8>, nat) {
    (xonly_of(point_encoding(ct.0)), (ct.1 + cond_neg(y, ct.2)) % group_order())
}

/// The decryption key recovered from `ct` and `sig` for the encryption key `y`.
pub open spec fn recover_outcome(y: Point, ct: (nat, nat, bool), sig: (Seq<u8>, nat)) -> Option<nat> {
    if sig.0 != xonly_of(point_encoding(ct.0)) {
        None
    } else {
        let k = cond_neg(sub_mod(sig.1, ct.1), ct.2);
        if k == y.log() && k != 0 {
            Some(k)
        } else {
            None
        }
    }
}

/// Signing half of the adaptor signature scheme.
pub trait AdaptorSign {
    /// Signs `message` with `signing_key`, encrypted under `encryption_key`.
    /// `None` only when `r·G + Y` is the identity, which a pseudorandom nonce
    /// `r` bound to `Y` makes computationally unreachable.
    fn encrypted_sign(
        &self,
        signing_key: &KeyPair,
        encryption_key: &Point,
        message: &[u8],
        derivation: Derivation,
    ) -> (r: Option<EncryptedSignature>)
        ensures
            r is None <==> sign_full_nonce(*signing_key, *encryption_key, message@, derivation)
                == 0,
            r matches Some(ct) ==> sign_outcome(
                *signing_key,
                *encryption_key,
                message@,
                derivation,
            ) == Some(ct@),
    ;
}

/// Verification, decryption and key recovery of the adaptor signature scheme.
pub trait Adaptor {
    /// Whether `ciphertext` encrypts, under `encryption_key`, a signature of
    /// `message` by `verification_key`.
    fn verify_encrypted_signature(
        &self,
        verification_key: &Point,
        encryption_key: &Point,
        message: &[u8],
        ciphertext: &EncryptedSignature,
    ) -> (r: bool)
        ensures
            r == verify_outcome(*verification_key, *encryption_key, message@, ciphertext@),
    ;

    /// The plain signature that `ciphertext` decrypts to under `decryption_key`.
    fn decrypt_signature(&self, decryption_key: Scalar, ciphertext: EncryptedSignature) -> (r:
        Signature)
        ensures
            r@ == decrypt_outcome(decryption_key.val(), ciphertext@),
    ;

    /// The decryption key of `encryption_key`, read off `ciphertext` and the
    /// signature it was decrypted to; `None` when `signature` does not come
    /// from decrypting `ciphertext` with that key.
    fn recover_decryption_key(
        &self,
        encryption_key: &Point,
        ciphertext: &EncryptedSignature,
        signature: &Signature,
    ) -> (r: Option<Scalar>)
        ensures
            r matches Some(k) ==> recover_outcome(*encryption_key, ciphertext@, signature@) == Some(
                k.val(),
            ),
            r is None ==> recover_outcome(*encryption_key, ciphertext@, signature@) is None,
    ;
}

impl AdaptorSign for Schnorr {
    fn encrypted_sign(
        &self,
        signing_key: &KeyPair,
        encryption_key: &Point,
        message: &[u8],
        derivation: Derivation,
    ) -> (r: Option<EncryptedSignature>) {
        let x = signing_key.secret_key();
        let pk = signing_key.public_key();
        let y = encryption_key;
        let nonce = self.derive_nonce(signing_key, y, message, derivation);
        let nonce_point = base_mul(&nonce);
        let full = point_add(&nonce_point, y);
        proof {
            use_type_invariant(signing_key);
            use_type_invariant(&nonce);
            use_type_invariant(y);
            nonce_point.lemma_log_of(nonce.val());
            full.lemma_log_of(sign_full_nonce(*signing_key, *y, message@, derivation));
        }
        // The nonce is pseudorandom and bound to `Y`, so `r·G + Y` is the
        // identity only with negligible probability.
        match into_even_y(&full) {
            None => None,
            Some((r_point, needs_negation)) => {
                // `r` is corrected here; the decryptor cannot correct `y`, so
                // the flag travels with the ciphertext.
                let r = nonce.conditional_negate(needs_negation);
                let r_x = r_point.to_xonly_bytes();
                let c = self.challenge(&r_x, &pk, message);
                let cx = scalar_mul(&c, &x);
                let s_hat = scalar_add(&r, &cx);
                proof {
                    r_point.lemma_log_of(cond_neg(full.log(), needs_negation));
                    lemma_cond_neg_nonzero(full.log(), needs_negation);
                }
                Some(EncryptedSignature { r: r_point, s_hat, needs_negation })
            },
        }
    }
}

impl Adaptor for Schnorr {
    fn verify_encrypted_signature(
        &self,
        verification_key: &Point,
        encryption_key: &Point,
        message: &[u8],
        ciphertext: &EncryptedSignature,
    ) -> (r: bool) {
        let big_r = &ciphertext.r;
        let y = encryption_key;
        //  needs_negation => R_hat = R + Y
        // !needs_negation => R_hat = R - Y
        let r_hat = if ciphertext.needs_negation {
            point_add(big_r, y)
        } else {
            point_sub(big_r, y)
        };
        let r_x = big_r.to_xonly_bytes();
        let c = self.challenge(&r_x, verification_key, message);
        let s_g = base_mul(&ciphertext.s_hat);
        let c_pk = point_mul(&c, verification_key);
        let expected = point_sub(&s_g, &c_pk);
        proof {
            use_type_invariant(big_r);
            use_type_invariant(&ciphertext.s_hat);
            big_r.lemma_log();
            s_g.lemma_log_of(ciphertext.s_hat.val());
            r_hat.lemma_log_of(adapted_nonce(ciphertext@, y.log()));
            expected.lemma_log_of(
                sub_mod(ciphertext.s_hat.val(), (c.val() * verification_key.log()) % group_order()),
            );
        }
        r_hat.equals(&expected)
    }

    fn decrypt_signature(&self, decryption_key: Scalar, ciphertext: EncryptedSignature) -> (r:
        Signature) {
        let y = decryption_key.conditional_negate(ciphertext.needs_negation);
        let s = scalar_add(&ciphertext.s_hat, &y);
        proof {
            use_type_invariant(&ciphertext.r);
            ciphertext.r.lemma_log();
        }
        Signature { r: ciphertext.r.to_xonly_bytes(), s }
    }

    fn recover_decryption_key(
        &self,
        encryption_key: &Point,
        ciphertext: &EncryptedSignature,
        signature: &Signature,
    ) -> (r: Option<Scalar>) {
        proof {
            use_type_invariant(&ciphertext.r);
            ciphertext.r.lemma_log();
        }
        let r_x = ciphertext.r.to_xonly_bytes();
        if !bytes32_eq(&signature.r, &r_x) {
            return None;
        }
        let diff = scalar_sub(&signature.s, &ciphertext.s_hat);
        let y = diff.conditional_negate(ciphertext.needs_negation);
        let implied = base_mul(&y);
        proof {
            use_type_invariant(&y);
            implied.lemma_log_of(y.val());
        }
        if implied.equals(encryption_key) && !y.is_zero() {
            Some(y)
        } else {
            None
        }
    }
}

/// Negating a non-zero value below the order leaves it non-zero.
proof fn lemma_cond_neg_nonzero(a: nat, flag: bool)
    requires
        0 < a < group_order(),
    ensures
        cond_neg(a, flag) != 0,
{
    if flag {
        vstd::arithmetic::div_mod::lemma_mod_sub_multiples_vanish(0 - a, group_order() as int);
        vstd::arithmetic::div_mod::lemma_small_mod((group_order() - a) as nat, group_order());
    }
}

/// `((a + b) mod n - b) mod n == a mod n`.
proof fn lemma_add_then_sub(a: int, b: int)
    ensures
        ((a + b) % (group_order() as int) - b % (group_order() as int)) % (group_order() as int)
            == a % (group_order() as int),
{
    lemma_sub_mod_noop(a + b, b, group_order() as int);
}

/// Negating twice gives back a value below the order.
proof fn lemma_cond_neg_twice(a: nat, flag: bool)
    requires
        a < group_order(),
    ensures
        cond_neg(a, flag) < group_order(),
        cond_neg(cond_neg(a, flag), flag) == a,
{
    let n = group_order() as int;
    if flag {
        lemma_sub_mod_noop_right(0, 0 - a, n);
    }
}

/// Subtracting `ŝ` from `ŝ + d` leaves `d`.
proof fn lemma_sub_of_add(s_hat: nat, d: nat)
    requires
        s_hat < group_order(),
        d < group_order(),
    ensures
        sub_mod((s_hat + d) % group_order(), s_hat) == d,
{
    let n = group_order() as int;
    lemma_add_then_sub(d as int, s_hat as int);
    assert((s_hat as int + d as int) % n == ((d + s_hat) as nat % group_order()) as int);
}

/// With the flag set, `neg(k + y) + y == neg(k)`; with it clear,
/// `(k + y) - y == k`.
proof fn lemma_adapted_full_nonce(k: nat, y: nat, flag: bool)
    requires
        k < group_order(),
        y < group_order(),
    ensures
        adapted_nonce((cond_neg((k + y) % group_order(), flag), 0, flag), y) == cond_neg(k, flag),
{
    let n = group_order() as int;
    let f = (k + y) % group_order();
    if flag {
        lemma_sub_mod_noop_right(0, (k + y) as int, n);
        assert(cond_neg(f, true) as int == (0 - (k + y)) % n);
        lemma_add_mod_noop_right(y as int, 0 - (k + y), n);
        assert((cond_neg(f, true) + y) % group_order() == ((0 - k) % n) as nat);
    } else {
        lemma_add_then_sub(k as int, y as int);
    }
}

/// Decrypting shifts `r' + c·x` by `±y`; taking `c·x` back off leaves the
/// nonce point `R`.
proof fn lemma_decrypted_nonce(k: nat, y: nat, cx: nat, flag: bool)
    requires
        k < group_order(),
        y < group_order(),
    ensures
        sub_mod(
            ((cond_neg(k, flag) + cx) % group_order() + cond_neg(y, flag)) % group_order(),
            cx % group_order(),
        ) == cond_neg((k + y) % group_order(), flag),
{
    let n = group_order() as int;
    let rk = cond_neg(k, flag) as int;
    let ry = cond_neg(y, flag) as int;
    let x = rk + cx + ry;
    let b = ((cond_neg(k, flag) + cx) % group_order() + cond_neg(y, flag)) % group_order();
    assert(b as int == x % n) by {
        lemma_add_mod_noop_right(ry, rk + cx, n);
    }
    assert((b as int - (cx as int) % n) % n == (rk + ry) % n) by {
        lemma_sub_mod_noop(x, cx as int, n);
    }
    if flag {
        assert((rk + ry) % n == (0 - (k + y)) % n) by {
            lemma_add_mod_noop(0 - k, 0 - y, n);
        }
        assert(cond_neg((k + y) % group_order(), true) as int == (0 - (k + y)) % n) by {
            lemma_sub_mod_noop_right(0, (k + y) as int, n);
        }
    }
}

/// An encrypted signature made with a key pair verifies under its public key
/// and the encryption key it was made for.
pub proof fn lemma_round_trip(kp: KeyPair, y: Point, msg: Seq<u8>, d: Derivation)
    requires
        kp.wf(),
        y.wf(),
    ensures
        sign_outcome(kp, y, msg, d) matches Some(ct) ==> verify_outcome(kp.pk(), y, msg, ct),
{
    y.lemma_log();
    let k = sign_nonce(kp, y, msg, d);
    let f = sign_full_nonce(kp, y, msg, d);
    if f != 0 {
        let ct = sign_outcome(kp, y, msg, d).unwrap();
        let flag = ct.2;
        let c = challenge_val(xonly_of(point_encoding(ct.0)), xonly_of(kp.pk().encoding()), msg);
        let cx = c * kp.sk().val();
        lemma_adapted_full_nonce(k, y.log(), flag);
        lemma_cond_neg_twice(k, flag);
        lemma_add_then_sub(cond_neg(k, flag) as int, cx as int);
        vstd::arithmetic::div_mod::lemma_small_mod(cond_neg(k, flag), group_order());
        assert(adapted_nonce(ct, y.log()) == cond_neg(k, flag));
    }
}

/// Decrypting an encrypted signature with the discrete logarithm of its
/// encryption key gives a signature that verifies as a plain Schnorr
/// signature under the signer's public key.
pub proof fn lemma_decrypt_then_verify(
    kp: KeyPair,
    y: Point,
    msg: Seq<u8>,
    d: Derivation,
    ct: (nat, nat, bool),
)
    requires
        kp.wf(),
        y.wf(),
        sign_outcome(kp, y, msg, d) == Some(ct),
        nonce_point_normalised(ct.0),
    ensures
        schnorr_verifies(kp.pk(), msg, decrypt_outcome(y.log(), ct)),
{
    y.lemma_log();
    let k = sign_nonce(kp, y, msg, d);
    let c = challenge_val(xonly_of(point_encoding(ct.0)), xonly_of(kp.pk().encoding()), msg);
    lemma_decrypted_nonce(k, y.log(), c * kp.sk().val(), ct.2);
}

/// Recovering from a ciphertext and its decryption under the logarithm `y` of
/// a non-identity encryption key gives back exactly `y`.
pub proof fn lemma_recover_decrypted(y: Point, ct: (nat, nat, bool))
    requires
        y.wf(),
        y.log() != 0,
        ct.1 < group_order(),
    ensures
        recover_outcome(y, ct, decrypt_outcome(y.log(), ct)) == Some(y.log()),
{
    y.lemma_log();
    lemma_cond_neg_twice(y.log(), ct.2);
    lemma_sub_of_add(ct.1, cond_neg(y.log(), ct.2));
}

/// A signature whose nonce differs from the ciphertext's yields no key.
pub proof fn lemma_recover_other_nonce(y: Point, ct: (nat, nat, bool), sig: (Seq<u8>, nat))
    requires
        sig.0 != xonly_of(point_encoding(ct.0)),
    ensures
        recover_outcome(y, ct, sig) is None,
{
}

/// A ciphertext decrypted with a key other than the logarithm of the
/// encryption key yields no key.
pub proof fn lemma_recover_wrong_key(y: Point, ct: (nat, nat, bool), wrong: nat)
    requires
        y.wf(),
        wrong < group_order(),
        wrong != y.log(),
        ct.1 < group_order(),
    ensures
        recover_outcome(y, ct, decrypt_outcome(wrong, ct)) is None,
{
    lemma_cond_neg_twice(wrong, ct.2);
    lemma_sub_of_add(ct.1, cond_neg(wrong, ct.2));
}

/// Signing depends on nothing but the key pair, the encryption key, the
/// message and the derivation (with its seed, if any).
pub proof fn lemma_sign_deterministic(
    kp1: KeyPair,
    kp2: KeyPair,
    y1: Point,
    y2: Point,
    msg: Seq<u8>,
    d: Derivation,
)
    requires
        kp1.sk().encoding() == kp2.sk().encoding(),
        kp1.pk().encoding() == kp2.pk().encoding(),
        y1.encoding() == y2.encoding(),
    ensures
        sign_outcome(kp1, y1, msg, d) == sign_outcome(kp2, y2, msg, d),
{
}

/// `neg(k + y) - y` differs from `neg(k)` for `0 < y < n`, as `n` is odd.
proof fn lemma_flagless_mismatch(k: nat, y: nat)
    requires
        k < group_order(),
        0 < y < group_order(),
    ensures
        sub_mod(cond_neg((k + y) % group_order(), true), y) != cond_neg(k, true),
{
    let n = group_order() as int;
    let yi = y as int;
    let a = cond_neg((k + y) % group_order(), true) as int;
    assert(a == (0 - (k + y)) % n) by {
        lemma_sub_mod_noop_right(0, (k + y) as int, n);
    }
    assert((a - y) % n == (0 - k - 2 * yi) % n) by {
        lemma_sub_mod_noop(0 - (k + y), y as int, n);
        vstd::arithmetic::div_mod::lemma_small_mod(y, group_order());
    }
    if sub_mod(a as nat, y) == cond_neg(k, true) {
        assert((2 * yi) % n == 0) by {
            lemma_sub_mod_noop(0 - k, 0 - k - 2 * yi, n);
            vstd::arithmetic::div_mod::lemma_mod_self_0(n);
        }
        if 2 * yi < n {
            vstd::arithmetic::div_mod::lemma_small_mod((2 * yi) as nat, group_order());
        } else {
            vstd::arithmetic::div_mod::lemma_small_mod((2 * yi - n) as nat, group_order());
            vstd::arithmetic::div_mod::lemma_mod_sub_multiples_vanish(2 * yi, n);
        }
    }
}

/// A verifier that ignores the negation flag rejects every ciphertext whose
/// flag is set, when the encryption key is not the identity.
pub proof fn lemma_flag_needed(kp: KeyPair, y: Point, msg: Seq<u8>, d: Derivation)
    requires
        kp.wf(),
        y.wf(),
        y.log() != 0,
    ensures
        sign_outcome(kp, y, msg, d) matches Some(ct) ==> (ct.2 ==> !verify_outcome(
            kp.pk(),
            y,
            msg,
            flag_cleared(ct),
        )),
{
    y.lemma_log();
    let k = sign_nonce(kp, y, msg, d);
    let f = sign_full_nonce(kp, y, msg, d);
    if f != 0 && sign_outcome(kp, y, msg, d).unwrap().2 {
        let ct = sign_outcome(kp, y, msg, d).unwrap();
        let c = challenge_val(xonly_of(point_encoding(ct.0)), xonly_of(kp.pk().encoding()), msg);
        let cx = c * kp.sk().val();
        lemma_cond_neg_twice(k, true);
        lemma_add_then_sub(cond_neg(k, true) as int, cx as int);
        vstd::arithmetic::div_mod::lemma_small_mod(cond_neg(k, true), group_order());
        lemma_flagless_mismatch(k, y.log());
    }
}

/// With `a = R ± y` equal to `ŝ - c·x`, adding `∓y` to `ŝ` and taking
/// `c·x` off gives back `R`.
proof fn lemma_verified_nonce(rr: nat, s: nat, cx: nat, y: nat, flag: bool)
    requires
        rr < group_order(),
        y < group_order(),
        adapted_nonce((rr, s, flag), y) == sub_mod(s, cx % group_order()),
    ensures
        sub_mod((s + cond_neg(y, flag)) % group_order(), cx % group_order()) == rr,
{
    let n = group_order() as int;
    let cn = cond_neg(y, flag) as int;
    let cxm = (cx % group_order()) as int;
    let a = sub_mod(s, cx % group_order()) as int;
    assert(sub_mod((s + cond_neg(y, flag)) % group_order(), cx % group_order()) as int == (s + cn
        - cxm) % n) by {
        vstd::arithmetic::div_mod::lemma_mod_twice(cx as int, n);
        lemma_sub_mod_noop(s + cn, cxm, n);
    }
    assert((s + cn - cxm) % n == (a + cn) % n) by {
        lemma_add_mod_noop_right(cn, s - cxm, n);
    }
    if flag {
        assert((a + cn) % n == (rr + y + (0 - y)) % n) by {
            lemma_add_mod_noop((rr + y) as int, 0 - y, n);
            vstd::arithmetic::div_mod::lemma_mod_twice(0 - y, n);
            vstd::arithmetic::div_mod::lemma_mod_twice((rr + y) as int, n);
        }
    } else {
        assert((a + cn) % n == (y + (rr - y)) % n) by {
            lemma_add_mod_noop_right(y as int, rr - y, n);
        }
    }
    vstd::arithmetic::div_mod::lemma_small_mod(rr, group_order());
}

/// A ciphertext that verifies under `pk` and the encryption key `y`, with a
/// normalised nonce point, decrypts under the logarithm of `y` to a signature
/// that verifies as a plain Schnorr signature under `pk`.
pub proof fn lemma_verified_ciphertext_decrypts(
    pk: Point,
    y: Point,
    msg: Seq<u8>,
    ct: (nat, nat, bool),
)
    requires
        pk.wf(),
        y.wf(),
        nonce_point_normalised(ct.0),
        ct.0 < group_order(),
        ct.1 < group_order(),
        verify_outcome(pk, y, msg, ct),
    ensures
        schnorr_verifies(pk, msg, decrypt_outcome(y.log(), ct)),
{
    y.lemma_log();
    let c = challenge_val(xonly_of(point_encoding(ct.0)), xonly_of(pk.encoding()), msg);
    lemma_verified_nonce(ct.0, ct.1, c * pk.log(), y.log(), ct.2);
}

} // verus!
