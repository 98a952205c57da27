//! The Schnorr signature scheme that adaptor signatures build on: key pairs
//! with an even-y public key, the BIP-340 challenge, nonce derivation and
//! plain signature verification.
use vstd::prelude::*;
use crate::group::{
    base_mul, be_nat, bytes32_eq, group_order, has_even_y, into_even_y, point_mul, point_sub,
    scalar_from_digest, sub_mod, xonly_of, cond_neg, point_encoding, Point, Scalar,
};
use digest::FixedOutput;
use secp256kfun::hash::{HashAdd, Tag};
use secp256kfun::marker::{Secret, Zero};
use rand_chacha::rand_core::SeedableRng;
use rand_chacha::ChaCha20Rng;
use secp256kfun::nonce::{Deterministic, NonceGen, Synthetic};

verus! {

/// The SHA-256 hash tagged `BIP0340/challenge` of a nonce x-coordinate, a
/// public-key x-coordinate and a message.
pub uninterp spec fn challenge_digest(r_x: Seq<u8>, pk_x: Seq<u8>, msg: Seq<u8>) -> Seq<u8>;

/// The SHA-256 hash tagged `BIP0340/nonce` of a secret key followed by the
/// public key, the encryption key and the message.
pub uninterp spec fn nonce_digest(secret: Seq<u8>, pk: Seq<u8>, enc_key: Seq<u8>, msg: Seq<u8>) -> Seq<u8>;

/// The SHA-256 hash tagged `BIP0340/nonce` of the secret key masked with
/// randomness, then the public key, the encryption key and the message; the
/// randomness is drawn from a ChaCha20 stream seeded with `seed`.
pub uninterp spec fn synthetic_nonce_digest(
    seed: Seq<u8>,
    secret: Seq<u8>,
    pk: Seq<u8>,
    enc_key: Seq<u8>,
    msg: Seq<u8>,
) -> Seq<u8>;

/// How a signing nonce is derived.
#[derive(Clone, Copy, Debug, PartialEq, Eq)]
pub enum Derivation {
    /// From the secret key and the public inputs alone.
    Deterministic,
    /// With randomness mixed in, drawn from a stream seeded by these 32 bytes
    /// of fresh entropy.
    Synthetic([u8; 32]),
}

/// The nonce scalar derived for `secret` and the public inputs.
pub open spec fn nonce_val(
    derivation: Derivation,
    secret: Seq<u8>,
    pk: Seq<u8>,
    enc_key: Seq<u8>,
    msg: Seq<u8>,
) -> nat {
    match derivation {
        Derivation::Deterministic => be_nat(nonce_digest(secret, pk, enc_key, msg)) % group_order(),
        Derivation::Synthetic(seed) => be_nat(
            synthetic_nonce_digest(seed@, secret, pk, enc_key, msg),
        ) % group_order(),
    }
}

/// The challenge scalar: the tagged hash read modulo the group order.
pub open spec fn challenge_val(r_x: Seq<u8>, pk_x: Seq<u8>, msg: Seq<u8>) -> nat {
    be_nat(challenge_digest(r_x, pk_x, msg)) % group_order()
}

/// Relies on secp256kfun's `Tag::tag` and `HashAdd::add` over sha2's `Sha256`:
/// the tagged challenge hash of the three inputs.
#[verifier::external_body]
fn challenge_hash(r_x: &[u8; 32], pk_x: &[u8; 32], msg: &[u8]) -> (r: [u8; 32])
    ensures
        r@ == challenge_digest(r_x@, pk_x@, msg@),
{
    let hash = sha2::Sha256::default().tag(b"BIP0340/challenge").add(*r_x).add(*pk_x).add(msg);
    hash.finalize_fixed().into()
}

/// Relies on secp256kfun's `nonce::Deterministic` tagged `BIP0340` over sha2's
/// `Sha256`, and `HashAdd::add`: the nonce hash of the secret and the public inputs.
#[verifier::external_body]
fn nonce_hash(secret: &[u8; 32], pk: &[u8; 33], enc_key: &[u8; 33], msg: &[u8]) -> (r: [u8; 32])
    ensures
        r@ == nonce_digest(secret@, pk@, enc_key@, msg@),
{
    let gen = Deterministic::<sha2::Sha256>::default().tag(b"BIP0340");
    let x = secp256kfun::Scalar::<Secret, Zero>::from_bytes_mod_order(*secret);
    let hash = gen.begin_derivation(&x).add(*pk).add(*enc_key).add(msg);
    hash.finalize_fixed().into()
}

/// Relies on secp256kfun's `nonce::Synthetic` tagged `BIP0340` over sha2's
/// `Sha256`, drawing from rand_chacha's `ChaCha20Rng` seeded with `seed`, and
/// `HashAdd::add`: the nonce hash of the secret and the public inputs.
#[verifier::external_body]
fn synthetic_nonce_hash(
    seed: &[u8; 32],
    secret: &[u8; 32],
    pk: &[u8; 33],
    enc_key: &[u8; 33],
    msg: &[u8],
) -> (r: [u8; 32])
    ensures
        r@ == synthetic_nonce_digest(seed@, secret@, pk@, enc_key@, msg@),
{
    let rng = core::cell::RefCell::new(ChaCha20Rng::from_seed(*seed));
    let gen = Synthetic::<sha2::Sha256, _>::new(rng).tag(b"BIP0340");
    let x = secp256kfun::Scalar::<Secret, Zero>::from_bytes_mod_order(*secret);
    let hash = gen.begin_derivation(&x).add(*pk).add(*enc_key).add(msg);
    hash.finalize_fixed().into()
}

/// A secret key with its public key `x·G`, normalised so that the public key
/// has an even y-coordinate.
#[derive(Clone, Copy, Debug)]
pub struct KeyPair {
    secret: Scalar,
    public: Point,
}

impl KeyPair {
    /// The secret key.
    pub closed spec fn sk(self) -> Scalar {
        self.secret
    }

    /// The public key.
    pub closed spec fn pk(self) -> Point {
        self.public
    }

    /// The public key is `x·G` for the non-zero secret `x`, with even y.
    #[verifier::type_invariant]
    pub open spec fn wf(self) -> bool {
        &&& self.pk().log() == self.sk().val()
        &&& self.sk().val() != 0
        &&& has_even_y(self.sk().val())
    }

    /// The key pair of `secret`, negated if `secret·G` has an odd y-coordinate;
    /// `None` for the zero scalar.
    pub fn new(secret: Scalar) -> (r: Option<KeyPair>)
        ensures
            r is None <==> secret.val() == 0,
            r matches Some(kp) ==> kp.sk().val() == cond_neg(
                secret.val(),
                !has_even_y(secret.val()),
            ),
    {
        let p = base_mul(&secret);
        proof {
            use_type_invariant(&secret);
            p.lemma_log_of(secret.val());
        }
        match into_even_y(&p) {
            None => None,
            Some((public, flag)) => {
                let x = secret.conditional_negate(flag);
                proof {
                    public.lemma_log_of(cond_neg(secret.val(), flag));
                }
                Some(KeyPair { secret: x, public })
            },
        }
    }

    /// The secret key.
    pub fn secret_key(&self) -> (r: Scalar)
        ensures
            r == self.sk(),
    {
        self.secret
    }

    /// The public key.
    pub fn public_key(&self) -> (r: Point)
        ensures
            r == self.pk(),
    {
        self.public
    }
}

/// A plain Schnorr signature: the x-coordinate of the nonce point and `s`.
#[derive(Clone, Copy, Debug, PartialEq, Eq)]
pub struct Signature {
    pub r: [u8; 32],
    pub s: Scalar,
}

impl View for Signature {
    type V = (Seq<u8>, nat);

    open spec fn view(&self) -> (Seq<u8>, nat) {
        (self.r@, self.s.val())
    }
}

/// A signature `(r, s)` verifies under `pk` and `msg` when `s·G - c·pk` has
/// an even y-coordinate and the x-coordinate `r`, for the challenge `c` of
/// `r`, `pk` and `msg`.
pub open spec fn schnorr_verifies(pk: Point, msg: Seq<u8>, sig: (Seq<u8>, nat)) -> bool {
    let c = challenge_val(sig.0, xonly_of(pk.encoding()), msg);
    let k = sub_mod(sig.1, (c * pk.log()) % group_order());
    has_even_y(k) && xonly_of(point_encoding(k)) == sig.0
}

/// The Schnorr scheme over secp256k1 with SHA-256: BIP-340 challenges and
/// deterministic or synthetic nonces.
#[derive(Clone, Copy, Debug)]
pub struct Schnorr {}

impl Schnorr {
    /// The scheme.
    pub fn new() -> (r: Schnorr) {
        Schnorr {}
    }

    /// The challenge of a nonce x-coordinate, a public key and a message.
    pub fn challenge(&self, r_x: &[u8; 32], pk: &Point, msg: &[u8]) -> (c: Scalar)
        ensures
            c.val() == challenge_val(r_x@, xonly_of(pk.encoding()), msg@),
    {
        let pk_x = pk.to_xonly_bytes();
        scalar_from_digest(challenge_hash(r_x, &pk_x, msg))
    }

    /// The nonce for signing `msg` with `kp` under the encryption key `enc_key`.
    pub fn derive_nonce(
        &self,
        kp: &KeyPair,
        enc_key: &Point,
        msg: &[u8],
        derivation: Derivation,
    ) -> (r: Scalar)
        ensures
            r.val() == nonce_val(
                derivation,
                kp.sk().encoding(),
                kp.pk().encoding(),
                enc_key.encoding(),
                msg@,
            ),
    {
        let secret = kp.secret.to_bytes();
        let pk = kp.public.to_bytes();
        let y = enc_key.to_bytes();
        let digest = match derivation {
            Derivation::Deterministic => nonce_hash(&secret, &pk, &y, msg),
            Derivation::Synthetic(seed) => synthetic_nonce_hash(&seed, &secret, &pk, &y, msg),
        };
        scalar_from_digest(digest)
    }

    /// Plain Schnorr verification of `sig` on `msg` under `pk`.
    pub fn verify(&self, pk: &Point, msg: &[u8], sig: &Signature) -> (r: bool)
        ensures
            r == schnorr_verifies(*pk, msg@, sig@),
    {
        let c = self.challenge(&sig.r, pk, msg);
        let c_pk = point_mul(&c, pk);
        let s_g = base_mul(&sig.s);
        let k = point_sub(&s_g, &c_pk);
        proof {
            use_type_invariant(&sig.s);
            s_g.lemma_log_of(sig.s.val());
            k.lemma_log_of(sub_mod(sig.s.val(), (c.val() * pk.log()) % group_order()));
        }
        if !k.is_y_even() {
            return false;
        }
        let k_x = k.to_xonly_bytes();
        bytes32_eq(&k_x, &sig.r)
    }
}

} // verus!
