use schnorr_fun::{Adaptor, AdaptorSign, Derivation, EncryptedSignature, KeyPair, Point, Scalar, Schnorr, Signature};

fn hex32(s: &str) -> [u8; 32] {
    let mut out = [0u8; 32];
    for i in 0..32 {
        out[i] = u8::from_str_radix(&s[2 * i..2 * i + 2], 16).unwrap();
    }
    out
}

fn scalar_of(v: u64) -> Scalar {
    let mut bytes = [0u8; 32];
    bytes[24..].copy_from_slice(&v.to_be_bytes());
    Scalar::from_bytes(bytes).unwrap()
}

fn scalar_hex(s: &str) -> Scalar {
    Scalar::from_bytes(hex32(s)).unwrap()
}

fn keypair(v: u64) -> KeyPair {
    KeyPair::new(scalar_of(v)).unwrap()
}

const MESSAGE: &[u8] = b"give 100 coins to Bob";

fn run_end_to_end(signing: KeyPair, decryption_key: Scalar) {
    let schnorr = Schnorr::new();
    let verification_key = signing.public_key();
    let encryption_key = Point::from_scalar(&decryption_key);
    let ciphertext = schnorr
        .encrypted_sign(&signing, &encryption_key, MESSAGE, Derivation::Deterministic)
        .expect("the nonce point is not the identity");
    assert!(schnorr.verify_encrypted_signature(&verification_key, &encryption_key, MESSAGE, &ciphertext));
    let signature = schnorr.decrypt_signature(decryption_key, ciphertext);
    assert!(schnorr.verify(&verification_key, MESSAGE, &signature));
    let recovered = schnorr
        .recover_decryption_key(&encryption_key, &ciphertext, &signature)
        .expect("recovery works");
    assert_eq!(recovered, decryption_key);
}

#[test]
fn end_to_end() {
    let keys = [
        "0b0e6c1e8b3f4a2d9c7e5f1a3b2c4d6e8f0a1b2c3d4e5f60718293a4b5c6d7e8",
        "7f3a9c2e1d4b6a8f0e2c4a6b8d0f1e3c5a7b9d1f2e4c6a8b0d2f4e6a8c0b2d4f",
        "c0ffee00deadbeef0123456789abcdef0123456789abcdef0123456789abcdef",
        "0000000000000000000000000000000000000000000000000000000000000005",
    ];
    let decryption_keys = [
        "1111111111111111111111111111111111111111111111111111111111111111",
        "2222222222222222222222222222222222222222222222222222222222222222",
        "fffffffffffffffffffffffffffffffebaaedce6af48a03bbfd25e8cd0364140",
        "0000000000000000000000000000000000000000000000000000000000000002",
    ];
    for k in keys.iter() {
        for d in decryption_keys.iter() {
            run_end_to_end(KeyPair::new(scalar_hex(k)).unwrap(), scalar_hex(d));
        }
    }
}

#[test]
fn fixed_scenario_with_generator_as_encryption_key() {
    let schnorr = Schnorr::new();
    let signing = keypair(42);
    let one = scalar_of(1);
    let encryption_key = Point::from_scalar(&one);
    let ciphertext = schnorr.encrypted_sign(&signing, &encryption_key, MESSAGE, Derivation::Deterministic).unwrap();
    assert!(schnorr.verify_encrypted_signature(&signing.public_key(), &encryption_key, MESSAGE, &ciphertext));
    let signature = schnorr.decrypt_signature(one, ciphertext);
    assert!(schnorr.verify(&signing.public_key(), MESSAGE, &signature));
    assert_eq!(schnorr.recover_decryption_key(&encryption_key, &ciphertext, &signature), Some(one));
}

#[test]
fn generator_encoding() {
    let g = Point::from_scalar(&scalar_of(1));
    let mut expected = [2u8; 33];
    expected[1..].copy_from_slice(&hex32("79be667ef9dcbbac55a06295ce870b07029bfcdb2dce28d959f2815b16f81798"));
    assert_eq!(g.to_bytes(), expected);
    assert!(g.is_y_even());
    assert_eq!(g.to_xonly_bytes(), hex32("79be667ef9dcbbac55a06295ce870b07029bfcdb2dce28d959f2815b16f81798"));
}

#[test]
fn keypair_public_key_has_even_y() {
    let kp = keypair(3);
    let mut expected = [2u8; 33];
    expected[1..].copy_from_slice(&hex32("f9308a019258c31049344f85f89d5229b531c845836f99b08601f113bce036f9"));
    assert_eq!(kp.public_key().to_bytes(), expected);
    for v in 1..20u64 {
        let kp = keypair(v);
        assert!(kp.public_key().is_y_even());
        assert!(kp.public_key().equals(&Point::from_scalar(&kp.secret_key())));
    }
}

#[test]
fn zero_secret_has_no_keypair() {
    assert!(KeyPair::new(scalar_of(0)).is_none());
}

#[test]
fn scalar_bytes_must_be_below_order() {
    let n = hex32("fffffffffffffffffffffffffffffffebaaedce6af48a03bbfd25e8cd0364141");
    assert!(Scalar::from_bytes(n).is_none());
    assert!(Scalar::from_bytes([0xff; 32]).is_none());
    let below = hex32("fffffffffffffffffffffffffffffffebaaedce6af48a03bbfd25e8cd0364140");
    assert_eq!(Scalar::from_bytes(below).unwrap().to_bytes(), below);
    assert!(scalar_of(0).is_zero());
    assert!(!scalar_of(7).is_zero());
}

#[test]
fn conditional_negate_of_scalar() {
    let one = scalar_of(1);
    let minus_one = scalar_hex("fffffffffffffffffffffffffffffffebaaedce6af48a03bbfd25e8cd0364140");
    assert_eq!(one.conditional_negate(true), minus_one);
    assert_eq!(one.conditional_negate(false), one);
    assert_eq!(scalar_of(0).conditional_negate(true), scalar_of(0));
}

#[test]
fn plain_verify_bip340_vector() {
    let schnorr = Schnorr::new();
    let pk = keypair(3).public_key();
    let msg = [0u8; 32];
    let r = hex32("e907831f80848d1069a5371b402410364bdf1c5f8307b0084c55f1ce2dca8215");
    let s = scalar_hex("25f66a4a85ea8b71e482a74f382d2ce5ebeee8fdb2172f477df4900d310536c0");
    assert!(schnorr.verify(&pk, &msg, &Signature { r, s }));
    let s_bad = scalar_hex("25f66a4a85ea8b71e482a74f382d2ce5ebeee8fdb2172f477df4900d310536c1");
    assert!(!schnorr.verify(&pk, &msg, &Signature { r, s: s_bad }));
    assert!(!schnorr.verify(&pk, &[1u8; 32], &Signature { r, s }));
}

#[test]
fn encrypted_signature_does_not_verify_as_plain_signature() {
    let schnorr = Schnorr::new();
    let signing = keypair(1234);
    let y = scalar_of(99);
    let encryption_key = Point::from_scalar(&y);
    let ct = schnorr.encrypted_sign(&signing, &encryption_key, MESSAGE, Derivation::Deterministic).unwrap();
    let undecrypted = Signature { r: ct.r().to_xonly_bytes(), s: ct.s_hat() };
    assert!(!schnorr.verify(&signing.public_key(), MESSAGE, &undecrypted));
}

#[test]
fn encrypted_sign_is_deterministic() {
    let schnorr = Schnorr::new();
    let signing = keypair(77);
    let encryption_key = Point::from_scalar(&scalar_of(5));
    let a = schnorr.encrypted_sign(&signing, &encryption_key, MESSAGE, Derivation::Deterministic).unwrap();
    let b = schnorr.encrypted_sign(&signing, &encryption_key, MESSAGE, Derivation::Deterministic).unwrap();
    assert_eq!(a, b);
    let other = schnorr.encrypted_sign(&signing, &encryption_key, b"another message", Derivation::Deterministic).unwrap();
    assert_ne!(a.r(), other.r());
    let other_key = schnorr
        .encrypted_sign(&signing, &Point::from_scalar(&scalar_of(6)), MESSAGE, Derivation::Deterministic)
        .unwrap();
    assert_ne!(a.r(), other_key.r());
}

#[test]
fn verify_rejects_wrong_inputs() {
    let schnorr = Schnorr::new();
    let signing = keypair(8);
    let encryption_key = Point::from_scalar(&scalar_of(9));
    let ct = schnorr.encrypted_sign(&signing, &encryption_key, MESSAGE, Derivation::Deterministic).unwrap();
    let pk = signing.public_key();
    assert!(schnorr.verify_encrypted_signature(&pk, &encryption_key, MESSAGE, &ct));
    assert!(!schnorr.verify_encrypted_signature(&pk, &encryption_key, b"give 1000 coins to Bob", &ct));
    assert!(!schnorr.verify_encrypted_signature(&keypair(10).public_key(), &encryption_key, MESSAGE, &ct));
    assert!(!schnorr.verify_encrypted_signature(&pk, &Point::from_scalar(&scalar_of(10)), MESSAGE, &ct));
    let tampered = EncryptedSignature::new(ct.r(), scalar_of(1), ct.needs_negation()).unwrap();
    assert!(!schnorr.verify_encrypted_signature(&pk, &encryption_key, MESSAGE, &tampered));
}

#[test]
fn recovery_needs_matching_nonce() {
    let schnorr = Schnorr::new();
    let signing = keypair(21);
    let y = scalar_of(31);
    let encryption_key = Point::from_scalar(&y);
    let ct = schnorr.encrypted_sign(&signing, &encryption_key, MESSAGE, Derivation::Deterministic).unwrap();
    let signature = schnorr.decrypt_signature(y, ct);
    let mut r = signature.r;
    r[0] ^= 1;
    let other = Signature { r, s: signature.s };
    assert_eq!(schnorr.recover_decryption_key(&encryption_key, &ct, &other), None);
    // An unrelated signature on its own nonce yields nothing either.
    let ct2 = schnorr.encrypted_sign(&signing, &encryption_key, b"something else", Derivation::Deterministic).unwrap();
    let sig2 = schnorr.decrypt_signature(y, ct2);
    assert_eq!(schnorr.recover_decryption_key(&encryption_key, &ct, &sig2), None);
}

#[test]
fn recovery_rejects_wrong_decryption_key() {
    let schnorr = Schnorr::new();
    let signing = keypair(55);
    let y = scalar_of(66);
    let encryption_key = Point::from_scalar(&y);
    let ct = schnorr.encrypted_sign(&signing, &encryption_key, MESSAGE, Derivation::Deterministic).unwrap();
    let wrong = schnorr.decrypt_signature(scalar_of(67), ct);
    assert!(!schnorr.verify(&signing.public_key(), MESSAGE, &wrong));
    assert_eq!(schnorr.recover_decryption_key(&encryption_key, &ct, &wrong), None);
}

#[test]
fn negation_flag_is_needed() {
    let schnorr = Schnorr::new();
    let mut seen = [false, false];
    for v in 1..40u64 {
        let signing = keypair(v);
        let y = scalar_of(1000 + v);
        let encryption_key = Point::from_scalar(&y);
        let ct = schnorr.encrypted_sign(&signing, &encryption_key, MESSAGE, Derivation::Deterministic).unwrap();
        let pk = signing.public_key();
        assert!(schnorr.verify_encrypted_signature(&pk, &encryption_key, MESSAGE, &ct));
        let flipped = EncryptedSignature::new(ct.r(), ct.s_hat(), !ct.needs_negation()).unwrap();
        assert!(!schnorr.verify_encrypted_signature(&pk, &encryption_key, MESSAGE, &flipped));
        seen[ct.needs_negation() as usize] = true;
        run_end_to_end(signing, y);
    }
    assert!(seen[0] && seen[1]);
}

#[test]
fn synthetic_derivation_round_trip() {
    let schnorr = Schnorr::new();
    let signing = keypair(4242);
    let y = scalar_of(17);
    let encryption_key = Point::from_scalar(&y);
    let a = schnorr
        .encrypted_sign(&signing, &encryption_key, MESSAGE, Derivation::Synthetic([7u8; 32]))
        .unwrap();
    let b = schnorr
        .encrypted_sign(&signing, &encryption_key, MESSAGE, Derivation::Synthetic([7u8; 32]))
        .unwrap();
    let c = schnorr
        .encrypted_sign(&signing, &encryption_key, MESSAGE, Derivation::Synthetic([8u8; 32]))
        .unwrap();
    let d = schnorr
        .encrypted_sign(&signing, &encryption_key, MESSAGE, Derivation::Deterministic)
        .unwrap();
    assert_eq!(a, b);
    assert_ne!(a.r(), c.r());
    assert_ne!(a.r(), d.r());
    let pk = signing.public_key();
    for ct in [a, c] {
        assert!(schnorr.verify_encrypted_signature(&pk, &encryption_key, MESSAGE, &ct));
        let sig = schnorr.decrypt_signature(y, ct);
        assert!(schnorr.verify(&pk, MESSAGE, &sig));
        assert_eq!(schnorr.recover_decryption_key(&encryption_key, &ct, &sig), Some(y));
    }
}

#[test]
fn point_decoding() {
    let g = Point::from_scalar(&scalar_of(1));
    assert_eq!(Point::from_bytes(g.to_bytes()), Some(g));
    let identity = Point::from_bytes([0u8; 33]).expect("the identity has an encoding");
    assert!(!identity.is_y_even());
    let mut odd = g.to_bytes();
    odd[0] = 3;
    let minus_g = Point::from_bytes(odd).unwrap();
    let minus_one = scalar_hex("fffffffffffffffffffffffffffffffebaaedce6af48a03bbfd25e8cd0364140");
    assert!(minus_g.equals(&Point::from_scalar(&minus_one)));
    let mut bad_prefix = g.to_bytes();
    bad_prefix[0] = 4;
    assert_eq!(Point::from_bytes(bad_prefix), None);
    // x = 5 is not the x-coordinate of any point on secp256k1.
    let mut off_curve = [0u8; 33];
    off_curve[0] = 2;
    off_curve[32] = 5;
    assert_eq!(Point::from_bytes(off_curve), None);
}

#[test]
fn ciphertext_nonce_point_must_be_normalised() {
    let g = Point::from_scalar(&scalar_of(1));
    let s_hat = scalar_of(5);
    let ct = EncryptedSignature::new(g, s_hat, true).expect("G has an even y-coordinate");
    assert_eq!(ct.r(), g);
    assert_eq!(ct.s_hat(), s_hat);
    assert!(ct.needs_negation());
    let mut odd = g.to_bytes();
    odd[0] = 3;
    let minus_g = Point::from_bytes(odd).unwrap();
    assert_eq!(EncryptedSignature::new(minus_g, s_hat, false), None);
    assert_eq!(EncryptedSignature::new(minus_g, s_hat, true), None);
    let identity = Point::from_bytes([0u8; 33]).unwrap();
    assert_eq!(EncryptedSignature::new(identity, s_hat, false), None);
}

#[test]
fn verified_ciphertext_decrypts_to_valid_signature() {
    let schnorr = Schnorr::new();
    for v in 1..12u64 {
        let signing = keypair(300 + v);
        let y = scalar_of(500 + v);
        let encryption_key = Point::from_scalar(&y);
        let ct = schnorr.encrypted_sign(&signing, &encryption_key, MESSAGE, Derivation::Deterministic).unwrap();
        assert!(ct.r().is_y_even());
        let rebuilt = EncryptedSignature::new(ct.r(), ct.s_hat(), ct.needs_negation()).unwrap();
        assert_eq!(rebuilt, ct);
        assert!(schnorr.verify_encrypted_signature(&signing.public_key(), &encryption_key, MESSAGE, &rebuilt));
        let sig = schnorr.decrypt_signature(y, rebuilt);
        assert!(schnorr.verify(&signing.public_key(), MESSAGE, &sig));
    }
}
