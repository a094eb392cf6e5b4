use keytool::detect::{detect, EncodingGuess};
use keytool::keymat::{resolve_key_size, KeyMaterial};
use keytool::KeyError;
use rsa::traits::{PrivateKeyParts, PublicKeyParts};

/// Key material for the small two-prime key n = 61 * 53 = 3233, e = 17,
/// d = 2753, before any CRT derivation.
fn tiny_material() -> KeyMaterial {
    KeyMaterial::Private {
        n: vec![0x0c, 0xa1],
        e: vec![0x11],
        d: vec![0x0a, 0xc1],
        primes: vec![vec![61], vec![53]],
        dp: None,
        dq: None,
        qinv: None,
    }
}

#[test]
fn crt_values_are_absent_before_precomputation() {
    let key = tiny_material();
    assert!(key.dp().is_none());
    assert!(key.dq().is_none());
    assert!(key.crt_coefficient().is_none());
}

#[test]
fn precomputation_fills_all_three_crt_values() {
    let mut key = tiny_material();
    key.precompute().unwrap();
    assert_eq!(key.dp().unwrap().as_slice(), &[0x35]);
    assert_eq!(key.dq().unwrap().as_slice(), &[0x31]);
    assert_eq!(key.crt_coefficient().unwrap().as_slice(), &[0x26]);
    assert!(!key.dp().unwrap().is_empty());
    assert!(!key.dq().unwrap().is_empty());
    assert!(!key.crt_coefficient().unwrap().is_empty());
}

#[test]
fn precomputation_is_idempotent() {
    let mut key = tiny_material();
    key.precompute().unwrap();
    let dp = key.dp().unwrap().clone();
    key.precompute().unwrap();
    assert_eq!(key.dp().unwrap(), &dp);
}

#[test]
fn precomputation_on_a_public_key_is_a_no_op() {
    let mut key = KeyMaterial::Public { n: vec![0x0c, 0xa1], e: vec![0x11] };
    key.precompute().unwrap();
    assert!(key.dp().is_none());
}

#[test]
fn precomputation_fails_on_a_short_prime_list() {
    let mut key = KeyMaterial::Private {
        n: vec![0x0c, 0xa1],
        e: vec![0x11],
        d: vec![0x0a, 0xc1],
        primes: vec![vec![61]],
        dp: None,
        dq: None,
        qinv: None,
    };
    assert_eq!(key.precompute().unwrap_err(), KeyError::PrecomputeFailed);
    assert!(key.dp().is_none());
}

#[test]
fn precomputation_fails_on_inconsistent_components() {
    let mut key = KeyMaterial::Private {
        n: vec![0x0d],
        e: vec![0x11],
        d: vec![0x0a, 0xc1],
        primes: vec![vec![61], vec![53]],
        dp: None,
        dq: None,
        qinv: None,
    };
    assert_eq!(key.precompute().unwrap_err(), KeyError::PrecomputeFailed);
    assert!(key.dp().is_none());
}

#[test]
fn format_key_renders_every_private_field_in_order() {
    let mut key = tiny_material();
    let report = key.format_key().unwrap();
    assert_eq!(
        report,
        "Private-Key: (12 bit, 2 primes)\n\
         modulus (n):\n    0c:a1\n\
         public exponent (e): 17 (0x11)\n\
         private exponent (d):\n    0a:c1\n\
         prime1 (p):\n    3d\n\
         prime2 (q):\n    35\n\
         exponent1 (dp):\n    35\n\
         exponent2 (dq):\n    31\n\
         coefficient:\n    26\n"
    );
    // A second run formats the already precomputed key identically.
    assert_eq!(key.format_key().unwrap(), report);
}

#[test]
fn format_key_fails_rather_than_print_partial_crt_values() {
    let mut key = KeyMaterial::Private {
        n: vec![0x0c, 0xa1],
        e: vec![0x11],
        d: vec![0x0a, 0xc1],
        primes: vec![vec![61]],
        dp: None,
        dq: None,
        qinv: None,
    };
    assert_eq!(key.format_key().unwrap_err(), KeyError::PrecomputeFailed);
}

#[test]
fn format_key_renders_the_public_report() {
    let mut key = KeyMaterial::Public { n: vec![0x0c, 0xa1], e: vec![0x11] };
    let report = key.format_key().unwrap();
    assert_eq!(
        report,
        "Public-Key: (12 bit)\nmodulus (n):\n    0c:a1\npublic exponent (e): 17 (0x11)\n"
    );
}

#[test]
fn accessors_project_the_components() {
    let key = tiny_material();
    assert_eq!(key.n().as_slice(), &[0x0c, 0xa1]);
    assert_eq!(key.e().as_slice(), &[0x11]);
    assert_eq!(key.d().unwrap().as_slice(), &[0x0a, 0xc1]);
    let primes = key.primes().unwrap();
    assert_eq!(primes.len(), 2);
    assert_eq!(primes[0].as_slice(), &[61]);
    assert_eq!(primes[1].as_slice(), &[53]);

    let public = KeyMaterial::Public { n: vec![1], e: vec![3] };
    assert!(public.d().is_none());
    assert!(public.primes().is_none());
}

#[test]
fn public_component_keeps_modulus_and_exponent() {
    let key = tiny_material();
    let public = key.to_public_key();
    assert_eq!(public.n(), key.n());
    assert_eq!(public.e(), key.e());
    assert!(public.d().is_none());
}

#[test]
fn exported_public_component_detects_and_round_trips() {
    let key = tiny_material();
    let der = key.export_public_pkcs1_der().unwrap();
    let d = detect(&der).unwrap();
    assert_eq!(d.encoding, EncodingGuess::DerPkcs1Public);
    assert_eq!(d.key.n(), key.n());
    assert_eq!(d.key.e(), key.e());

    let pem = key.export_public_pkcs1_pem().unwrap();
    let d = detect(pem.as_bytes()).unwrap();
    assert_eq!(d.encoding, EncodingGuess::PemPkcs1Public);
    assert_eq!(d.key.n(), key.n());
    assert_eq!(d.key.e(), key.e());
}

#[test]
fn export_handles_a_modulus_beyond_4096_bits() {
    // An 8200-bit modulus: the export path imposes no size cap, so the
    // public part of any key that parsed can be written back out.
    let mut n = vec![0x80u8];
    n.extend(std::iter::repeat(0u8).take(1024));
    let key = KeyMaterial::Public { n, e: vec![1, 0, 1] };

    let der = key.export_public_pkcs1_der();
    assert!(der.is_some());

    let pem = key.export_public_pkcs1_pem();
    let pem = pem.unwrap();
    assert!(pem.starts_with("-----BEGIN RSA PUBLIC KEY-----"));
}

#[test]
fn generated_key_round_trips_through_export_and_detection() {
    let mut rng = rsa::rand_core::OsRng;
    let generated = rsa::RsaPrivateKey::new(&mut rng, 512).unwrap();
    let material = KeyMaterial::Private {
        n: generated.n().to_bytes_be(),
        e: generated.e().to_bytes_be(),
        d: generated.d().to_bytes_be(),
        primes: generated.primes().iter().map(|p| p.to_bytes_be()).collect(),
        dp: None,
        dq: None,
        qinv: None,
    };
    let pem = material.export_public_pkcs1_pem().unwrap();
    let d = detect(pem.as_bytes()).unwrap();
    assert_eq!(d.encoding, EncodingGuess::PemPkcs1Public);
    assert_eq!(d.key.n().as_slice(), generated.n().to_bytes_be().as_slice());
    assert_eq!(d.key.e().as_slice(), generated.e().to_bytes_be().as_slice());
}

#[test]
fn key_sizes_resolve_to_the_supported_set() {
    assert_eq!(resolve_key_size(None), Some(2048));
    assert_eq!(resolve_key_size(Some(512)), Some(512));
    assert_eq!(resolve_key_size(Some(1024)), Some(1024));
    assert_eq!(resolve_key_size(Some(2048)), Some(2048));
    assert_eq!(resolve_key_size(Some(4096)), Some(4096));
    assert_eq!(resolve_key_size(Some(777)), None);
    assert_eq!(resolve_key_size(Some(0)), None);
}
