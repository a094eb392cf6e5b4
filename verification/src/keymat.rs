//! Key material: the discriminated Public/Private key value, its uniform
//! read-only projection, the one-time CRT precomputation step, and the
//! canonical textual report of a key's numeric components.

use vstd::prelude::*;
use vstd::string::StringExecFns;
use vstd::slice::slice_to_vec;
use rsa::traits::{PrivateKeyParts as _, PublicKeyParts as _};
use crate::KeyError;
use crate::bignum::{
    bit_width, bit_width_spec, dec_digits_of, dec_string_bytes, hex_digits_of, hex_string_bytes,
    normalize_spec, push_dec_u128, value_of,
};
use crate::hexfmt::{format_hex, hex_block};

verus! {

/// The numeric components a private key exposes, as big-endian byte strings.
pub struct PrivParts {
    pub n: Seq<u8>,
    pub e: Seq<u8>,
    pub d: Seq<u8>,
    pub primes: Seq<Seq<u8>>,
}

/// The numeric components a public key exposes.
pub struct PubParts {
    pub n: Seq<u8>,
    pub e: Seq<u8>,
}

/// The mathematical model of key material: the components, and for a private
/// key the optional precomputed CRT values.
#[allow(inconsistent_fields)]
pub enum KeyModel {
    Private { parts: PrivParts, dp: Option<Seq<u8>>, dq: Option<Seq<u8>>, qinv: Option<Seq<u8>> },
    Public { parts: PubParts },
}

impl KeyModel {
    /// The CRT values are either all absent or all present, and present ones
    /// can only have come from a prime list of at least two entries.
    pub open spec fn wf(self) -> bool {
        match self {
            KeyModel::Private { parts, dp, dq, qinv } => {
                &&& (dp is Some <==> dq is Some)
                &&& (dp is Some <==> qinv is Some)
                &&& (dp is Some ==> parts.primes.len() >= 2)
            },
            KeyModel::Public { .. } => true,
        }
    }

    /// Whether the CRT values of a private key have been derived; a public
    /// key has none to derive.
    pub open spec fn precomputed(self) -> bool {
        match self {
            KeyModel::Private { dp, .. } => dp is Some,
            KeyModel::Public { .. } => true,
        }
    }

    pub open spec fn modulus(self) -> Seq<u8> {
        match self {
            KeyModel::Private { parts, .. } => parts.n,
            KeyModel::Public { parts } => parts.n,
        }
    }

    pub open spec fn public_exponent(self) -> Seq<u8> {
        match self {
            KeyModel::Private { parts, .. } => parts.e,
            KeyModel::Public { parts } => parts.e,
        }
    }
}

/// Key material as held at run time: every numeric component is a big-endian
/// byte string.
#[derive(Debug)]
pub enum KeyMaterial {
    Private {
        n: Vec<u8>,
        e: Vec<u8>,
        d: Vec<u8>,
        primes: Vec<Vec<u8>>,
        dp: Option<Vec<u8>>,
        dq: Option<Vec<u8>>,
        qinv: Option<Vec<u8>>,
    },
    Public { n: Vec<u8>, e: Vec<u8> },
}

impl View for KeyMaterial {
    type V = KeyModel;

    open spec fn view(&self) -> KeyModel {
        match self {
            KeyMaterial::Private { n, e, d, primes, dp, dq, qinv } => KeyModel::Private {
                parts: PrivParts { n: n@, e: e@, d: d@, primes: primes.deep_view() },
                dp: dp.deep_view(),
                dq: dq.deep_view(),
                qinv: qinv.deep_view(),
            },
            KeyMaterial::Public { n, e } => KeyModel::Public {
                parts: PubParts { n: n@, e: e@ },
            },
        }
    }
}

/// What deriving the CRT values from a private key's components yields:
/// `dp = d mod (p-1)`, `dq = d mod (q-1)` and the coefficient
/// `q^-1 mod p`, or nothing when the components do not form a consistent
/// two-prime RSA key. The derivation is a function of the components alone.
pub uninterp spec fn crt_params_of(n: Seq<u8>, e: Seq<u8>, d: Seq<u8>, primes: Seq<Seq<u8>>) -> Option<
    (Seq<u8>, Seq<u8>, Seq<u8>),
>;

/// Relies on `rsa::RsaPrivateKey::from_components` (which validates the
/// components), `RsaPrivateKey::precompute` and the accessors `dp`, `dq` and
/// `crt_coefficient`: the derived values depend on the key components alone,
/// and the step fails exactly when the components do not validate or the
/// modular inverse does not exist. At least two primes must be given:
/// `from_components` falls back to a prime-recovery computation on an empty
/// list, and that path can abort on degenerate components.
#[verifier::external_body]
fn derive_crt_params(n: &Vec<u8>, e: &Vec<u8>, d: &Vec<u8>, primes: &Vec<Vec<u8>>) -> (r: Option<
    (Vec<u8>, Vec<u8>, Vec<u8>),
>)
    requires
        primes@.len() >= 2,
    ensures
        match r {
            Some(t) => crt_params_of(n@, e@, d@, primes.deep_view()) == Some((t.0@, t.1@, t.2@)),
            None => crt_params_of(n@, e@, d@, primes.deep_view()) is None,
        },
{
    let primes: Vec<rsa::BigUint> = primes.iter().map(|p| rsa::BigUint::from_bytes_be(p)).collect();
    let mut key = rsa::RsaPrivateKey::from_components(
        rsa::BigUint::from_bytes_be(n),
        rsa::BigUint::from_bytes_be(e),
        rsa::BigUint::from_bytes_be(d),
        primes,
    ).ok()?;
    key.precompute().ok()?;
    let dp = key.dp()?.to_bytes_be();
    let dq = key.dq()?.to_bytes_be();
    let qinv = key.crt_coefficient()?.to_bytes_be();
    Some((dp, dq, qinv))
}

/// Whether the one-time precomputation step succeeds on this key: trivially
/// on a public key or an already precomputed private key, otherwise exactly
/// when the prime list has at least two entries and the CRT derivation goes
/// through.
pub open spec fn precompute_succeeds(m: KeyModel) -> bool {
    match m {
        KeyModel::Public { .. } => true,
        KeyModel::Private { parts, dp, .. } => {
            ||| dp is Some
            ||| (parts.primes.len() >= 2 && crt_params_of(parts.n, parts.e, parts.d, parts.primes)
                is Some)
        },
    }
}

/// The key after a successful precomputation: unchanged but for the CRT
/// values, which are filled in from the derivation if they were absent.
pub open spec fn precomputed_model(m: KeyModel) -> KeyModel {
    match m {
        KeyModel::Public { .. } => m,
        KeyModel::Private { parts, dp, dq, qinv } => {
            if dp is Some {
                m
            } else {
                match crt_params_of(parts.n, parts.e, parts.d, parts.primes) {
                    Some(t) => KeyModel::Private {
                        parts,
                        dp: Some(t.0),
                        dq: Some(t.1),
                        qinv: Some(t.2),
                    },
                    None => m,
                }
            }
        },
    }
}

/// Precomputation is idempotent: running it on an already precomputed key
/// changes nothing.
pub proof fn lemma_precompute_idempotent(m: KeyModel)
    requires
        precompute_succeeds(m),
    ensures
        precomputed_model(precomputed_model(m)) == precomputed_model(m),
{
}

/// One labeled hex field of the report: the label line, then the hex block
/// indented by four spaces.
pub open spec fn hex_field(label: Seq<char>, v: Seq<u8>) -> Seq<char> {
    label + "\n    "@ + hex_block(normalize_spec(v), true) + "\n"@
}

/// The public exponent's line: its decimal value and its minimal hex value.
pub open spec fn public_exponent_line(e: Seq<u8>) -> Seq<char> {
    "public exponent (e): "@ + dec_digits_of(value_of(e)) + " (0x"@ + hex_digits_of(value_of(e))
        + ")\n"@
}

/// The report of a public key: a header with the modulus bit length, then
/// the modulus and the public exponent.
pub open spec fn public_report_spec(p: PubParts) -> Seq<char> {
    "Public-Key: ("@ + dec_digits_of(bit_width_spec(p.n)) + " bit)\n"@ + hex_field(
        "modulus (n):"@,
        p.n,
    ) + public_exponent_line(p.e)
}

/// The report of a precomputed private key, its fields in the fixed order
/// modulus, public exponent, private exponent, the two primes, the two CRT
/// exponents, the coefficient.
pub open spec fn private_report_spec(
    p: PrivParts,
    dp: Option<Seq<u8>>,
    dq: Option<Seq<u8>>,
    qinv: Option<Seq<u8>>,
) -> Seq<char> {
    "Private-Key: ("@ + dec_digits_of(bit_width_spec(p.n)) + " bit, "@ + dec_digits_of(
        p.primes.len(),
    ) + " primes)\n"@ + hex_field("modulus (n):"@, p.n) + public_exponent_line(p.e) + hex_field(
        "private exponent (d):"@,
        p.d,
    ) + hex_field("prime1 (p):"@, p.primes[0]) + hex_field("prime2 (q):"@, p.primes[1])
        + (match dp {
        Some(v) => hex_field("exponent1 (dp):"@, v),
        None => Seq::<char>::empty(),
    }) + (match dq {
        Some(v) => hex_field("exponent2 (dq):"@, v),
        None => Seq::<char>::empty(),
    }) + (match qinv {
        Some(v) => hex_field("coefficient:"@, v),
        None => Seq::<char>::empty(),
    })
}

/// The canonical report of a key's numeric components.
pub open spec fn key_report_spec(m: KeyModel) -> Seq<char> {
    match m {
        KeyModel::Public { parts } => public_report_spec(parts),
        KeyModel::Private { parts, dp, dq, qinv } => private_report_spec(parts, dp, dq, qinv),
    }
}

/// Appends one labeled hex field to the report.
fn push_hex_field(out: &mut String, label: &str, v: &[u8])
    ensures
        final(out)@ == old(out)@ + hex_field(label@, v@),
{
    out.append(label);
    out.append("\n    ");
    let h = format_hex(v);
    out.append(h.as_str());
    out.append("\n");
    assert(out@ =~= old(out)@ + hex_field(label@, v@));
}

/// Appends the public exponent's line to the report.
fn push_public_exponent_line(out: &mut String, e: &[u8])
    ensures
        final(out)@ == old(out)@ + public_exponent_line(e@),
{
    out.append("public exponent (e): ");
    let dec = dec_string_bytes(e);
    out.append(dec.as_str());
    out.append(" (0x");
    let hex = hex_string_bytes(e);
    out.append(hex.as_str());
    out.append(")\n");
    assert(out@ =~= old(out)@ + public_exponent_line(e@));
}

impl KeyMaterial {
    /// Derives the CRT values of a private key once; reading them before
    /// this step finds them absent. Fails exactly when the prime list is
    /// short or the derivation does, leaving the key unchanged.
    pub fn precompute(&mut self) -> (r: Result<(), KeyError>)
        requires
            old(self)@.wf(),
        ensures
            final(self)@.wf(),
            match r {
                Ok(_) => precompute_succeeds(old(self)@) && final(self)@ == precomputed_model(
                    old(self)@,
                ),
                Err(e) => {
                    &&& e == KeyError::PrecomputeFailed
                    &&& !precompute_succeeds(old(self)@)
                    &&& final(self)@ == old(self)@
                },
            },
    {
        let mut taken = KeyMaterial::Public { n: Vec::new(), e: Vec::new() };
        core::mem::swap(self, &mut taken);
        match taken {
            KeyMaterial::Public { n, e } => {
                *self = KeyMaterial::Public { n, e };
                Ok(())
            },
            KeyMaterial::Private { n, e, d, primes, dp, dq, qinv } => {
                if dp.is_some() {
                    *self = KeyMaterial::Private { n, e, d, primes, dp, dq, qinv };
                    return Ok(());
                }
                if primes.len() < 2 {
                    *self = KeyMaterial::Private { n, e, d, primes, dp, dq, qinv };
                    return Err(KeyError::PrecomputeFailed);
                }
                match derive_crt_params(&n, &e, &d, &primes) {
                    Some(t) => {
                        proof {
                            assert(t.0.deep_view() =~= t.0@);
                            assert(t.1.deep_view() =~= t.1@);
                            assert(t.2.deep_view() =~= t.2@);
                        }
                        *self = KeyMaterial::Private {
                            n,
                            e,
                            d,
                            primes,
                            dp: Some(t.0),
                            dq: Some(t.1),
                            qinv: Some(t.2),
                        };
                        Ok(())
                    },
                    None => {
                        *self = KeyMaterial::Private { n, e, d, primes, dp, dq, qinv };
                        Err(KeyError::PrecomputeFailed)
                    },
                }
            },
        }
    }

    /// Renders the canonical report of this key. A private key must have its
    /// CRT values derived first: the report never omits a derivable field.
    pub fn format_report(&self) -> (r: String)
        requires
            self@.wf(),
            self@.precomputed(),
        ensures
            r@ == key_report_spec(self@),
    {
        let mut out = String::new();
        match self {
            KeyMaterial::Public { n, e } => {
                out.append("Public-Key: (");
                let bits = bit_width(n.as_slice());
                push_dec_u128(bits, &mut out);
                out.append(" bit)\n");
                push_hex_field(&mut out, "modulus (n):", n.as_slice());
                push_public_exponent_line(&mut out, e.as_slice());
                assert(out@ =~= key_report_spec(self@));
            },
            KeyMaterial::Private { n, e, d, primes, dp, dq, qinv } => {
                out.append("Private-Key: (");
                let bits = bit_width(n.as_slice());
                push_dec_u128(bits, &mut out);
                out.append(" bit, ");
                push_dec_u128(primes.len() as u128, &mut out);
                out.append(" primes)\n");
                push_hex_field(&mut out, "modulus (n):", n.as_slice());
                push_public_exponent_line(&mut out, e.as_slice());
                push_hex_field(&mut out, "private exponent (d):", d.as_slice());
                proof {
                    assert(primes.deep_view().len() == primes@.len());
                    assert(primes.deep_view()[0] =~= primes@[0]@);
                    assert(primes.deep_view()[1] =~= primes@[1]@);
                }
                push_hex_field(&mut out, "prime1 (p):", primes[0].as_slice());
                push_hex_field(&mut out, "prime2 (q):", primes[1].as_slice());
                match dp {
                    Some(v) => {
                        proof {
                            assert(v.deep_view() =~= v@);
                        }
                        push_hex_field(&mut out, "exponent1 (dp):", v.as_slice());
                    },
                    None => {
                        proof {
                            assert(false);
                        }
                    },
                }
                match dq {
                    Some(v) => {
                        proof {
                            assert(v.deep_view() =~= v@);
                        }
                        push_hex_field(&mut out, "exponent2 (dq):", v.as_slice());
                    },
                    None => {
                        proof {
                            assert(false);
                        }
                    },
                }
                match qinv {
                    Some(v) => {
                        proof {
                            assert(v.deep_view() =~= v@);
                        }
                        push_hex_field(&mut out, "coefficient:", v.as_slice());
                    },
                    None => {
                        proof {
                            assert(false);
                        }
                    },
                }
                assert(out@ =~= key_report_spec(self@));
            },
        }
        out
    }

    /// Runs the one-time precomputation, then renders the full report in the
    /// fixed field order. Fails, printing nothing, exactly when the
    /// precomputation does: a partial report is never produced.
    pub fn format_key(&mut self) -> (r: Result<String, KeyError>)
        requires
            old(self)@.wf(),
        ensures
            final(self)@.wf(),
            match r {
                Ok(s) => {
                    &&& precompute_succeeds(old(self)@)
                    &&& final(self)@ == precomputed_model(old(self)@)
                    &&& s@ == key_report_spec(final(self)@)
                },
                Err(e) => {
                    &&& e == KeyError::PrecomputeFailed
                    &&& !precompute_succeeds(old(self)@)
                    &&& final(self)@ == old(self)@
                },
            },
    {
        match self.precompute() {
            Err(e) => Err(e),
            Ok(_) => Ok(self.format_report()),
        }
    }

    /// The modulus `n`.
    pub fn n(&self) -> (r: &Vec<u8>)
        ensures
            r@ == self@.modulus(),
    {
        match self {
            KeyMaterial::Private { n, .. } => n,
            KeyMaterial::Public { n, .. } => n,
        }
    }

    /// The public exponent `e`.
    pub fn e(&self) -> (r: &Vec<u8>)
        ensures
            r@ == self@.public_exponent(),
    {
        match self {
            KeyMaterial::Private { e, .. } => e,
            KeyMaterial::Public { e, .. } => e,
        }
    }

    /// The private exponent `d`; a public key has none.
    pub fn d(&self) -> (r: Option<&Vec<u8>>)
        ensures
            match self@ {
                KeyModel::Private { parts, .. } => r is Some && r.unwrap()@ == parts.d,
                KeyModel::Public { .. } => r is None,
            },
    {
        match self {
            KeyMaterial::Private { d, .. } => Some(d),
            KeyMaterial::Public { .. } => None,
        }
    }

    /// The ordered prime factors; a public key has none.
    pub fn primes(&self) -> (r: Option<&Vec<Vec<u8>>>)
        ensures
            match self@ {
                KeyModel::Private { parts, .. } => r is Some && r.unwrap().deep_view()
                    == parts.primes,
                KeyModel::Public { .. } => r is None,
            },
    {
        match self {
            KeyMaterial::Private { primes, .. } => Some(primes),
            KeyMaterial::Public { .. } => None,
        }
    }

    /// The first CRT exponent `dp`: absent until precomputation has run.
    pub fn dp(&self) -> (r: Option<&Vec<u8>>)
        ensures
            match self@ {
                KeyModel::Private { dp, .. } => match (r, dp) {
                    (Some(v), Some(s)) => v@ == s,
                    (None, None) => true,
                    _ => false,
                },
                KeyModel::Public { .. } => r is None,
            },
    {
        match self {
            KeyMaterial::Private { dp: Some(v), .. } => {
                proof {
                    assert(v.deep_view() =~= v@);
                }
                Some(v)
            },
            _ => None,
        }
    }

    /// The second CRT exponent `dq`: absent until precomputation has run.
    pub fn dq(&self) -> (r: Option<&Vec<u8>>)
        ensures
            match self@ {
                KeyModel::Private { dq, .. } => match (r, dq) {
                    (Some(v), Some(s)) => v@ == s,
                    (None, None) => true,
                    _ => false,
                },
                KeyModel::Public { .. } => r is None,
            },
    {
        match self {
            KeyMaterial::Private { dq: Some(v), .. } => {
                proof {
                    assert(v.deep_view() =~= v@);
                }
                Some(v)
            },
            _ => None,
        }
    }

    /// The CRT coefficient `q^-1 mod p`: absent until precomputation has
    /// run.
    pub fn crt_coefficient(&self) -> (r: Option<&Vec<u8>>)
        ensures
            match self@ {
                KeyModel::Private { qinv, .. } => match (r, qinv) {
                    (Some(v), Some(s)) => v@ == s,
                    (None, None) => true,
                    _ => false,
                },
                KeyModel::Public { .. } => r is None,
            },
    {
        match self {
            KeyMaterial::Private { qinv: Some(v), .. } => {
                proof {
                    assert(v.deep_view() =~= v@);
                }
                Some(v)
            },
            _ => None,
        }
    }

    /// The public component of this key: the modulus and public exponent,
    /// with everything private left behind.
    pub fn to_public_key(&self) -> (r: KeyMaterial)
        ensures
            r@ == (KeyModel::Public {
                parts: PubParts { n: self@.modulus(), e: self@.public_exponent() },
            }),
    {
        let n = slice_to_vec(self.n().as_slice());
        let e = slice_to_vec(self.e().as_slice());
        KeyMaterial::Public { n, e }
    }
}

/// What encoding a public key as PKCS#1 DER yields: a function of the two
/// components, or nothing when they are rejected.
pub uninterp spec fn pkcs1_der_of(n: Seq<u8>, e: Seq<u8>) -> Option<Seq<u8>>;

/// What encoding a public key as PKCS#1 PEM (with `\n` line endings) yields:
/// a function of the two components, or nothing when they are rejected.
pub uninterp spec fn pkcs1_pem_of(n: Seq<u8>, e: Seq<u8>) -> Option<Seq<char>>;

/// Relies on `rsa::RsaPublicKey::new_unchecked` and
/// `rsa::pkcs1::EncodeRsaPublicKey::to_pkcs1_der`: the DER encoding of a
/// public key depends on its two components alone, and fails exactly when
/// the serializer rejects them. The unchecked constructor only stores the
/// components, so no size cap is imposed here: the public part of any key
/// that parsed can be exported.
#[verifier::external_body]
fn encode_public_pkcs1_der(n: &Vec<u8>, e: &Vec<u8>) -> (r: Option<Vec<u8>>)
    ensures
        match r {
            Some(v) => pkcs1_der_of(n@, e@) == Some(v@),
            None => pkcs1_der_of(n@, e@) is None,
        },
{
    let key = rsa::RsaPublicKey::new_unchecked(
        rsa::BigUint::from_bytes_be(n),
        rsa::BigUint::from_bytes_be(e),
    );
    let doc = rsa::pkcs1::EncodeRsaPublicKey::to_pkcs1_der(&key).ok()?;
    Some(doc.as_bytes().to_vec())
}

/// Relies on `rsa::RsaPublicKey::new_unchecked` and
/// `rsa::pkcs1::EncodeRsaPublicKey::to_pkcs1_pem` with `\n` line endings:
/// the PEM encoding of a public key depends on its two components alone, and
/// fails exactly when the serializer rejects them. As with the DER encoder,
/// no size cap is imposed.
#[verifier::external_body]
fn encode_public_pkcs1_pem(n: &Vec<u8>, e: &Vec<u8>) -> (r: Option<String>)
    ensures
        match r {
            Some(v) => pkcs1_pem_of(n@, e@) == Some(v@),
            None => pkcs1_pem_of(n@, e@) is None,
        },
{
    let key = rsa::RsaPublicKey::new_unchecked(
        rsa::BigUint::from_bytes_be(n),
        rsa::BigUint::from_bytes_be(e),
    );
    let pem = rsa::pkcs1::EncodeRsaPublicKey::to_pkcs1_pem(&key, rsa::pkcs8::LineEnding::LF).ok()?;
    Some(pem)
}

impl KeyMaterial {
    /// The PKCS#1 DER encoding of this key's public component.
    pub fn export_public_pkcs1_der(&self) -> (r: Option<Vec<u8>>)
        ensures
            match r {
                Some(v) => pkcs1_der_of(self@.modulus(), self@.public_exponent()) == Some(v@),
                None => pkcs1_der_of(self@.modulus(), self@.public_exponent()) is None,
            },
    {
        encode_public_pkcs1_der(self.n(), self.e())
    }

    /// The PKCS#1 PEM encoding of this key's public component.
    pub fn export_public_pkcs1_pem(&self) -> (r: Option<String>)
        ensures
            match r {
                Some(v) => pkcs1_pem_of(self@.modulus(), self@.public_exponent()) == Some(v@),
                None => pkcs1_pem_of(self@.modulus(), self@.public_exponent()) is None,
            },
    {
        encode_public_pkcs1_pem(self.n(), self.e())
    }
}

/// The key size a generation request resolves to: the default of 2048 bits
/// when none was asked for, the requested size when it is one of the
/// supported ones, nothing otherwise.
pub fn resolve_key_size(requested: Option<u16>) -> (r: Option<u16>)
    ensures
        match requested {
            None => r == Some(2048u16),
            Some(s) => if s == 512 || s == 1024 || s == 2048 || s == 4096 {
                r == Some(s)
            } else {
                r is None
            },
        },
{
    match requested {
        None => Some(2048),
        Some(s) => if s == 512 || s == 1024 || s == 2048 || s == 4096 {
            Some(s)
        } else {
            None
        },
    }
}

} // verus!
