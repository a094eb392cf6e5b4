//! The format-detection cascade: a strict, ordered walk over the eight
//! recognized key encodings. The first reading that parses wins and no later
//! candidate is attempted; every DER reading is tried before the bytes are
//! reinterpreted as text, and within each family the private readings come
//! before the public ones.

use vstd::prelude::*;
use vstd::utf8::{decode_utf8, valid_utf8};
use rsa::pkcs1::{DecodeRsaPrivateKey as _, DecodeRsaPublicKey as _};
use rsa::pkcs8::{DecodePrivateKey as _, DecodePublicKey as _};
use rsa::traits::{PrivateKeyParts as _, PublicKeyParts as _};
use crate::KeyError;
use crate::keymat::{
    key_report_spec, precompute_succeeds, precomputed_model, KeyMaterial, KeyModel, PrivParts,
    PubParts,
};

verus! {

/// The eight recognized encodings, the cascade's classification result.
#[derive(Clone, Copy, Debug, PartialEq, Eq, Structural)]
pub enum EncodingGuess {
    DerPkcs1Private,
    DerPkcs8Private,
    DerPkcs1Public,
    DerSpkiPublic,
    PemPkcs1Private,
    PemPkcs8Private,
    PemPkcs1Public,
    PemSpkiPublic,
}

/// The numeric components of a freshly parsed private key.
pub struct PrivateComponents {
    pub n: Vec<u8>,
    pub e: Vec<u8>,
    pub d: Vec<u8>,
    pub primes: Vec<Vec<u8>>,
}

impl View for PrivateComponents {
    type V = PrivParts;

    open spec fn view(&self) -> PrivParts {
        PrivParts { n: self.n@, e: self.e@, d: self.d@, primes: self.primes.deep_view() }
    }
}

/// The numeric components of a freshly parsed public key.
pub struct PublicComponents {
    pub n: Vec<u8>,
    pub e: Vec<u8>,
}

impl View for PublicComponents {
    type V = PubParts;

    open spec fn view(&self) -> PubParts {
        PubParts { n: self.n@, e: self.e@ }
    }
}

/// What reading the bytes as a PKCS#1 DER private key yields.
pub uninterp spec fn pkcs1_private_der(bytes: Seq<u8>) -> Option<PrivParts>;

/// What reading the bytes as a PKCS#8 DER private key yields.
pub uninterp spec fn pkcs8_private_der(bytes: Seq<u8>) -> Option<PrivParts>;

/// What reading the bytes as a PKCS#1 DER public key yields.
pub uninterp spec fn pkcs1_public_der(bytes: Seq<u8>) -> Option<PubParts>;

/// What reading the bytes as an SPKI DER public key yields.
pub uninterp spec fn spki_public_der(bytes: Seq<u8>) -> Option<PubParts>;

/// What reading the text as a PKCS#1 PEM private key yields.
pub uninterp spec fn pkcs1_private_pem(text: Seq<char>) -> Option<PrivParts>;

/// What reading the text as a PKCS#8 PEM private key yields.
pub uninterp spec fn pkcs8_private_pem(text: Seq<char>) -> Option<PrivParts>;

/// What reading the text as a PKCS#1 PEM public key yields.
pub uninterp spec fn pkcs1_public_pem(text: Seq<char>) -> Option<PubParts>;

/// What reading the text as an SPKI PEM public key yields.
pub uninterp spec fn spki_public_pem(text: Seq<char>) -> Option<PubParts>;

/// Relies on `rsa::RsaPrivateKey::from_pkcs1_der` and the component
/// accessors of `rsa::traits`: whether the bytes parse, and the components
/// they parse to, depend on the bytes alone.
#[verifier::external_body]
fn parse_pkcs1_private_der(bytes: &[u8]) -> (r: Option<PrivateComponents>)
    ensures
        match r {
            Some(c) => pkcs1_private_der(bytes@) == Some(c@),
            None => pkcs1_private_der(bytes@) is None,
        },
{
    match rsa::RsaPrivateKey::from_pkcs1_der(bytes) {
        Ok(k) => Some(PrivateComponents {
            n: k.n().to_bytes_be(),
            e: k.e().to_bytes_be(),
            d: k.d().to_bytes_be(),
            primes: k.primes().iter().map(|p| p.to_bytes_be()).collect(),
        }),
        Err(_) => None,
    }
}

/// Relies on `rsa::RsaPrivateKey::from_pkcs8_der` and the component
/// accessors of `rsa::traits`: the parse result depends on the bytes alone.
#[verifier::external_body]
fn parse_pkcs8_private_der(bytes: &[u8]) -> (r: Option<PrivateComponents>)
    ensures
        match r {
            Some(c) => pkcs8_private_der(bytes@) == Some(c@),
            None => pkcs8_private_der(bytes@) is None,
        },
{
    match rsa::RsaPrivateKey::from_pkcs8_der(bytes) {
        Ok(k) => Some(PrivateComponents {
            n: k.n().to_bytes_be(),
            e: k.e().to_bytes_be(),
            d: k.d().to_bytes_be(),
            primes: k.primes().iter().map(|p| p.to_bytes_be()).collect(),
        }),
        Err(_) => None,
    }
}

/// Relies on `rsa::RsaPublicKey::from_pkcs1_der` and the component accessors
/// of `rsa::traits`: the parse result depends on the bytes alone.
#[verifier::external_body]
fn parse_pkcs1_public_der(bytes: &[u8]) -> (r: Option<PublicComponents>)
    ensures
        match r {
            Some(c) => pkcs1_public_der(bytes@) == Some(c@),
            None => pkcs1_public_der(bytes@) is None,
        },
{
    match rsa::RsaPublicKey::from_pkcs1_der(bytes) {
        Ok(k) => Some(PublicComponents { n: k.n().to_bytes_be(), e: k.e().to_bytes_be() }),
        Err(_) => None,
    }
}

/// Relies on `rsa::RsaPublicKey::from_public_key_der` and the component
/// accessors of `rsa::traits`: the parse result depends on the bytes alone.
#[verifier::external_body]
fn parse_spki_public_der(bytes: &[u8]) -> (r: Option<PublicComponents>)
    ensures
        match r {
            Some(c) => spki_public_der(bytes@) == Some(c@),
            None => spki_public_der(bytes@) is None,
        },
{
    match rsa::RsaPublicKey::from_public_key_der(bytes) {
        Ok(k) => Some(PublicComponents { n: k.n().to_bytes_be(), e: k.e().to_bytes_be() }),
        Err(_) => None,
    }
}

/// Relies on `rsa::RsaPrivateKey::from_pkcs1_pem` and the component
/// accessors of `rsa::traits`: the parse result depends on the text alone.
#[verifier::external_body]
fn parse_pkcs1_private_pem(text: &str) -> (r: Option<PrivateComponents>)
    ensures
        match r {
            Some(c) => pkcs1_private_pem(text@) == Some(c@),
            None => pkcs1_private_pem(text@) is None,
        },
{
    match rsa::RsaPrivateKey::from_pkcs1_pem(text) {
        Ok(k) => Some(PrivateComponents {
            n: k.n().to_bytes_be(),
            e: k.e().to_bytes_be(),
            d: k.d().to_bytes_be(),
            primes: k.primes().iter().map(|p| p.to_bytes_be()).collect(),
        }),
        Err(_) => None,
    }
}

/// Relies on `rsa::RsaPrivateKey::from_pkcs8_pem` and the component
/// accessors of `rsa::traits`: the parse result depends on the text alone.
#[verifier::external_body]
fn parse_pkcs8_private_pem(text: &str) -> (r: Option<PrivateComponents>)
    ensures
        match r {
            Some(c) => pkcs8_private_pem(text@) == Some(c@),
            None => pkcs8_private_pem(text@) is None,
        },
{
    match rsa::RsaPrivateKey::from_pkcs8_pem(text) {
        Ok(k) => Some(PrivateComponents {
            n: k.n().to_bytes_be(),
            e: k.e().to_bytes_be(),
            d: k.d().to_bytes_be(),
            primes: k.primes().iter().map(|p| p.to_bytes_be()).collect(),
        }),
        Err(_) => None,
    }
}

/// Relies on `rsa::RsaPublicKey::from_pkcs1_pem` and the component accessors
/// of `rsa::traits`: the parse result depends on the text alone.
#[verifier::external_body]
fn parse_pkcs1_public_pem(text: &str) -> (r: Option<PublicComponents>)
    ensures
        match r {
            Some(c) => pkcs1_public_pem(text@) == Some(c@),
            None => pkcs1_public_pem(text@) is None,
        },
{
    match rsa::RsaPublicKey::from_pkcs1_pem(text) {
        Ok(k) => Some(PublicComponents { n: k.n().to_bytes_be(), e: k.e().to_bytes_be() }),
        Err(_) => None,
    }
}

/// Relies on `rsa::RsaPublicKey::from_public_key_pem` and the component
/// accessors of `rsa::traits`: the parse result depends on the text alone.
#[verifier::external_body]
fn parse_spki_public_pem(text: &str) -> (r: Option<PublicComponents>)
    ensures
        match r {
            Some(c) => spki_public_pem(text@) == Some(c@),
            None => spki_public_pem(text@) is None,
        },
{
    match rsa::RsaPublicKey::from_public_key_pem(text) {
        Ok(k) => Some(PublicComponents { n: k.n().to_bytes_be(), e: k.e().to_bytes_be() }),
        Err(_) => None,
    }
}

/// Relies on `core::str::from_utf8`: it succeeds exactly on valid UTF-8 and
/// decodes the bytes to their characters.
#[verifier::external_body]
fn utf8_text(bytes: &[u8]) -> (r: Option<String>)
    ensures
        match r {
            Some(s) => valid_utf8(bytes@) && s@ == decode_utf8(bytes@),
            None => !valid_utf8(bytes@),
        },
{
    match core::str::from_utf8(bytes) {
        Ok(s) => Some(s.to_owned()),
        Err(_) => None,
    }
}

/// A freshly parsed private key, its CRT values not yet derived.
pub open spec fn private_model(p: PrivParts) -> KeyModel {
    KeyModel::Private { parts: p, dp: None, dq: None, qinv: None }
}

/// A freshly parsed public key.
pub open spec fn public_model(p: PubParts) -> KeyModel {
    KeyModel::Public { parts: p }
}

/// The PEM half of the cascade, walked only after every DER reading failed
/// and the bytes decoded as text: PKCS#1 private, PKCS#8 private, PKCS#1
/// public, SPKI public, in that order.
pub open spec fn pem_detect_spec(text: Seq<char>) -> Result<(EncodingGuess, KeyModel), KeyError> {
    match pkcs1_private_pem(text) {
        Some(p) => Ok((EncodingGuess::PemPkcs1Private, private_model(p))),
        None => match pkcs8_private_pem(text) {
            Some(p) => Ok((EncodingGuess::PemPkcs8Private, private_model(p))),
            None => match pkcs1_public_pem(text) {
                Some(p) => Ok((EncodingGuess::PemPkcs1Public, public_model(p))),
                None => match spki_public_pem(text) {
                    Some(p) => Ok((EncodingGuess::PemSpkiPublic, public_model(p))),
                    None => Err(KeyError::NoFormatMatched),
                },
            },
        },
    }
}

/// The full cascade: the four DER readings in order, then — only if the
/// bytes are valid UTF-8 — the four PEM readings; bytes that fail every DER
/// reading and are not text fail with the distinct UTF-8 error.
pub open spec fn detect_spec(bytes: Seq<u8>) -> Result<(EncodingGuess, KeyModel), KeyError> {
    match pkcs1_private_der(bytes) {
        Some(p) => Ok((EncodingGuess::DerPkcs1Private, private_model(p))),
        None => match pkcs8_private_der(bytes) {
            Some(p) => Ok((EncodingGuess::DerPkcs8Private, private_model(p))),
            None => match pkcs1_public_der(bytes) {
                Some(p) => Ok((EncodingGuess::DerPkcs1Public, public_model(p))),
                None => match spki_public_der(bytes) {
                    Some(p) => Ok((EncodingGuess::DerSpkiPublic, public_model(p))),
                    None => if !valid_utf8(bytes) {
                        Err(KeyError::InvalidUtf8)
                    } else {
                        pem_detect_spec(decode_utf8(bytes))
                    },
                },
            },
        },
    }
}

/// A successful detection: which of the eight encodings matched, and the key
/// parsed from it.
#[derive(Debug)]
pub struct Detection {
    pub encoding: EncodingGuess,
    pub key: KeyMaterial,
}

/// Builds private key material from freshly parsed components.
fn private_key_from(c: PrivateComponents) -> (r: KeyMaterial)
    ensures
        r@ == private_model(c@),
        r@.wf(),
{
    let PrivateComponents { n, e, d, primes } = c;
    KeyMaterial::Private { n, e, d, primes, dp: None, dq: None, qinv: None }
}

/// Builds public key material from freshly parsed components.
fn public_key_from(c: PublicComponents) -> (r: KeyMaterial)
    ensures
        r@ == public_model(c@),
        r@.wf(),
{
    let PublicComponents { n, e } = c;
    KeyMaterial::Public { n, e }
}

/// Determines which of the eight encodings the bytes hold, walking the
/// cascade in its fixed order, and returns the parsed key. Pure over the
/// input bytes; the per-candidate parse failures are discarded by design and
/// only the final outcome is reported.
pub fn detect(bytes: &[u8]) -> (r: Result<Detection, KeyError>)
    ensures
        match r {
            Ok(d) => detect_spec(bytes@) == Ok::<(EncodingGuess, KeyModel), KeyError>(
                (d.encoding, d.key@),
            ) && d.key@.wf(),
            Err(e) => detect_spec(bytes@) == Err::<(EncodingGuess, KeyModel), KeyError>(e),
        },
{
    if let Some(c) = parse_pkcs1_private_der(bytes) {
        return Ok(Detection { encoding: EncodingGuess::DerPkcs1Private, key: private_key_from(c) });
    }
    if let Some(c) = parse_pkcs8_private_der(bytes) {
        return Ok(Detection { encoding: EncodingGuess::DerPkcs8Private, key: private_key_from(c) });
    }
    if let Some(c) = parse_pkcs1_public_der(bytes) {
        return Ok(Detection { encoding: EncodingGuess::DerPkcs1Public, key: public_key_from(c) });
    }
    if let Some(c) = parse_spki_public_der(bytes) {
        return Ok(Detection { encoding: EncodingGuess::DerSpkiPublic, key: public_key_from(c) });
    }
    let text = match utf8_text(bytes) {
        Some(t) => t,
        None => {
            return Err(KeyError::InvalidUtf8);
        },
    };
    if let Some(c) = parse_pkcs1_private_pem(text.as_str()) {
        return Ok(Detection { encoding: EncodingGuess::PemPkcs1Private, key: private_key_from(c) });
    }
    if let Some(c) = parse_pkcs8_private_pem(text.as_str()) {
        return Ok(Detection { encoding: EncodingGuess::PemPkcs8Private, key: private_key_from(c) });
    }
    if let Some(c) = parse_pkcs1_public_pem(text.as_str()) {
        return Ok(Detection { encoding: EncodingGuess::PemPkcs1Public, key: public_key_from(c) });
    }
    if let Some(c) = parse_spki_public_pem(text.as_str()) {
        return Ok(Detection { encoding: EncodingGuess::PemSpkiPublic, key: public_key_from(c) });
    }
    Err(KeyError::NoFormatMatched)
}

/// Inspects raw key bytes end to end: detects which encoding they hold,
/// derives a private key's CRT values, and renders the canonical report.
/// Fails with the detection error when no encoding matches, and with the
/// precomputation error — never a partial report — when the CRT derivation
/// fails.
pub fn inspect_key(bytes: &[u8]) -> (r: Result<String, KeyError>)
    ensures
        match detect_spec(bytes@) {
            Err(e) => r == Err::<String, KeyError>(e),
            Ok((g, m)) => if precompute_succeeds(m) {
                match r {
                    Ok(s) => s@ == key_report_spec(precomputed_model(m)),
                    Err(_) => false,
                }
            } else {
                r == Err::<String, KeyError>(KeyError::PrecomputeFailed)
            },
        },
{
    match detect(bytes) {
        Err(e) => Err(e),
        Ok(d) => {
            let mut key = d.key;
            key.format_key()
        },
    }
}

/// The cascade order is a contract: bytes that parse as a PKCS#1 DER private
/// key are classified as exactly that, whatever any later reading — in
/// particular the PKCS#8 one — would have said of them.
pub proof fn lemma_cascade_prefers_pkcs1_private_der(bytes: Seq<u8>, p: PrivParts)
    requires
        pkcs1_private_der(bytes) == Some(p),
    ensures
        detect_spec(bytes) == Ok::<(EncodingGuess, KeyModel), KeyError>(
            (EncodingGuess::DerPkcs1Private, private_model(p)),
        ),
{
}

/// Every DER reading precedes every PEM reading: when any DER reading
/// succeeds, the classification is a DER encoding, whatever the text would
/// have parsed as.
pub proof fn lemma_der_precedes_pem(bytes: Seq<u8>)
    requires
        pkcs1_private_der(bytes) is Some || pkcs8_private_der(bytes) is Some || pkcs1_public_der(
            bytes,
        ) is Some || spki_public_der(bytes) is Some,
    ensures
        detect_spec(bytes) is Ok,
        (match detect_spec(bytes) {
            Ok((g, _)) => g == EncodingGuess::DerPkcs1Private || g == EncodingGuess::DerPkcs8Private
                || g == EncodingGuess::DerPkcs1Public || g == EncodingGuess::DerSpkiPublic,
            Err(_) => false,
        }),
{
}

} // verus!
