//! The certificate summary: the version, serial number and
//! signature-algorithm fields a certificate read prints. The structural
//! parsing of the certificate itself is an outside collaborator; this module
//! post-processes the fields it yields.

use vstd::prelude::*;
use vstd::string::StringExecFns;
use crate::algid::{algorithm_name_spec, name_for};
use crate::bignum::{dec_digits_of, hex_digits_of, normalize_spec, push_dec_u128, push_hex_u128};
use crate::hexfmt::{format_serial, hex_block};

verus! {

/// What parsing PEM certificate bytes yields: the version number, the serial
/// number's big-endian bytes and the dotted-decimal signature-algorithm
/// identifier, or nothing when the bytes do not parse. The result depends on
/// the bytes alone.
pub uninterp spec fn cert_fields(bytes: Seq<u8>) -> Option<(u32, Seq<u8>, Seq<char>)>;

/// Relies on `x509_parser::pem::parse_x509_pem` and `Pem::parse_x509`, the
/// `version` accessor, the `serial` field (via `to_bytes_be`) and
/// `Oid::to_id_string`: the parsed fields depend on the bytes alone.
#[verifier::external_body]
fn parse_certificate(bytes: &[u8]) -> (r: Option<(u32, Vec<u8>, String)>)
    ensures
        match r {
            Some(t) => cert_fields(bytes@) == Some((t.0, t.1@, t.2@)),
            None => cert_fields(bytes@) is None,
        },
{
    match x509_parser::pem::parse_x509_pem(bytes) {
        Ok((_, pem)) => match pem.parse_x509() {
            Ok(c) => Some((
                c.version().0,
                c.serial.to_bytes_be(),
                c.signature_algorithm.algorithm.to_id_string(),
            )),
            Err(_) => None,
        },
        Err(_) => None,
    }
}

/// The text a certificate version number displays as: `V1`, `V2` or `V3`
/// for the known numbers, otherwise the type name with the raw number in
/// decimal and hex.
pub open spec fn version_text(v: u32) -> Seq<char> {
    if v == 0 {
        "V1"@
    } else if v == 1 {
        "V2"@
    } else if v == 2 {
        "V3"@
    } else {
        "X509Version("@ + dec_digits_of(v as nat) + " / 0x"@ + hex_digits_of(v as nat) + ")"@
    }
}

/// Renders a certificate version number.
pub fn format_version(v: u32) -> (r: String)
    ensures
        r@ == version_text(v),
{
    if v == 0 {
        "V1".to_owned()
    } else if v == 1 {
        "V2".to_owned()
    } else if v == 2 {
        "V3".to_owned()
    } else {
        let mut out = "X509Version(".to_owned();
        push_dec_u128(v as u128, &mut out);
        out.append(" / 0x");
        push_hex_u128(v as u128, &mut out);
        out.append(")");
        assert(out@ =~= version_text(v));
        out
    }
}

/// The printed certificate summary: the version line, the serial number as
/// single-line hex groups behind a tab, and the resolved signature-algorithm
/// name.
pub open spec fn certificate_report_spec(version: u32, serial: Seq<u8>, oid: Seq<char>) -> Seq<
    char,
> {
    "Version: "@ + version_text(version) + "\nSerial number:\n\t"@ + hex_block(
        normalize_spec(serial),
        false,
    ) + "\nSignature Algorithm: "@ + algorithm_name_spec(oid) + "\n"@
}

/// Renders the certificate summary from its parsed fields.
pub fn certificate_report(version: u32, serial: &[u8], oid: &str) -> (r: String)
    ensures
        r@ == certificate_report_spec(version, serial@, oid@),
{
    let mut out = "Version: ".to_owned();
    let v = format_version(version);
    out.append(v.as_str());
    out.append("\nSerial number:\n\t");
    let s = format_serial(serial);
    out.append(s.as_str());
    out.append("\nSignature Algorithm: ");
    let a = name_for(oid);
    out.append(a.as_str());
    out.append("\n");
    assert(out@ =~= certificate_report_spec(version, serial@, oid@));
    out
}

/// The parsed fields of a PEM certificate: version number, serial bytes and
/// signature-algorithm identifier.
pub fn certificate_fields(bytes: &[u8]) -> (r: Option<(u32, Vec<u8>, String)>)
    ensures
        match r {
            Some(t) => cert_fields(bytes@) == Some((t.0, t.1@, t.2@)),
            None => cert_fields(bytes@) is None,
        },
{
    parse_certificate(bytes)
}

/// Reads certificate bytes and renders their summary; nothing is rendered
/// when the bytes do not parse as a PEM certificate.
pub fn certificate_summary(bytes: &[u8]) -> (r: Option<String>)
    ensures
        match r {
            Some(s) => match cert_fields(bytes@) {
                Some(t) => s@ == certificate_report_spec(t.0, t.1, t.2),
                None => false,
            },
            None => cert_fields(bytes@) is None,
        },
{
    match parse_certificate(bytes) {
        Some(t) => Some(certificate_report(t.0, t.1.as_slice(), t.2.as_str())),
        None => None,
    }
}

/// The paths a freshly issued certificate's files take: the domain name with
/// the certificate and key suffixes.
pub fn certificate_output_paths(domain: &str) -> (r: (String, String))
    ensures
        r.0@ == domain@ + ".crt"@,
        r.1@ == domain@ + ".key"@,
{
    let mut crt = domain.to_owned();
    crt.append(".crt");
    let mut key = domain.to_owned();
    key.append(".key");
    (crt, key)
}

} // verus!
