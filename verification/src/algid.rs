//! The registry of signature-algorithm names: a fixed mapping from
//! dotted-decimal object identifiers to the names certificate tools print.
//! An identifier outside the table passes through verbatim; the lookup never
//! fails.

use vstd::prelude::*;
use vstd::string::StringExecFns;
use crate::text::str_eq;

verus! {

/// The name the registry gives to a dotted-decimal object identifier; an
/// unknown identifier is echoed back unchanged.
pub open spec fn algorithm_name_spec(oid: Seq<char>) -> Seq<char> {
    if oid == "1.2.840.113549.1.1.4"@ {
        "md5WithRSAEncryption"@
    } else if oid == "1.2.840.113549.1.1.5"@ {
        "sha1WithRSAEncryption"@
    } else if oid == "1.2.840.113549.1.1.11"@ {
        "sha256WithRSAEncryption"@
    } else if oid == "1.2.840.113549.1.1.12"@ {
        "sha384WithRSAEncryption"@
    } else if oid == "1.2.840.113549.1.1.13"@ {
        "sha512WithRSAEncryption"@
    } else if oid == "1.2.840.113549.1.1.14"@ {
        "sha224WithRSAEncryption"@
    } else if oid == "1.2.840.113549.1.1.10"@ {
        "rsassaPss"@
    } else if oid == "1.2.840.10045.4.1"@ {
        "ecdsa-with-SHA1"@
    } else if oid == "1.2.840.10045.4.3.1"@ {
        "ecdsa-with-SHA224"@
    } else if oid == "1.2.840.10045.4.3.2"@ {
        "ecdsa-with-SHA256"@
    } else if oid == "1.2.840.10045.4.3.3"@ {
        "ecdsa-with-SHA384"@
    } else if oid == "1.2.840.10045.4.3.4"@ {
        "ecdsa-with-SHA512"@
    } else if oid == "1.3.101.112"@ {
        "Ed25519"@
    } else if oid == "1.3.101.113"@ {
        "Ed448"@
    } else if oid == "1.2.840.10040.4.3"@ {
        "dsa-with-sha1"@
    } else if oid == "2.16.840.1.101.3.4.3.2"@ {
        "dsa-with-sha256"@
    } else {
        oid
    }
}

/// Resolves a dotted-decimal object identifier to its signature-algorithm
/// name, echoing an unknown identifier back unchanged.
pub fn name_for(oid: &str) -> (r: String)
    ensures
        r@ == algorithm_name_spec(oid@),
{
    if str_eq(oid, "1.2.840.113549.1.1.4") {
        "md5WithRSAEncryption".to_owned()
    } else if str_eq(oid, "1.2.840.113549.1.1.5") {
        "sha1WithRSAEncryption".to_owned()
    } else if str_eq(oid, "1.2.840.113549.1.1.11") {
        "sha256WithRSAEncryption".to_owned()
    } else if str_eq(oid, "1.2.840.113549.1.1.12") {
        "sha384WithRSAEncryption".to_owned()
    } else if str_eq(oid, "1.2.840.113549.1.1.13") {
        "sha512WithRSAEncryption".to_owned()
    } else if str_eq(oid, "1.2.840.113549.1.1.14") {
        "sha224WithRSAEncryption".to_owned()
    } else if str_eq(oid, "1.2.840.113549.1.1.10") {
        "rsassaPss".to_owned()
    } else if str_eq(oid, "1.2.840.10045.4.1") {
        "ecdsa-with-SHA1".to_owned()
    } else if str_eq(oid, "1.2.840.10045.4.3.1") {
        "ecdsa-with-SHA224".to_owned()
    } else if str_eq(oid, "1.2.840.10045.4.3.2") {
        "ecdsa-with-SHA256".to_owned()
    } else if str_eq(oid, "1.2.840.10045.4.3.3") {
        "ecdsa-with-SHA384".to_owned()
    } else if str_eq(oid, "1.2.840.10045.4.3.4") {
        "ecdsa-with-SHA512".to_owned()
    } else if str_eq(oid, "1.3.101.112") {
        "Ed25519".to_owned()
    } else if str_eq(oid, "1.3.101.113") {
        "Ed448".to_owned()
    } else if str_eq(oid, "1.2.840.10040.4.3") {
        "dsa-with-sha1".to_owned()
    } else if str_eq(oid, "2.16.840.1.101.3.4.3.2") {
        "dsa-with-sha256".to_owned()
    } else {
        oid.to_owned()
    }
}

} // verus!
