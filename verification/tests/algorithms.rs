use keytool::algid::name_for;

#[test]
fn sha256_with_rsa_resolves() {
    assert_eq!(name_for("1.2.840.113549.1.1.11"), "sha256WithRSAEncryption");
}

#[test]
fn unknown_identifier_passes_through_verbatim() {
    assert_eq!(name_for("9.9.9.9"), "9.9.9.9");
    assert_eq!(name_for(""), "");
    assert_eq!(name_for("1.2.840.113549.1.1"), "1.2.840.113549.1.1");
}

#[test]
fn rsa_family_resolves() {
    assert_eq!(name_for("1.2.840.113549.1.1.4"), "md5WithRSAEncryption");
    assert_eq!(name_for("1.2.840.113549.1.1.5"), "sha1WithRSAEncryption");
    assert_eq!(name_for("1.2.840.113549.1.1.12"), "sha384WithRSAEncryption");
    assert_eq!(name_for("1.2.840.113549.1.1.13"), "sha512WithRSAEncryption");
    assert_eq!(name_for("1.2.840.113549.1.1.14"), "sha224WithRSAEncryption");
    assert_eq!(name_for("1.2.840.113549.1.1.10"), "rsassaPss");
}

#[test]
fn ecdsa_family_resolves() {
    assert_eq!(name_for("1.2.840.10045.4.1"), "ecdsa-with-SHA1");
    assert_eq!(name_for("1.2.840.10045.4.3.1"), "ecdsa-with-SHA224");
    assert_eq!(name_for("1.2.840.10045.4.3.2"), "ecdsa-with-SHA256");
    assert_eq!(name_for("1.2.840.10045.4.3.3"), "ecdsa-with-SHA384");
    assert_eq!(name_for("1.2.840.10045.4.3.4"), "ecdsa-with-SHA512");
}

#[test]
fn eddsa_and_dsa_resolve() {
    assert_eq!(name_for("1.3.101.112"), "Ed25519");
    assert_eq!(name_for("1.3.101.113"), "Ed448");
    assert_eq!(name_for("1.2.840.10040.4.3"), "dsa-with-sha1");
    assert_eq!(name_for("2.16.840.1.101.3.4.3.2"), "dsa-with-sha256");
}
