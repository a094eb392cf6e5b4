use keytool::certinfo::{
    certificate_fields, certificate_output_paths, certificate_report, certificate_summary,
    format_version,
};

#[test]
fn known_versions_display_by_name() {
    assert_eq!(format_version(0), "V1");
    assert_eq!(format_version(1), "V2");
    assert_eq!(format_version(2), "V3");
}

#[test]
fn unknown_version_displays_raw_number() {
    assert_eq!(format_version(7), "X509Version(7 / 0x7)");
    assert_eq!(format_version(255), "X509Version(255 / 0xff)");
}

#[test]
fn report_layout_is_exact() {
    let got = certificate_report(2, &[0x0c, 0xa1], "1.2.840.113549.1.1.11");
    assert_eq!(
        got,
        "Version: V3\nSerial number:\n\t0c:a1\nSignature Algorithm: sha256WithRSAEncryption\n"
    );
}

#[test]
fn report_passes_unknown_algorithm_through() {
    let got = certificate_report(0, &[1], "9.9.9.9");
    assert_eq!(got, "Version: V1\nSerial number:\n\t01\nSignature Algorithm: 9.9.9.9\n");
}

#[test]
fn output_paths_take_the_domain_name() {
    let (crt, key) = certificate_output_paths("example.org");
    assert_eq!(crt, "example.org.crt");
    assert_eq!(key, "example.org.key");
}

#[test]
fn self_signed_certificate_parses_and_summarizes() {
    let key_pair = rcgen::KeyPair::generate().unwrap();
    let params = rcgen::CertificateParams::new(vec!["example.org".to_string()]).unwrap();
    let cert = params.self_signed(&key_pair).unwrap();
    let pem = cert.pem();

    let fields = certificate_fields(pem.as_bytes()).unwrap();
    assert_eq!(fields.0, 2);
    assert_eq!(fields.2, "1.2.840.10045.4.3.2");

    let summary = certificate_summary(pem.as_bytes()).unwrap();
    assert!(summary.starts_with("Version: V3\nSerial number:\n\t"));
    assert!(summary.ends_with("Signature Algorithm: ecdsa-with-SHA256\n"));
}

#[test]
fn junk_bytes_yield_no_summary() {
    assert!(certificate_summary(b"not a certificate").is_none());
    assert!(certificate_fields(&[0x30, 0x82, 0xff]).is_none());
}
