use microtak_server::app::{open_authority, server_identity, CaStart};
use microtak_server::pki::{
    build_csr, build_csr_with_san, can_issue, can_write, can_write_subject, cert_pem_to_der,
    common_name_from_cert_der, common_name_of, fingerprint_sha256_colon_hex, read_common_name,
    AltName, Attribute, AttributeKind, CertificateAuthority, PkiError, RawAttribute,
    RequestContent, SubjectName,
};
use rcgen::{CertificateParams, DnType, KeyPair};
use x509_parser::prelude::{FromDer, X509Certificate};

const NOW: i64 = 1_790_000_000;
const YEAR: i64 = 365 * 24 * 60 * 60;

fn test_ca() -> CertificateAuthority {
    match CertificateAuthority::generate("EdgeTAK Test CA", NOW) {
        Ok(ca) => ca,
        Err(error) => panic!("{}", error.message()),
    }
}

#[test]
fn generates_a_self_signed_ca() {
    let ca = test_ca();
    assert!(ca.ca_cert_pem().contains("BEGIN CERTIFICATE"));
    assert!(ca.ca_key_pem().contains("PRIVATE KEY"));
}

#[test]
fn signs_a_valid_csr() {
    let ca = test_ca();
    let (csr_pem, _key) = build_csr("device-alpha").unwrap();

    let signed = ca.sign_csr(&csr_pem, YEAR, NOW).unwrap();
    assert_eq!(signed.common_name, "device-alpha");
    assert!(signed.cert_pem.contains("BEGIN CERTIFICATE"));
}

#[test]
fn tc_enroll_06_rejects_malformed_csr() {
    let ca = test_ca();
    let result = ca.sign_csr("not a csr at all", YEAR, NOW);
    assert!(matches!(result, Err(PkiError::CsrParse(_))));
    assert!(result.unwrap_err().message().starts_with("failed to parse CSR: "));
}

#[test]
fn signing_two_csrs_produces_different_certificates() {
    let ca = test_ca();
    let (csr_a, _key_a) = build_csr("device-a").unwrap();
    let (csr_b, _key_b) = build_csr("device-b").unwrap();

    let signed_a = ca.sign_csr(&csr_a, YEAR, NOW).unwrap();
    let signed_b = ca.sign_csr(&csr_b, YEAR, NOW).unwrap();

    assert_ne!(signed_a.cert_pem, signed_b.cert_pem);
    assert_eq!(signed_a.common_name, "device-a");
    assert_eq!(signed_b.common_name, "device-b");
}

#[test]
fn ca_survives_a_reload_round_trip_and_can_still_sign() {
    let ca = test_ca();
    let cert_pem = ca.ca_cert_pem();
    let key_pem = ca.ca_key_pem();

    let reloaded = match CertificateAuthority::from_pem(&cert_pem, &key_pem) {
        Ok(ca) => ca,
        Err(error) => panic!("{}", error.message()),
    };
    assert_eq!(reloaded.ca_cert_pem(), cert_pem);
    assert_eq!(reloaded.ca_key_pem(), key_pem);

    let (csr_pem, _key) = build_csr("device-after-reload").unwrap();
    let signed = reloaded
        .sign_csr(&csr_pem, YEAR, NOW)
        .expect("reloaded CA should still be able to sign");
    assert_eq!(signed.common_name, "device-after-reload");
}

#[test]
fn signed_certificate_is_cryptographically_verifiable_against_the_ca() {
    let ca = test_ca();
    let (csr_pem, _key) = build_csr("device-verify").unwrap();
    let signed = ca.sign_csr(&csr_pem, YEAR, NOW).unwrap();

    let ca_der = pem::parse(ca.ca_cert_pem()).unwrap();
    let (_, ca_x509) = X509Certificate::from_der(ca_der.contents()).unwrap();

    let leaf_der = pem::parse(&signed.cert_pem).unwrap();
    let (_, leaf_x509) = X509Certificate::from_der(leaf_der.contents()).unwrap();

    assert_eq!(leaf_x509.issuer(), ca_x509.subject());
    assert!(
        leaf_x509
            .verify_signature(Some(ca_x509.public_key()))
            .is_ok(),
        "leaf certificate's signature must verify against the CA's public key"
    );
    assert_eq!(leaf_x509.validity().not_before.timestamp(), NOW);
    assert_eq!(leaf_x509.validity().not_after.timestamp(), NOW + YEAR);
    assert_eq!(ca_x509.validity().not_before.timestamp(), NOW);
    assert_eq!(ca_x509.validity().not_after.timestamp(), NOW + 3650 * 24 * 60 * 60);
    assert!(ca_x509.is_ca());
    let usage = ca_x509.key_usage().unwrap().unwrap().value;
    assert!(usage.key_cert_sign());
    assert!(usage.crl_sign());
    assert!(!usage.digital_signature());
    let constraints = ca_x509.basic_constraints().unwrap().unwrap().value;
    assert_eq!(constraints.path_len_constraint, None);
}

#[test]
fn rejects_csr_with_no_common_name() {
    let ca = test_ca();
    let key = KeyPair::generate().unwrap();
    // `CertificateParams::new` defaults to a placeholder CN -- remove it
    // to exercise a CSR whose subject genuinely has none.
    let mut params = CertificateParams::new(Vec::<String>::new()).unwrap();
    params.distinguished_name.remove(DnType::CommonName);
    let csr = params.serialize_request(&key).unwrap();
    let csr_pem = csr.pem().unwrap();

    let result = ca.sign_csr(&csr_pem, YEAR, NOW);
    assert!(matches!(result, Err(PkiError::MissingCommonName)));
    assert_eq!(
        result.unwrap_err().message(),
        "CSR has no usable Common Name in its subject"
    );
}

#[test]
fn a_bad_key_or_certificate_cannot_be_loaded() {
    let ca = test_ca();
    let result = CertificateAuthority::from_pem(&ca.ca_cert_pem(), "not a key");
    assert!(matches!(result, Err(PkiError::Load(_))));
    let result = CertificateAuthority::from_pem("not a certificate", &ca.ca_key_pem());
    assert!(matches!(result, Err(PkiError::Load(_))));
}

#[test]
fn names_that_are_not_ascii_cannot_be_asked_for() {
    let result = build_csr_with_san("server", vec!["b\u{fc}ro".to_string()]);
    assert!(matches!(result, Err(PkiError::Params(_))));
    assert!(build_csr_with_san("server", vec!["server".to_string(), "10.0.0.1".to_string()]).is_ok());
}

#[test]
fn a_certificate_names_its_subject_and_has_a_fingerprint() {
    let ca = test_ca();
    let (csr_pem, _key) = build_csr("device-name").unwrap();
    let signed = ca.sign_csr(&csr_pem, YEAR, NOW).unwrap();
    let der = cert_pem_to_der(&signed.cert_pem).unwrap();
    assert_eq!(common_name_from_cert_der(&der).as_deref(), Some("device-name"));
    assert_eq!(common_name_from_cert_der(b"not a certificate"), None);
    assert!(matches!(cert_pem_to_der("not pem"), Err(PkiError::Pem(_))));

    let fingerprint = fingerprint_sha256_colon_hex(&signed.cert_pem).unwrap();
    assert_eq!(fingerprint.len(), 32 * 3 - 1);
    assert_eq!(fingerprint_sha256_colon_hex("not pem"), None);
    let empty = "-----BEGIN CERTIFICATE-----\nAA==\n-----END CERTIFICATE-----\n";
    assert_eq!(
        fingerprint_sha256_colon_hex(empty).unwrap(),
        "6E:34:0B:9C:FF:B3:7A:98:9C:A5:44:E6:BB:78:0A:2C:78:90:1D:3F:B3:37:38:76:85:11:A3:06:17:AF:A0:1D"
    );
}

#[test]
fn common_names_are_read_in_four_kinds_of_string() {
    let name = || "n".to_string();
    for subject in [
        SubjectName::Utf8(name()),
        SubjectName::Printable(name()),
        SubjectName::Ia5(name()),
        SubjectName::Teletex(name()),
    ] {
        assert_eq!(common_name_of(subject).as_deref(), Some("n"));
    }
    assert_eq!(common_name_of(SubjectName::Other), None);
    assert_eq!(common_name_of(SubjectName::Missing), None);
}

#[test]
fn a_fresh_data_dir_generates_a_new_ca() {
    let opened = match open_authority(CaStart::Generate, "fresh", NOW) {
        Ok(opened) => opened,
        Err(error) => panic!("{}", error.message()),
    };
    assert!(opened.is_new);
    assert!(opened.ca.ca_cert_pem().contains("BEGIN CERTIFICATE"));

    let start = CaStart::Load { cert_pem: opened.ca.ca_cert_pem(), key_pem: opened.ca.ca_key_pem() };
    let again = match open_authority(start, "ignored", NOW + 1) {
        Ok(opened) => opened,
        Err(error) => panic!("{}", error.message()),
    };
    assert!(!again.is_new);
    assert_eq!(
        again.ca.ca_cert_pem(),
        opened.ca.ca_cert_pem(),
        "CA must survive a restart -- regenerating it would invalidate every issued cert"
    );
}

#[test]
fn the_server_gets_a_certificate_under_its_name() {
    let ca = test_ca();
    let identity = server_identity(&ca, "microtak-server", YEAR, NOW).unwrap();
    assert_eq!(common_name_from_cert_der(&identity.cert_der).as_deref(), Some("microtak-server"));
    assert_eq!(common_name_from_cert_der(&identity.ca_cert_der).as_deref(), Some("EdgeTAK Test CA"));
    assert!(identity.key_pem.contains("PRIVATE KEY"));
}

#[test]
fn a_loaded_key_is_written_anew() {
    let ca = test_ca();
    let commented = format!("the key of the test authority\n{}", ca.ca_key_pem());
    let reloaded = match CertificateAuthority::from_pem(&ca.ca_cert_pem(), &commented) {
        Ok(ca) => ca,
        Err(error) => panic!("{}", error.message()),
    };
    assert_eq!(reloaded.ca_key_pem(), ca.ca_key_pem());
}

#[test]
fn a_request_is_read_back_with_its_name_whatever_else_it_asks_for() {
    let ca = test_ca();
    let name = "caf\u{e9} \"a, b=c\" \u{1f4e1}";
    let asked: [&[&str]; 4] = [&[], &["server"], &["10.0.0.1", "::1", "a.b"], &["", "x"]];
    for names in asked {
        let names: Vec<String> = names.iter().map(|n| n.to_string()).collect();
        let (csr, _key) = build_csr_with_san(name, names).unwrap();
        let signed = ca.sign_csr(&csr, YEAR, NOW).unwrap();
        assert_eq!(signed.common_name, name);
        let der = cert_pem_to_der(&signed.cert_pem).unwrap();
        assert_eq!(common_name_from_cert_der(&der).as_deref(), Some(name));
    }
    let (csr, _key) = build_csr("").unwrap();
    let signed = ca.sign_csr(&csr, YEAR, NOW).unwrap();
    assert_eq!(signed.common_name, "");
    let der = cert_pem_to_der(&signed.cert_pem).unwrap();
    assert_eq!(common_name_from_cert_der(&der).as_deref(), Some(""));
}

#[test]
fn certificates_name_the_earliest_and_the_latest_times() {
    for (now, validity) in [(-62_167_219_200, YEAR), (253_402_300_799 - YEAR, YEAR)] {
        let ca = match CertificateAuthority::generate("CA", now.min(253_402_300_799 - 315_360_000)) {
            Ok(ca) => ca,
            Err(error) => panic!("{}", error.message()),
        };
        let (csr, _key) = build_csr("device").unwrap();
        let signed = ca.sign_csr(&csr, validity, now).unwrap();
        let der = cert_pem_to_der(&signed.cert_pem).unwrap();
        assert_eq!(common_name_from_cert_der(&der).as_deref(), Some("device"));
        assert!(CertificateAuthority::from_pem(&ca.ca_cert_pem(), &ca.ca_key_pem()).is_ok());
    }
}

/// The content of the DER object that `der` starts with, and what follows it.
fn object(der: &[u8]) -> (usize, usize) {
    match der[1] {
        n if n < 0x80 => (2, n as usize),
        0x81 => (3, der[2] as usize),
        0x82 => (4, der[2] as usize * 256 + der[3] as usize),
        n => panic!("length form {n}"),
    }
}

fn wrapped(tag: u8, content: &[u8]) -> Vec<u8> {
    let n = content.len();
    let mut res = vec![tag];
    if n < 0x80 {
        res.push(n as u8);
    } else {
        res.extend([0x82, (n / 256) as u8, (n % 256) as u8]);
    }
    res.extend(content);
    res
}

/// A signed object with some of its bytes replaced, signed anew.
fn signed_anew(der: &[u8], key: &rcgen::KeyPair, from: &[u8], to: &[u8]) -> Vec<u8> {
    let (head, len) = object(der);
    let content = &der[head..head + len];
    let (h, n) = object(content);
    let mut info = content[..h + n].to_vec();
    let rest = &content[h + n..];
    let (h, n) = object(rest);
    let algorithm = &rest[..h + n];
    let at = info.windows(from.len()).position(|w| w == from).unwrap();
    info[at..at + to.len()].copy_from_slice(to);
    let mut bits = vec![0];
    bits.extend(rcgen::SigningKey::sign(key, &info).unwrap());
    let mut whole = info;
    whole.extend(algorithm);
    whole.extend(wrapped(0x03, &bits));
    wrapped(0x30, &whole)
}

/// A request for this subject and these names with some bytes replaced.
fn patched_request(
    attributes: Vec<(rcgen::DnType, rcgen::DnValue)>,
    alt_names: Vec<rcgen::SanType>,
    from: &[u8],
    to: &[u8],
) -> String {
    let key = rcgen::KeyPair::generate().unwrap();
    let mut params = rcgen::CertificateParams::default();
    params.distinguished_name = rcgen::DistinguishedName::new();
    for (kind, value) in attributes {
        params.distinguished_name.push(kind, value);
    }
    params.subject_alt_names = alt_names;
    let csr = params.serialize_request(&key).unwrap();
    pem::encode(&pem::Pem::new("CERTIFICATE REQUEST", signed_anew(csr.der(), &key, from, to)))
}

fn printable(text: &str) -> rcgen::DnValue {
    rcgen::DnValue::PrintableString(text.try_into().unwrap())
}

#[test]
fn a_request_with_a_question_mark_in_a_printable_string_is_refused() {
    let ca = test_ca();
    let plain = patched_request(vec![(rcgen::DnType::CommonName, printable("whyX"))], vec![], b"whyX", b"why.");
    assert_eq!(ca.sign_csr(&plain, YEAR, NOW).unwrap().common_name, "why.");
    let asking = patched_request(vec![(rcgen::DnType::CommonName, printable("whyX"))], vec![], b"whyX", b"why?");
    let error = ca.sign_csr(&asking, YEAR, NOW).unwrap_err();
    assert!(matches!(error, PkiError::UnwritableRequest));
    assert_eq!(error.message(), "CSR holds a name that no certificate can carry");
    let elsewhere = patched_request(
        vec![
            (rcgen::DnType::CommonName, rcgen::DnValue::Utf8String("ok?".to_string())),
            (rcgen::DnType::OrganizationName, printable("whyX")),
        ],
        vec![],
        b"whyX",
        b"why?",
    );
    assert!(matches!(ca.sign_csr(&elsewhere, YEAR, NOW), Err(PkiError::UnwritableRequest)));
    let (csr, _key) = build_csr("why?").unwrap();
    assert_eq!(ca.sign_csr(&csr, YEAR, NOW).unwrap().common_name, "why?");
}

#[test]
fn a_request_with_an_identifier_that_cannot_be_written_is_refused() {
    let ca = test_ca();
    let named = |kind| {
        vec![
            (rcgen::DnType::CommonName, rcgen::DnValue::Utf8String("device".to_string())),
            (kind, rcgen::DnValue::Utf8String("x".to_string())),
        ]
    };
    let custom = || rcgen::DnType::CustomDnType(vec![1, 3, 5]);
    let known = patched_request(named(custom()), vec![], &[6, 2, 0x2b, 5], &[6, 2, 0x2b, 6]);
    assert_eq!(ca.sign_csr(&known, YEAR, NOW).unwrap().common_name, "device");
    let far = patched_request(named(custom()), vec![], &[6, 2, 0x2b, 5], &[6, 2, 0x88, 0x37]);
    assert!(matches!(ca.sign_csr(&far, YEAR, NOW), Err(PkiError::UnwritableRequest)));

    let other = || {
        let value = rcgen::OtherNameValue::Utf8String("x".to_string());
        vec![rcgen::SanType::OtherName((vec![1, 3, 5], value))]
    };
    let plain = || vec![(rcgen::DnType::CommonName, rcgen::DnValue::Utf8String("device".to_string()))];
    let known = patched_request(plain(), other(), &[6, 2, 0x2b, 5], &[6, 2, 0x2b, 6]);
    assert_eq!(ca.sign_csr(&known, YEAR, NOW).unwrap().common_name, "device");
    let far = patched_request(plain(), other(), &[6, 2, 0x2b, 5], &[6, 2, 0x88, 0x37]);
    assert!(matches!(ca.sign_csr(&far, YEAR, NOW), Err(PkiError::UnwritableRequest)));
}

#[test]
fn an_authority_whose_name_cannot_be_written_signs_nothing() {
    let key = rcgen::KeyPair::generate().unwrap();
    let mut params = rcgen::CertificateParams::default();
    params.distinguished_name = rcgen::DistinguishedName::new();
    params.distinguished_name.push(rcgen::DnType::CommonName, printable("whyX"));
    params.is_ca = rcgen::IsCa::Ca(rcgen::BasicConstraints::Unconstrained);
    let cert = params.self_signed(&key).unwrap();
    let (csr, _key) = build_csr("device").unwrap();
    for (name, writable) in [(b"why.", true), (b"why?", false)] {
        let once = signed_anew(cert.der(), &key, b"whyX", name);
        let twice = signed_anew(&once, &key, b"whyX", name);
        let text = pem::encode(&pem::Pem::new("CERTIFICATE", twice));
        assert_eq!(can_issue(&text), writable);
        let ca = match CertificateAuthority::from_pem(&text, &key.serialize_pem()) {
            Ok(ca) => ca,
            Err(error) => panic!("{}", error.message()),
        };
        let result = ca.sign_csr(&csr, YEAR, NOW);
        assert_eq!(result.is_ok(), writable);
        if !writable {
            assert!(matches!(result, Err(PkiError::UnwritableIssuer)));
        }
    }
    assert!(can_issue(&test_ca().ca_cert_pem()));
    assert!(!can_issue("no certificate"));
}

#[test]
fn identifiers_need_two_numbers_that_fit_together() {
    let content = |arcs: Vec<u64>| RequestContent {
        subject: vec![Attribute {
            kind: AttributeKind::Custom(arcs.clone()),
            value: SubjectName::Utf8("?".to_string()),
        }],
        alt_names: vec![AltName::Plain, AltName::Other(arcs)],
    };
    for good in [vec![0, 39], vec![1, 0, 7], vec![2, 999], vec![2, 18_446_744_073_709_551_534]] {
        assert!(can_write(&content(good)));
    }
    for bad in [vec![], vec![1], vec![0, 40], vec![1, 40], vec![3, 1], vec![2, u64::MAX]] {
        assert!(!can_write(&content(bad)));
    }
}

#[test]
fn of_two_attributes_with_one_identifier_the_last_counts() {
    let attribute = |value: &[u8]| RawAttribute {
        oid: vec![0x55, 4, 3],
        arcs: Some(vec![2, 5, 4, 3]),
        tag: 19,
        value: value.to_vec(),
    };
    assert!(can_write_subject(&vec![]));
    assert!(can_write_subject(&vec![attribute(b"why?"), attribute(b"why")]));
    assert!(!can_write_subject(&vec![attribute(b"why"), attribute(b"why?")]));
    let mut nameless = attribute(b"why");
    nameless.arcs = None;
    assert!(!can_write_subject(&vec![nameless]));
    let mut numeric = attribute(b"12?");
    numeric.tag = 18;
    assert!(can_write_subject(&vec![numeric]));
    assert_eq!(read_common_name(&vec![attribute(b"a"), attribute(b"b")]).as_deref(), Some("a"));
    let mut teletex = attribute(b"a");
    teletex.tag = 20;
    assert_eq!(read_common_name(&vec![teletex]), None);
}
