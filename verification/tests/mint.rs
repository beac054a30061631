use openssl::asn1::Asn1Time;
use openssl::bn::{BigNum, MsbOption};
use openssl::hash::MessageDigest;
use openssl::nid::Nid;
use openssl::pkey::{PKey, Private};
use openssl::rsa::Rsa;
use openssl::x509::{X509, X509Name, X509NameRef};

use fproxy::cert::{has_encryption_header, make_cert_from_ca, Certificate, LoadError, MintError};

fn test_ca() -> Certificate {
    let rsa = Rsa::generate(2048).unwrap();
    let key: PKey<Private> = PKey::from_rsa(rsa).unwrap();
    let mut name = X509Name::builder().unwrap();
    name.append_entry_by_text("CN", "Test Root CA").unwrap();
    let name = name.build();
    let mut b = X509::builder().unwrap();
    b.set_version(2).unwrap();
    let mut serial = BigNum::new().unwrap();
    serial.rand(64, MsbOption::MAYBE_ZERO, false).unwrap();
    let serial = serial.to_asn1_integer().unwrap();
    b.set_serial_number(&serial).unwrap();
    b.set_subject_name(&name).unwrap();
    b.set_issuer_name(&name).unwrap();
    b.set_pubkey(&key).unwrap();
    b.set_not_before(&Asn1Time::days_from_now(0).unwrap()).unwrap();
    b.set_not_after(&Asn1Time::days_from_now(3650).unwrap()).unwrap();
    b.sign(&key, MessageDigest::sha256()).unwrap();
    let cert = b.build();

    // go through PEM so loading is exercised too
    let cert_pem = cert.to_pem().unwrap();
    let key_pem = key.rsa().unwrap().private_key_to_pem().unwrap();
    Certificate::from_pem(&cert_pem, &key_pem).unwrap()
}

fn common_name(n: &X509NameRef) -> String {
    let entry = n.entries_by_nid(Nid::COMMONNAME).next().unwrap();
    String::from_utf8_lossy(entry.data().as_slice()).to_string()
}

#[test]
fn mint_binds_san_issuer_and_signature() {
    let ca = test_ca();
    let minted = make_cert_from_ca("example.test", &ca).unwrap();

    let sans = minted.subject_alt_names().unwrap();
    let dns: Vec<String> = sans
        .iter()
        .map(|g| g.dnsname().unwrap().to_string())
        .collect();
    assert_eq!(dns, vec!["example.test".to_string()]);

    assert_eq!(common_name(minted.subject_name()), "example.test");
    assert_eq!(common_name(minted.issuer_name()), common_name(ca.cert.subject_name()));

    assert!(minted.verify(&ca.key).unwrap());

    let other = Rsa::generate(2048).unwrap();
    let other: PKey<Private> = PKey::from_rsa(other).unwrap();
    assert!(!minted.verify(&other).unwrap());
}

#[test]
fn mint_validity_window_is_a_year() {
    let ca = test_ca();
    let minted = make_cert_from_ca("example.test", &ca).unwrap();
    let diff = minted.not_before().diff(minted.not_after()).unwrap();
    assert!(
        (diff.days == 365 && diff.secs == 0) || (diff.days == 364 && diff.secs >= 86398),
        "window is 365 days, got {} days {} secs",
        diff.days,
        diff.secs
    );
}

#[test]
fn mint_distinct_domains_share_one_authority() {
    let ca = test_ca();
    let a = make_cert_from_ca("a.test", &ca).unwrap();
    let b = make_cert_from_ca("b.test", &ca).unwrap();
    assert_eq!(common_name(a.subject_name()), "a.test");
    assert_eq!(common_name(b.subject_name()), "b.test");
    assert!(a.verify(&ca.key).unwrap());
    assert!(b.verify(&ca.key).unwrap());
    // the authority is untouched: it still signs further leaves
    let c = make_cert_from_ca("c.test", &ca).unwrap();
    assert!(c.verify(&ca.key).unwrap());
}

#[test]
fn mint_serials_are_fresh() {
    let ca = test_ca();
    let a = make_cert_from_ca("example.test", &ca).unwrap();
    let b = make_cert_from_ca("example.test", &ca).unwrap();
    let sa = a.serial_number().to_bn().unwrap();
    let sb = b.serial_number().to_bn().unwrap();
    assert_ne!(sa, sb);
}

#[test]
fn mint_refuses_bad_domains() {
    let ca = test_ca();
    assert_eq!(make_cert_from_ca("", &ca).unwrap_err(), MintError::BadDomain);
    assert_eq!(make_cert_from_ca("a\0b", &ca).unwrap_err(), MintError::BadDomain);
    let long = "x".repeat(256);
    assert_eq!(make_cert_from_ca(&long, &ca).unwrap_err(), MintError::BadDomain);
    // the X.500 common-name bound, not this library's, caps the subject at
    // 64 characters; a long label inside that bound still mints
    let long_label = "x".repeat(63);
    assert!(make_cert_from_ca(&long_label, &ca).is_ok());
}

#[test]
fn load_refuses_mismatched_key() {
    let ca = test_ca();
    let cert_pem = ca.cert.to_pem().unwrap();
    let other = Rsa::generate(2048).unwrap();
    let other_pem = other.private_key_to_pem().unwrap();
    match Certificate::from_pem(&cert_pem, &other_pem) {
        Err(e) => assert_eq!(e, LoadError::KeyMismatch),
        Ok(_) => panic!("a key that does not match the certificate must not load"),
    }
}

#[test]
fn load_refuses_malformed_material() {
    match Certificate::from_pem(b"junk", b"junk") {
        Err(e) => assert_eq!(e, LoadError::BadCertificate),
        Ok(_) => panic!("junk must not load as a certificate"),
    }
    let ca = test_ca();
    let cert_pem = ca.cert.to_pem().unwrap();
    match Certificate::from_pem(&cert_pem, b"junk") {
        Err(e) => assert_eq!(e, LoadError::BadKey),
        Ok(_) => panic!("junk must not load as a key"),
    }
}

#[test]
fn load_declines_encrypted_material() {
    let ca = test_ca();
    let cert_pem = ca.cert.to_pem().unwrap();
    assert!(!has_encryption_header(&cert_pem));

    // a certificate PEM carrying encryption headers is declined outright
    let mut enc_cert = b"Proc-Type: 4,ENCRYPTED\n".to_vec();
    enc_cert.extend_from_slice(&cert_pem);
    assert!(has_encryption_header(&enc_cert));
    let key_pem = ca.key.rsa().unwrap().private_key_to_pem().unwrap();
    match Certificate::from_pem(&enc_cert, &key_pem) {
        Err(e) => assert_eq!(e, LoadError::BadCertificate),
        Ok(_) => panic!("encrypted certificate material must not load"),
    }

    // a passphrase-protected key fails under the loader's empty passphrase
    let enc_key = ca
        .key
        .rsa()
        .unwrap()
        .private_key_to_pem_passphrase(openssl::symm::Cipher::aes_128_cbc(), b"secret")
        .unwrap();
    match Certificate::from_pem(&cert_pem, &enc_key) {
        Err(e) => assert_eq!(e, LoadError::BadKey),
        Ok(_) => panic!("a passphrase-protected key must not load"),
    }
}
