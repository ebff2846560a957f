use automail::error::Error;
use automail::sign::{sign, sign_profile, SigningMaterial};
use openssl::asn1::Asn1Time;
use openssl::bn::BigNum;
use openssl::hash::MessageDigest;
use openssl::pkcs7::{Pkcs7, Pkcs7Flags};
use openssl::pkey::PKey;
use openssl::rsa::Rsa;
use openssl::stack::Stack;
use openssl::x509::store::X509StoreBuilder;
use openssl::x509::{X509NameBuilder, X509};

fn material() -> (SigningMaterial, X509) {
    let key = PKey::from_rsa(Rsa::generate(2048).unwrap()).unwrap();
    let mut name = X509NameBuilder::new().unwrap();
    name.append_entry_by_text("CN", "Test Root").unwrap();
    let name = name.build();
    let mut builder = X509::builder().unwrap();
    builder.set_version(2).unwrap();
    let serial = BigNum::from_u32(1).unwrap().to_asn1_integer().unwrap();
    builder.set_serial_number(&serial).unwrap();
    builder.set_subject_name(&name).unwrap();
    builder.set_issuer_name(&name).unwrap();
    builder.set_pubkey(&key).unwrap();
    builder.set_not_before(&Asn1Time::days_from_now(0).unwrap()).unwrap();
    builder.set_not_after(&Asn1Time::days_from_now(30).unwrap()).unwrap();
    builder.sign(&key, MessageDigest::sha256()).unwrap();
    let cert = builder.build();
    let pem = cert.to_pem().unwrap();
    let m = SigningMaterial {
        chain: pem.clone(),
        cert: pem,
        key: key.private_key_to_pem_pkcs8().unwrap(),
    };
    (m, cert)
}

fn open(der: &[u8], root: &X509) -> Vec<u8> {
    let p7 = Pkcs7::from_der(der).unwrap();
    let mut store = X509StoreBuilder::new().unwrap();
    store.add_cert(root.clone()).unwrap();
    let store = store.build();
    let certs = Stack::new().unwrap();
    let mut out = Vec::new();
    p7.verify(&certs, &store, None, Some(&mut out), Pkcs7Flags::BINARY).unwrap();
    out
}

#[test]
fn signing_twice_both_verify_and_carry_the_content() {
    let (m, root) = material();
    let payload = b"<?xml version=\"1.0\" encoding=\"UTF-8\"?><plist>\n<dict/>\n</plist>\n".to_vec();
    let a = sign(&m, &payload).unwrap();
    let b = sign(&m, &payload).unwrap();
    assert_ne!(a, payload);
    assert_eq!(open(&a, &root), payload);
    assert_eq!(open(&b, &root), payload);
}

#[test]
fn signing_with_bad_key_fails() {
    let (mut m, _) = material();
    m.key = b"not a key".to_vec();
    assert!(matches!(sign(&m, b"data"), Err(Error::SigningFailure)));
    let (mut n, _) = material();
    n.chain = Vec::new();
    assert!(matches!(sign(&n, b"data"), Err(Error::SigningFailure)));
}

#[test]
fn unsigned_profile_is_returned_unchanged() {
    let body = b"<plist/>".to_vec();
    assert_eq!(sign_profile(None, body.clone()).unwrap(), body);
    let (m, root) = material();
    let signed = sign_profile(Some(&m), body.clone()).unwrap();
    assert!(signed.len() > body.len());
    assert_eq!(open(&signed, &root), body);
}
