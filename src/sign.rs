use vstd::prelude::*;
use crate::error::Error;
use openssl::error::ErrorStack;
use openssl::pkcs7::Pkcs7;
use openssl::pkey::{PKey, Private};
use openssl::stack::Stack;
use openssl::x509::X509;

verus! {

#[verifier::external_type_specification]
#[verifier::external_body]
pub struct ExErrorStack(ErrorStack);

#[verifier::external_type_specification]
#[verifier::external_body]
pub struct ExX509(X509);

#[verifier::external_type_specification]
#[verifier::external_body]
pub struct ExPrivate(Private);

#[verifier::external_type_specification]
#[verifier::external_body]
#[verifier::reject_recursive_types(T)]
pub struct ExPKey<T>(PKey<T>);

/// The certificates handed to clients beside a signature, in an openssl stack,
/// whose declaration Verus refuses.
#[verifier::external_body]
pub struct CertificateStack {
    certs: Stack<X509>,
}

/// The PEM-encoded key and certificates that sign profiles.
pub struct SigningMaterial {
    /// The certificate chain handed to clients with the signature.
    pub chain: Vec<u8>,
    /// The certificate of the signer.
    pub cert: Vec<u8>,
    /// The private key of the signer.
    pub key: Vec<u8>,
}

/// The longest buffer that openssl reads from memory: `c_int::MAX` bytes.
pub const MAX_OPENSSL_INPUT: usize = 2147483647;

/// Relies on `openssl::pkey::PKey::private_key_from_pem`: reads a PEM-encoded
/// private key; it asserts that the buffer fits in a `c_int`.
#[verifier::external_body]
fn private_key_from_pem(pem: &[u8]) -> Result<PKey<Private>, ErrorStack>
    requires
        pem@.len() <= MAX_OPENSSL_INPUT,
{
    PKey::private_key_from_pem(pem)
}

/// Relies on `openssl::x509::X509::from_pem`: reads a PEM-encoded certificate;
/// it asserts that the buffer fits in a `c_int`.
#[verifier::external_body]
fn certificate_from_pem(pem: &[u8]) -> Result<X509, ErrorStack>
    requires
        pem@.len() <= MAX_OPENSSL_INPUT,
{
    X509::from_pem(pem)
}

/// Relies on `openssl::stack::Stack::new`: an empty stack of certificates.
#[verifier::external_body]
fn new_certificate_stack() -> Result<CertificateStack, ErrorStack> {
    match Stack::new() {
        Ok(certs) => Ok(CertificateStack { certs }),
        Err(e) => Err(e),
    }
}

/// Relies on `openssl::stack::Stack::push`: adds a certificate to the stack.
#[verifier::external_body]
fn push_certificate(stack: &mut CertificateStack, cert: X509) -> Result<(), ErrorStack> {
    stack.certs.push(cert)
}

/// Relies on `openssl::pkcs7::Pkcs7::sign` with the `BINARY` flag, whose result
/// `Pkcs7Ref::to_der` encodes: a finished signed-data structure, signed by `cert`
/// and `key` and carrying the certificates of `stack`. Without the `DETACHED`
/// flag `PKCS7_sign` embeds `input` byte for byte, so the encoding is longer
/// than `input`. `Pkcs7::sign` asserts that `input` fits in a `c_int`.
#[verifier::external_body]
fn pkcs7_sign_der(cert: &X509, key: &PKey<Private>, stack: &CertificateStack, input: &[u8]) -> (r: Result<Vec<u8>, ErrorStack>)
    requires
        input@.len() <= MAX_OPENSSL_INPUT,
    ensures
        r matches Ok(d) ==> d@.len() > input@.len(),
{
    Pkcs7::sign(cert, key, &stack.certs, input, openssl::pkcs7::Pkcs7Flags::BINARY)?.to_der()
}

/// The DER-encoded PKCS#7 signed-data structure that embeds `input`, signed with
/// `material`'s key and certificate and carrying its chain; any failure to read
/// the key or certificates, or to sign, is a `SigningFailure`, as is a buffer
/// longer than openssl reads.
pub fn sign(material: &SigningMaterial, input: &[u8]) -> (r: Result<Vec<u8>, Error>)
    ensures
        r is Err ==> r == Err::<Vec<u8>, Error>(Error::SigningFailure),
        r matches Ok(d) ==> d@.len() > input@.len(),
        material.key@.len() > MAX_OPENSSL_INPUT || material.chain@.len() > MAX_OPENSSL_INPUT
            || material.cert@.len() > MAX_OPENSSL_INPUT || input@.len() > MAX_OPENSSL_INPUT
            ==> r is Err,
{
    if material.key.len() > MAX_OPENSSL_INPUT || material.chain.len() > MAX_OPENSSL_INPUT
        || material.cert.len() > MAX_OPENSSL_INPUT || input.len() > MAX_OPENSSL_INPUT {
        return Err(Error::SigningFailure);
    }
    let key = match private_key_from_pem(material.key.as_slice()) {
        Ok(k) => k,
        Err(_) => return Err(Error::SigningFailure),
    };
    let chain = match certificate_from_pem(material.chain.as_slice()) {
        Ok(c) => c,
        Err(_) => return Err(Error::SigningFailure),
    };
    let mut certs = match new_certificate_stack() {
        Ok(s) => s,
        Err(_) => return Err(Error::SigningFailure),
    };
    if push_certificate(&mut certs, chain).is_err() {
        return Err(Error::SigningFailure);
    }
    let cert = match certificate_from_pem(material.cert.as_slice()) {
        Ok(c) => c,
        Err(_) => return Err(Error::SigningFailure),
    };
    match pkcs7_sign_der(&cert, &key, &certs, input) {
        Ok(der) => Ok(der),
        Err(_) => Err(Error::SigningFailure),
    }
}

/// The response body for a serialized profile: signed when signing material is
/// configured, which never hands back the plain profile, and the profile itself
/// otherwise.
pub fn sign_profile(material: Option<&SigningMaterial>, profile: Vec<u8>) -> (r: Result<Vec<u8>, Error>)
    ensures
        material is None ==> r == Ok::<Vec<u8>, Error>(profile),
        material is Some ==> (r matches Ok(d) ==> d@.len() > profile@.len()),
        r is Err ==> r == Err::<Vec<u8>, Error>(Error::SigningFailure),
{
    match material {
        Some(m) => sign(m, profile.as_slice()),
        None => Ok(profile),
    }
}

} // verus!
