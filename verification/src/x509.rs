//! The trusted boundary to OpenSSL. Each function here wraps the OpenSSL
//! calls the certificate engine needs; Verus believes the contracts stated on
//! them and the library's proofs rest on those contracts holding of OpenSSL.
//! Every value OpenSSL hands back is opaque to the verifier; what the minted
//! certificate must contain is fixed by the verified caller in `cert`.

use vstd::prelude::*;

use openssl::asn1::Asn1Time;
use openssl::bn::{BigNum, MsbOption};
use openssl::error::ErrorStack;
use openssl::hash::MessageDigest;
use openssl::pkey::{PKey, Private};
use openssl::rsa::Rsa;
use openssl::x509::extension::SubjectAlternativeName;
use openssl::x509::{X509, X509Builder, X509Name};

use vstd::string::StringSliceAdditionalSpecFns;

verus! {

#[verifier::external_type_specification]
#[verifier::external_body]
pub struct ExX509(X509);

#[verifier::external_type_specification]
#[verifier::external_body]
#[verifier::reject_recursive_types(T)]
pub struct ExPKey<T>(PKey<T>);

#[verifier::external_type_specification]
#[verifier::external_body]
pub struct ExPrivate(Private);

#[verifier::external_type_specification]
#[verifier::external_body]
pub struct ExAsn1Time(Asn1Time);

#[verifier::external_type_specification]
#[verifier::external_body]
pub struct ExX509Name(X509Name);

#[verifier::external_type_specification]
#[verifier::external_body]
pub struct ExX509Builder(X509Builder);

#[verifier::external_type_specification]
#[verifier::external_body]
pub struct ExErrorStack(ErrorStack);

/// The marker of PEM encryption headers. On material carrying it,
/// OpenSSL's PEM reader may fall back to its default passphrase callback
/// and consult the environment, so the certificate decoder refuses such
/// input: what it admits is decided by the bytes alone.
pub open spec fn pem_encryption_marker() -> Seq<u8> {
    "Proc-Type".spec_bytes()
}

/// Whether the bytes carry the PEM encryption-header marker anywhere. No
/// marker, no encryption header, and the PEM reader never asks for a
/// passphrase.
pub open spec fn has_pem_encryption_marker(pem: Seq<u8>) -> bool {
    exists|k: int|
        0 <= k <= pem.len() - pem_encryption_marker().len() && #[trigger] pem.subrange(
            k,
            k + pem_encryption_marker().len(),
        ) == pem_encryption_marker()
}

/// Whether these bytes decode as one PEM X.509 certificate: on input free
/// of encryption headers, what X509::from_pem returns depends on the bytes
/// alone.
pub uninterp spec fn x509_pem_ok(pem: Seq<u8>) -> bool;

/// Whether these bytes decode as one PEM RSA private key under an empty
/// passphrase: what Rsa::private_key_from_pem_passphrase followed by
/// PKey::from_rsa returns depends on the bytes alone.
pub uninterp spec fn rsa_pem_ok(pem: Seq<u8>) -> bool;

/// Whether the private key held in one PEM (decoded under an empty
/// passphrase) matches the public key embedded in the certificate held in
/// the other: on a certificate PEM free of encryption headers, a function
/// of the two byte strings alone; whatever fails to decode does not match.
pub uninterp spec fn pem_key_matches(cert_pem: Seq<u8>, key_pem: Seq<u8>) -> bool;

/// Relies on X509::from_pem: decodes one PEM-encoded certificate, failing
/// on malformed input. The binding hands the C PEM reader no passphrase
/// callback, so on a block with encryption headers OpenSSL's default
/// callback could consult the terminal: such input is excluded here, and on
/// what remains success depends on the bytes alone, named `x509_pem_ok`.
/// The binding also asserts that the input fits a signed 32-bit count (its
/// memory BIO), so larger inputs are excluded too.
#[verifier::external_body]
pub(crate) fn x509_from_pem(pem: &[u8]) -> (r: Result<X509, ErrorStack>)
    requires
        pem@.len() < 0x8000_0000,
        !has_pem_encryption_marker(pem@),
    ensures
        r is Ok <==> x509_pem_ok(pem@),
{
    X509::from_pem(pem)
}

/// Relies on Rsa::private_key_from_pem_passphrase and PKey::from_rsa:
/// decodes one PEM-encoded RSA private key under an empty passphrase,
/// failing on malformed or passphrase-protected input. The explicit
/// passphrase is handed to the PEM reader as its user data, so no callback
/// ever consults the environment and success depends on the bytes alone,
/// named `rsa_pem_ok`. The binding asserts that the input fits a signed
/// 32-bit count (its memory BIO), so larger inputs are excluded here.
#[verifier::external_body]
pub(crate) fn rsa_private_key_from_pem(pem: &[u8]) -> (r: Result<PKey<Private>, ErrorStack>)
    requires
        pem@.len() < 0x8000_0000,
    ensures
        r is Ok <==> rsa_pem_ok(pem@),
{
    match Rsa::private_key_from_pem_passphrase(pem, b"") {
        Ok(rsa) => PKey::from_rsa(rsa),
        Err(e) => Err(e),
    }
}

/// Relies on X509Builder::new.
#[verifier::external_body]
pub(crate) fn new_builder() -> (r: Result<X509Builder, ErrorStack>) {
    X509Builder::new()
}

/// Relies on X509Builder::set_version; the argument is the X.509 version
/// counted from zero.
#[verifier::external_body]
pub(crate) fn set_version(b: &mut X509Builder, version: i32) -> (r: Result<(), ErrorStack>) {
    b.set_version(version)
}

/// Relies on BigNum::new, BigNumRef::rand (with MsbOption::MAYBE_ZERO, so a leading
/// zero is allowed per ASN.1 integer rules), BigNumRef::to_asn1_integer and
/// X509Builder::set_serial_number: draws a fresh random serial of the given
/// width in bits. Nothing can be promised of a random value.
#[verifier::external_body]
pub(crate) fn set_random_serial(b: &mut X509Builder, bits: i32) -> (r: Result<(), ErrorStack>) {
    let mut serial = BigNum::new()?;
    serial.rand(bits, MsbOption::MAYBE_ZERO, false)?;
    let serial = serial.to_asn1_integer()?;
    b.set_serial_number(&serial)
}

/// Relies on X509Builder::set_pubkey.
#[verifier::external_body]
pub(crate) fn set_pubkey(b: &mut X509Builder, key: &PKey<Private>) -> (r: Result<
    (),
    ErrorStack,
>) {
    b.set_pubkey(key)
}

/// Relies on Asn1Time::days_from_now: the current time plus the given
/// number of days; the result depends on the clock, so nothing is promised
/// of it. The binding multiplies the days into a C long of seconds, which
/// on targets where that type is 32 bits overflows beyond 24855 days, so
/// larger values are excluded here.
#[verifier::external_body]
pub(crate) fn time_days_from_now(days: u32) -> (r: Result<Asn1Time, ErrorStack>)
    requires
        days <= 24855,
{
    Asn1Time::days_from_now(days)
}

/// Relies on X509Builder::set_not_before.
#[verifier::external_body]
pub(crate) fn set_not_before(b: &mut X509Builder, t: &Asn1Time) -> (r: Result<(), ErrorStack>) {
    b.set_not_before(t)
}

/// Relies on X509Builder::set_not_after.
#[verifier::external_body]
pub(crate) fn set_not_after(b: &mut X509Builder, t: &Asn1Time) -> (r: Result<(), ErrorStack>) {
    b.set_not_after(t)
}

/// Relies on X509Name::builder, X509NameBuilder::append_entry_by_text and
/// X509NameBuilder::build: one name with one text entry. The binding unwraps
/// a CString of the field, so the field must hold no NUL, and asserts that
/// the value's byte length fits a signed 32-bit count.
#[verifier::external_body]
pub(crate) fn name_with_entry(field: &str, value: &str) -> (r: Result<X509Name, ErrorStack>)
    requires
        forall|i: int| 0 <= i < field.spec_bytes().len() ==> field.spec_bytes()[i] != 0,
        value.spec_bytes().len() < 0x8000_0000,
{
    let mut name = X509Name::builder()?;
    name.append_entry_by_text(field, value)?;
    Ok(name.build())
}

/// Relies on X509Builder::set_subject_name.
#[verifier::external_body]
pub(crate) fn set_subject_name(b: &mut X509Builder, name: &X509Name) -> (r: Result<
    (),
    ErrorStack,
>) {
    b.set_subject_name(name)
}

/// Relies on SubjectAlternativeName::new, SubjectAlternativeName::dns,
/// SubjectAlternativeName::build, X509Builder::x509v3_context and
/// X509Builder::append_extension: appends a Subject Alternative Name
/// extension whose only entry is the given DNS name. The context borrows the
/// builder, so the chain cannot be split without exposing that borrow. The
/// binding converts the name's byte length into a signed 32-bit count with
/// an unwrap, so longer names are excluded here.
#[verifier::external_body]
pub(crate) fn append_san_dns(b: &mut X509Builder, dns: &str, issuer: &X509) -> (r: Result<
    (),
    ErrorStack,
>)
    requires
        dns.spec_bytes().len() < 0x8000_0000,
{
    let mut san = SubjectAlternativeName::new();
    san.dns(dns);
    let ext = san.build(&b.x509v3_context(Some(issuer), None))?;
    b.append_extension(ext)
}

/// Relies on X509Ref::subject_name and X509Builder::set_issuer_name: the
/// issuer of the certificate under construction becomes the subject of the
/// given signer certificate, as chain validation requires.
#[verifier::external_body]
pub(crate) fn set_issuer_from(b: &mut X509Builder, signer: &X509) -> (r: Result<
    (),
    ErrorStack,
>) {
    b.set_issuer_name(signer.subject_name())
}

/// Relies on X509Builder::sign and MessageDigest::sha256: signs the
/// to-be-signed structure with the given key under SHA-256.
#[verifier::external_body]
pub(crate) fn sign_sha256(b: &mut X509Builder, key: &PKey<Private>) -> (r: Result<
    (),
    ErrorStack,
>) {
    b.sign(key, MessageDigest::sha256())
}

/// Relies on X509Builder::build.
#[verifier::external_body]
pub(crate) fn build_x509(b: X509Builder) -> (r: X509) {
    b.build()
}

/// Relies on X509::from_pem, Rsa::private_key_from_pem_passphrase,
/// PKey::from_rsa, X509Ref::public_key and PKeyRef::public_eq
/// (EVP_PKEY_cmp): whether the private key held in `key_pem` — decoded
/// under an empty passphrase, never the environment — matches the public
/// key embedded in the certificate held in `cert_pem`. A certificate PEM
/// with encryption headers is excluded, as in `x509_from_pem`; on what
/// remains every call is a function of the two byte strings alone, so the
/// result bears the name `pem_key_matches`. Whatever fails to decode does
/// not match.
#[verifier::external_body]
pub(crate) fn pems_key_match(cert_pem: &[u8], key_pem: &[u8]) -> (r: bool)
    requires
        cert_pem@.len() < 0x8000_0000,
        key_pem@.len() < 0x8000_0000,
        !has_pem_encryption_marker(cert_pem@),
    ensures
        r == pem_key_matches(cert_pem@, key_pem@),
{
    let cert = match X509::from_pem(cert_pem) {
        Ok(c) => c,
        Err(_) => return false,
    };
    let key = match Rsa::private_key_from_pem_passphrase(key_pem, b"").and_then(PKey::from_rsa) {
        Ok(k) => k,
        Err(_) => return false,
    };
    match cert.public_key() {
        Ok(pk) => key.public_eq(&pk),
        Err(_) => false,
    }
}

} // verus!
