//! The certificate authority and the minting engine. The authority holds the
//! root certificate and private key, read-only for the process lifetime and
//! shared by reference; minting builds a leaf certificate bound to one
//! domain, signed by the authority. The verified code fixes every field of
//! the to-be-signed description; OpenSSL applies it behind `x509`.

use vstd::prelude::*;

use openssl::error::ErrorStack;
use openssl::pkey::{PKey, Private};
use openssl::x509::X509;

use vstd::string::StringSliceAdditionalSpecFns;
use vstd::utf8::{encode_utf8, is_ascii_chars, is_ascii_chars_encode_utf8};

use vstd::slice::slice_subrange;

use crate::bytes::{eq_bytes, find_byte_from, lemma_find_byte};
use crate::x509::{
    append_san_dns, build_x509, has_pem_encryption_marker, name_with_entry, new_builder,
    pem_encryption_marker, pem_key_matches, pems_key_match, rsa_pem_ok,
    rsa_private_key_from_pem, set_issuer_from, set_not_after, set_not_before, set_pubkey,
    set_random_serial, set_subject_name, set_version, sign_sha256, time_days_from_now,
    x509_from_pem, x509_pem_ok,
};

verus! {

/// The root material: certificate plus the private key that signs leaves.
/// Never mutated after construction; minting takes it by shared reference
/// only, so concurrent mints for distinct domains share it safely.
pub struct Certificate {
    pub cert: X509,
    pub key: PKey<Private>,
}

/// Root material that did not load: a PEM that does not decode (an
/// encrypted certificate PEM counts as such), or a key that does not
/// correspond to the certificate's embedded public key — the load-time
/// invariant of the authority.
#[derive(Clone, Copy, Debug, PartialEq, Eq, Structural)]
pub enum LoadError {
    BadCertificate,
    BadKey,
    KeyMismatch,
}

/// Scans for the marker of PEM encryption headers. The loader declines
/// material that carries it, so decoding never consults the environment.
#[verifier::loop_isolation(false)]
pub fn has_encryption_header(pem: &[u8]) -> (r: bool)
    ensures
        r == has_pem_encryption_marker(pem@),
{
    let marker = "Proc-Type".as_bytes();
    proof {
        reveal_strlit("Proc-Type");
        assert(is_ascii_chars("Proc-Type"@));
        is_ascii_chars_encode_utf8("Proc-Type"@);
        assert(pem_encryption_marker().len() == 9);
        assert(marker@ == pem_encryption_marker());
    }
    let mlen = marker.len();
    if pem.len() < mlen {
        return false;
    }
    let mut k: usize = 0;
    while k <= pem.len() - mlen
        invariant
            k <= pem@.len(),
            forall|j: int| 0 <= j < k ==> #[trigger] pem@.subrange(j, j + 9) != pem_encryption_marker(),
        decreases pem@.len() - k,
    {
        if eq_bytes(slice_subrange(pem, k, k + mlen), marker) {
            proof {
                assert(pem@.subrange(k as int, k as int + 9) == pem_encryption_marker());
            }
            return true;
        }
        k += 1;
    }
    proof {
        assert forall|kk: int|
            0 <= kk <= pem@.len() - 9 implies #[trigger] pem@.subrange(kk, kk + 9)
            != pem_encryption_marker() by {
            assert(kk < k);
        }
    }
    false
}

impl Certificate {
    /// Decodes the PEM-encoded root certificate and RSA private key, and
    /// checks that the key corresponds to the certificate's embedded public
    /// key. Reading the files stays with the caller; a failure here is fatal
    /// at startup, never per-connection. A certificate PEM carrying
    /// encryption headers is declined outright — the root pair of a local
    /// authority is stored in the clear, and decoding must never consult
    /// the environment — and the key is decoded under an empty passphrase.
    /// On everything else, loading succeeds exactly when both PEMs decode
    /// and the pair matches, and each error names the first stage that
    /// failed.
    pub fn from_pem(cert_pem: &[u8], key_pem: &[u8]) -> (r: Result<Certificate, LoadError>)
        requires
            cert_pem@.len() < 0x8000_0000,
            key_pem@.len() < 0x8000_0000,
        ensures
            ((r matches Err(e) && e == LoadError::BadCertificate) <==> (has_pem_encryption_marker(
                cert_pem@,
            ) || !x509_pem_ok(cert_pem@))),
            ((r matches Err(e) && e == LoadError::BadKey) <==> (!has_pem_encryption_marker(
                cert_pem@,
            ) && x509_pem_ok(cert_pem@) && !rsa_pem_ok(key_pem@))),
            ((r matches Err(e) && e == LoadError::KeyMismatch) <==> (!has_pem_encryption_marker(
                cert_pem@,
            ) && x509_pem_ok(cert_pem@) && rsa_pem_ok(key_pem@) && !pem_key_matches(
                cert_pem@,
                key_pem@,
            ))),
            (r is Ok <==> (!has_pem_encryption_marker(cert_pem@) && x509_pem_ok(cert_pem@)
                && rsa_pem_ok(key_pem@) && pem_key_matches(cert_pem@, key_pem@))),
    {
        if has_encryption_header(cert_pem) {
            return Err(LoadError::BadCertificate);
        }
        let cert = match x509_from_pem(cert_pem) {
            Ok(c) => c,
            Err(_) => {
                return Err(LoadError::BadCertificate);
            },
        };
        let key = match rsa_private_key_from_pem(key_pem) {
            Ok(k) => k,
            Err(_) => {
                return Err(LoadError::BadKey);
            },
        };
        if !pems_key_match(cert_pem, key_pem) {
            return Err(LoadError::KeyMismatch);
        }
        Ok(Certificate { cert, key })
    }
}

/// Mathematical model of the to-be-signed description of a leaf.
pub ghost struct LeafModel {
    pub common_name: Seq<char>,
    pub san_dns: Seq<Seq<char>>,
    pub not_before_days: u32,
    pub not_after_days: u32,
    pub serial_bits: i32,
    pub version: i32,
}

/// The to-be-signed description of a leaf certificate: every value the
/// minter hands to the signer, fixed before any OpenSSL call.
pub struct LeafParams {
    pub common_name: String,
    pub san_dns: Vec<String>,
    pub not_before_days: u32,
    pub not_after_days: u32,
    pub serial_bits: i32,
    pub version: i32,
}

impl View for LeafParams {
    type V = LeafModel;

    open spec fn view(&self) -> LeafModel {
        LeafModel {
            common_name: self.common_name@,
            san_dns: self.san_dns@.map_values(|s: String| s@),
            not_before_days: self.not_before_days,
            not_after_days: self.not_after_days,
            serial_bits: self.serial_bits,
            version: self.version,
        }
    }
}

/// What a leaf for `domain` must say: subject common name `domain`, a
/// Subject Alternative Name list holding exactly `domain`, valid from now
/// for 365 days, a fresh 128-bit serial, X.509 v3.
pub open spec fn spec_leaf(domain: Seq<char>) -> LeafModel {
    LeafModel {
        common_name: domain,
        san_dns: seq![domain],
        not_before_days: 0,
        not_after_days: 365,
        serial_bits: 128,
        version: 2,
    }
}

/// A domain the minter accepts: its encoding is nonempty, at most 255
/// bytes, and free of NUL.
pub open spec fn valid_domain(d: Seq<u8>) -> bool {
    0 < d.len() <= 255 && forall|i: int| 0 <= i < d.len() ==> d[i] != 0
}

/// Builds the to-be-signed description for `domain`.
pub fn leaf_params(domain: &str) -> (p: LeafParams)
    ensures
        p@ == spec_leaf(domain@),
{
    let common_name = domain.to_owned();
    let mut san_dns: Vec<String> = Vec::new();
    san_dns.push(domain.to_owned());
    let p = LeafParams {
        common_name,
        san_dns,
        not_before_days: 0,
        not_after_days: 365,
        serial_bits: 128,
        version: 2,
    };
    proof {
        assert(p@.san_dns =~= seq![domain@]);
        assert(p@ == spec_leaf(domain@));
    }
    p
}

/// Minting failed: the domain is not one a certificate can name, or OpenSSL
/// reported a cryptographic or encoding failure.
#[derive(Clone, Copy, Debug, PartialEq, Eq, Structural)]
pub enum MintError {
    BadDomain,
    Crypto,
}

/// Applies the description to a builder and signs it with the authority's
/// key, step by step: version, serial, public key, validity window,
/// subject, Subject Alternative Name, issuer, signature.
#[verifier::loop_isolation(false)]
fn mint_signed(p: &LeafParams, ca: &Certificate) -> (r: Result<X509, ErrorStack>)
    requires
        valid_domain(encode_utf8(p@.common_name)),
        forall|i: int|
            0 <= i < p@.san_dns.len() ==> encode_utf8(#[trigger] p@.san_dns[i]).len()
                < 0x8000_0000,
        p@.not_before_days <= 24855,
        p@.not_after_days <= 24855,
{
    proof {
        reveal_strlit("CN");
        assert(is_ascii_chars("CN"@));
        is_ascii_chars_encode_utf8("CN"@);
        assert forall|i: int| 0 <= i < "CN".spec_bytes().len() implies "CN".spec_bytes()[i]
            != 0 by {
            assert("CN".spec_bytes()[i] == "CN"@[i] as u8);
        }
    }
    let mut b = match new_builder() {
        Ok(b) => b,
        Err(e) => {
            return Err(e);
        },
    };
    if let Err(e) = set_version(&mut b, p.version) {
        return Err(e);
    }
    if let Err(e) = set_random_serial(&mut b, p.serial_bits) {
        return Err(e);
    }
    if let Err(e) = set_pubkey(&mut b, &ca.key) {
        return Err(e);
    }
    let not_before = match time_days_from_now(p.not_before_days) {
        Ok(t) => t,
        Err(e) => {
            return Err(e);
        },
    };
    if let Err(e) = set_not_before(&mut b, &not_before) {
        return Err(e);
    }
    let not_after = match time_days_from_now(p.not_after_days) {
        Ok(t) => t,
        Err(e) => {
            return Err(e);
        },
    };
    if let Err(e) = set_not_after(&mut b, &not_after) {
        return Err(e);
    }
    let subject = match name_with_entry("CN", self_str(&p.common_name)) {
        Ok(n) => n,
        Err(e) => {
            return Err(e);
        },
    };
    if let Err(e) = set_subject_name(&mut b, &subject) {
        return Err(e);
    }
    let mut i: usize = 0;
    while i < p.san_dns.len()
        decreases p.san_dns@.len() - i,
    {
        proof {
            assert(p@.san_dns[i as int] == p.san_dns@[i as int]@);
        }
        if let Err(e) = append_san_dns(&mut b, self_str(&p.san_dns[i]), &ca.cert) {
            return Err(e);
        }
        i += 1;
    }
    if let Err(e) = set_issuer_from(&mut b, &ca.cert) {
        return Err(e);
    }
    if let Err(e) = sign_sha256(&mut b, &ca.key) {
        return Err(e);
    }
    Ok(build_x509(b))
}

/// The string slice of an owned string.
fn self_str(s: &String) -> (r: &str)
    ensures
        r@ == s@,
{
    s.as_str()
}

/// Mints a leaf certificate for `domain`, signed by the authority with
/// SHA-256. The description handed to the signer is exactly
/// `spec_leaf(domain@)`: the Subject Alternative Name list holds `domain`
/// and nothing else, the subject common name is `domain`, the issuer is the
/// authority's subject, and the window runs from now to now plus 365 days.
/// A domain outside `valid_domain` is refused as such; any OpenSSL failure
/// surfaces as a crypto error, never a panic.
pub fn make_cert_from_ca(domain: &str, ca: &Certificate) -> (r: Result<X509, MintError>)
    ensures
        ((r matches Err(e) && e == MintError::BadDomain) <==> !valid_domain(domain.spec_bytes())),
{
    let bytes = domain.as_bytes();
    if bytes.len() == 0 || bytes.len() > 255 {
        return Err(MintError::BadDomain);
    }
    proof {
        assert(bytes@.skip(0) =~= bytes@);
    }
    match find_byte_from(bytes, 0, 0u8) {
        Some(_) => {
            proof {
                lemma_find_byte(bytes@, 0u8);
            }
            return Err(MintError::BadDomain);
        },
        None => {
            proof {
                lemma_find_byte(bytes@, 0u8);
            }
        },
    }
    let p = leaf_params(domain);
    proof {
        assert forall|i: int| 0 <= i < p@.san_dns.len() implies encode_utf8(
            #[trigger] p@.san_dns[i],
        ).len() < 0x8000_0000 by {
            assert(p@.san_dns[i] == domain@);
            assert(encode_utf8(domain@) == domain.spec_bytes());
        }
    }
    match mint_signed(&p, ca) {
        Ok(c) => Ok(c),
        Err(_) => Err(MintError::Crypto),
    }
}

} // verus!
