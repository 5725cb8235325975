//! Local root CA layout and certificate fingerprints (SHA-256 of the DER,
//! lowercase hex).
use vstd::prelude::*;

use crate::digest::{hex_encode, hex_lower, is_lower_hex_digit, lemma_hex_lower_shape, sha256, sha256_digest};
use crate::paths::{data_dir, join_path, path_join};
use crate::text::{chars_of, last_pos, rfind_char, slice_chars, string_of, trim, trim_chars};
use vstd::string::StringSliceAdditionalSpecFns;

verus! {

/// Days the root CA stays valid.
pub const CA_VALIDITY_DAYS: u32 = 3650;

/// Days a server certificate stays valid.
pub const SERVER_VALIDITY_DAYS: u32 = 730;

/// The root CA, PEM encoded.
pub struct CaMaterial {
    pub root_cert_pem: String,
    pub root_key_pem: String,
}

/// A server certificate and key issued by the root CA.
pub struct ServerCertBundle {
    pub server_cert_pem: String,
    pub server_key_pem: String,
    pub fingerprint: String,
    pub not_after_days: u32,
}

/// Why a certificate fingerprint could not be computed.
#[derive(Debug, Clone, PartialEq, Eq)]
pub enum CertError {
    /// The PEM text is malformed.
    PemParse,
    /// The PEM text holds no certificate.
    NoCertificate,
}

/// `{app_root}/data/ca`.
pub fn ca_dir(app_root: &str) -> (r: String)
    ensures
        r@ == path_join(path_join(app_root@, "data"@), "ca"@),
{
    let d = data_dir(app_root);
    join_path(d.as_str(), "ca")
}

/// `{app_root}/data/ca/root.crt`.
pub fn root_cert_path(app_root: &str) -> (r: String)
    ensures
        r@ == path_join(path_join(path_join(app_root@, "data"@), "ca"@), "root.crt"@),
{
    let c = ca_dir(app_root);
    join_path(c.as_str(), "root.crt")
}

/// `{app_root}/data/ca/root.key`.
pub fn root_key_path(app_root: &str) -> (r: String)
    ensures
        r@ == path_join(path_join(path_join(app_root@, "data"@), "ca"@), "root.key"@),
{
    let c = ca_dir(app_root);
    join_path(c.as_str(), "root.key")
}

/// `{app_root}/data/ca/{slug}`: the files for one server.
pub fn agent_dir(app_root: &str, slug: &str) -> (r: String)
    ensures
        r@ == path_join(path_join(path_join(app_root@, "data"@), "ca"@), slug@),
{
    let c = ca_dir(app_root);
    join_path(c.as_str(), slug)
}

/// The DER certificates of a PEM text, in order; `None` when a PEM section
/// is malformed.
pub uninterp spec fn pem_cert_list(pem: Seq<u8>) -> Option<Seq<Seq<u8>>>;

/// `rustls_pemfile::certs` over the text, collected.
#[verifier::external_body]
fn pem_certs(pem: &[u8]) -> (r: Option<Vec<Vec<u8>>>)
    ensures
        r is Some <==> pem_cert_list(pem@) is Some,
        r matches Some(v) ==> v@.map_values(|c: Vec<u8>| c@) == pem_cert_list(pem@)->0,
{
    let mut reader = pem;
    match rustls_pemfile::certs(&mut reader).collect::<Result<Vec<_>, _>>() {
        Ok(certs) => Some(certs.iter().map(|c| c.to_vec()).collect()),
        Err(_) => None,
    }
}

/// Fingerprint of a DER certificate: lowercase hex SHA-256.
pub fn cert_fingerprint_der(der: &[u8]) -> (r: String)
    ensures
        r@ == hex_lower(sha256_digest(der@)),
        r@.len() == 64,
        forall|i: int| 0 <= i < r@.len() ==> is_lower_hex_digit(#[trigger] r@[i]),
{
    let d = sha256(der);
    proof {
        lemma_hex_lower_shape(d@);
    }
    hex_encode(d.as_slice())
}

/// Fingerprint of the first certificate of a PEM text.
pub fn cert_fingerprint_pem(pem: &str) -> (r: Result<String, CertError>)
    ensures
        pem_cert_list(pem.spec_bytes()) is None ==> r == Err::<String, CertError>(
            CertError::PemParse,
        ),
        pem_cert_list(pem.spec_bytes()) matches Some(l) && l.len() == 0 ==> r == Err::<
            String,
            CertError,
        >(CertError::NoCertificate),
        pem_cert_list(pem.spec_bytes()) matches Some(l) && l.len() > 0 ==> r is Ok && r->Ok_0@
            == hex_lower(sha256_digest(pem_cert_list(pem.spec_bytes())->0[0])),
        r matches Ok(f) ==> f@.len() == 64 && forall|i: int|
            0 <= i < f@.len() ==> is_lower_hex_digit(#[trigger] f@[i]),
{
    let certs = match pem_certs(pem.as_bytes()) {
        Some(c) => c,
        None => {
            return Err(CertError::PemParse);
        },
    };
    if certs.len() == 0 {
        return Err(CertError::NoCertificate);
    }
    assert(certs@.map_values(|c: Vec<u8>| c@)[0] == certs@[0]@);
    Ok(cert_fingerprint_der(certs[0].as_slice()))
}

/// The host part of `host:port` (everything before the last `:`), trimmed.
pub open spec fn spec_host_of(addr: Seq<char>) -> Seq<char> {
    let a = trim(addr);
    let k = last_pos(a, ':');
    if k >= 0 {
        a.take(k)
    } else {
        a
    }
}

/// The host of a `host:port` server address.
pub fn parse_host_from_server_addr(addr: &str) -> (r: Result<String, CertError>)
    ensures
        r is Ok,
        r->Ok_0@ == spec_host_of(addr@),
{
    let a = trim_chars(&chars_of(addr));
    match rfind_char(&a, ':') {
        Some(k) => Ok(string_of(&slice_chars(&a, 0, k))),
        None => Ok(string_of(&a)),
    }
}

/// A host name a server certificate can be issued for: not blank, and made
/// of ASCII letters, digits, `.` and `-` once trimmed (IP addresses are
/// accepted separately).
pub fn is_cert_host_name(host: &str) -> (r: bool)
    ensures
        r == (trim(host@).len() > 0 && crate::validation::all_host_chars(trim(host@))),
{
    let t = trim_chars(&chars_of(host));
    t.len() > 0 && crate::validation::all_host(&t)
}

} // verus!
