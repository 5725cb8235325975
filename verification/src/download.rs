//! Downloading a backup over HTTPS: the URL used, checksum verification, the
//! retry policy, pinned server certificates and the TLS error texts.
use vstd::prelude::*;

use crate::ca::cert_fingerprint_der;
use crate::digest::{hex_encode, hex_lower, sha256, sha256_digest};
use crate::i18n::replace_chars;
use crate::models::Connection;
use crate::text::{
    append_chars, ascii_lower, chars_of, contains, contains_chars, decimal, decimal_chars,
    lower_chars, replace_all, str_eq, string_of,
};

verus! {

/// Download attempts before a checksum mismatch is final.
pub const DOWNLOAD_ATTEMPTS: u32 = 3;

/// Seconds between two download attempts.
pub const DOWNLOAD_RETRY_DELAY_SECS: u64 = 2;

/// The URL a backup is fetched from: plain `http://` is upgraded to `https://`.
pub fn normalize_download_url(_conn: &Connection, url: &str) -> (r: String)
    ensures
        r@ == replace_all(url@, "http://"@, "https://"@),
{
    let pat = chars_of("http://");
    proof {
        reveal_strlit("http://");
    }
    string_of(&replace_chars(&chars_of(url), &pat, &chars_of("https://")))
}

/// The SHA-256 checksum of a downloaded file, as lowercase hex.
pub fn compute_sha256(data: &[u8]) -> (r: String)
    ensures
        r@ == hex_lower(sha256_digest(data@)),
{
    let d = sha256(data);
    hex_encode(d.as_slice())
}

/// The server gave no usable checksum (empty or `unknown`): the file is
/// accepted as downloaded.
pub fn skips_hash_check(expected_hash: &str) -> (r: bool)
    ensures
        r == (expected_hash@.len() == 0 || expected_hash@ == "unknown"@),
{
    expected_hash.is_empty() || str_eq(expected_hash, "unknown")
}

/// The name a file with a wrong checksum is moved to: `{filename}_bad{attempt}`.
pub open spec fn bad_name(filename: Seq<char>, attempt: u32) -> Seq<char> {
    filename + "_bad"@ + decimal(attempt as nat)
}

/// What follows a downloaded file's checksum comparison.
#[derive(Debug, PartialEq, Eq)]
pub enum DownloadVerdict {
    /// The checksum matches: keep the file.
    Accept,
    /// Mismatch: move the file to `bad_name` and try again after the delay.
    Retry { bad_name: String },
    /// Mismatch on the last attempt: move it to `bad_name` and fail.
    Fail { bad_name: String },
}

/// Judges attempt `attempt` (1-based) of a download by its checksum.
pub fn download_verdict(attempt: u32, filename: &str, expected_hash: &str, actual_hash: &str) -> (r:
    DownloadVerdict)
    requires
        1 <= attempt <= DOWNLOAD_ATTEMPTS,
    ensures
        actual_hash@ == expected_hash@ ==> r == DownloadVerdict::Accept,
        actual_hash@ != expected_hash@ && attempt < DOWNLOAD_ATTEMPTS ==> (r matches DownloadVerdict::Retry {
            bad_name: b,
        } && b@ == bad_name(filename@, attempt)),
        actual_hash@ != expected_hash@ && attempt == DOWNLOAD_ATTEMPTS ==> (r matches DownloadVerdict::Fail {
            bad_name: b,
        } && b@ == bad_name(filename@, attempt)),
{
    if str_eq(actual_hash, expected_hash) {
        return DownloadVerdict::Accept;
    }
    let mut v = chars_of(filename);
    append_chars(&mut v, &chars_of("_bad"));
    append_chars(&mut v, &decimal_chars(attempt as u64));
    let b = string_of(&v);
    if attempt < DOWNLOAD_ATTEMPTS {
        DownloadVerdict::Retry { bad_name: b }
    } else {
        DownloadVerdict::Fail { bad_name: b }
    }
}

/// Why a TLS connection to the server failed, by the error's text.
#[derive(Debug, Clone, Copy, PartialEq, Eq)]
pub enum TlsFailure {
    /// The server certificate expired or is not valid yet.
    CertificateExpired,
    /// The server certificate is not the pinned one.
    FingerprintMismatch,
    /// Anything else.
    Other,
}

/// Sorts a TLS or WebSocket error by its text.
pub fn classify_tls_error(msg: &str) -> (r: TlsFailure)
    ensures
        contains(msg@, "CertificateExpired"@) || contains(msg@, "expired"@) || contains(
            msg@,
            "NotValidYet"@,
        ) ==> r == TlsFailure::CertificateExpired,
        !(contains(msg@, "CertificateExpired"@) || contains(msg@, "expired"@) || contains(
            msg@,
            "NotValidYet"@,
        )) && contains(msg@, "fingerprint mismatch"@) ==> r == TlsFailure::FingerprintMismatch,
        !(contains(msg@, "CertificateExpired"@) || contains(msg@, "expired"@) || contains(
            msg@,
            "NotValidYet"@,
        )) && !contains(msg@, "fingerprint mismatch"@) ==> r == TlsFailure::Other,
{
    let m = chars_of(msg);
    if contains_chars(&m, &chars_of("CertificateExpired")) || contains_chars(
        &m,
        &chars_of("expired"),
    ) || contains_chars(&m, &chars_of("NotValidYet")) {
        TlsFailure::CertificateExpired
    } else if contains_chars(&m, &chars_of("fingerprint mismatch")) {
        TlsFailure::FingerprintMismatch
    } else {
        TlsFailure::Other
    }
}

/// The error reported for a failed TLS connection of a connection `slug`.
pub fn tls_error_message(slug: &str, msg: &str) -> (r: String)
    ensures
        classify_tls_error_spec(msg@) == TlsFailure::CertificateExpired ==> r@ == "["@ + slug@
            + "] Server TLS certificate expired or not yet valid — renew from the client menu"@,
        classify_tls_error_spec(msg@) == TlsFailure::FingerprintMismatch ==> r@ == "["@ + slug@
            + "] TLS certificate fingerprint mismatch — renew certificate (data/ca/"@ + slug@
            + ")"@,
        classify_tls_error_spec(msg@) == TlsFailure::Other ==> r@ == "["@ + slug@
            + "] TLS/WebSocket error: "@ + msg@,
{
    let mut v = chars_of("[");
    append_chars(&mut v, &chars_of(slug));
    match classify_tls_error(msg) {
        TlsFailure::CertificateExpired => {
            append_chars(
                &mut v,
                &chars_of(
                    "] Server TLS certificate expired or not yet valid — renew from the client menu",
                ),
            );
        },
        TlsFailure::FingerprintMismatch => {
            append_chars(
                &mut v,
                &chars_of("] TLS certificate fingerprint mismatch — renew certificate (data/ca/"),
            );
            append_chars(&mut v, &chars_of(slug));
            append_chars(&mut v, &chars_of(")"));
        },
        TlsFailure::Other => {
            append_chars(&mut v, &chars_of("] TLS/WebSocket error: "));
            append_chars(&mut v, &chars_of(msg));
        },
    }
    string_of(&v)
}

/// `classify_tls_error` as a specification.
pub open spec fn classify_tls_error_spec(msg: Seq<char>) -> TlsFailure {
    if contains(msg, "CertificateExpired"@) || contains(msg, "expired"@) || contains(
        msg,
        "NotValidYet"@,
    ) {
        TlsFailure::CertificateExpired
    } else if contains(msg, "fingerprint mismatch"@) {
        TlsFailure::FingerprintMismatch
    } else {
        TlsFailure::Other
    }
}

/// A non-empty pinned fingerprint.
pub open spec fn has_pin(f: Option<String>) -> bool {
    f matches Some(p) && p@.len() > 0
}

/// The pinned fingerprint of a connection with TLS: present and non-empty.
pub fn pinned_fingerprint(conn: &Connection) -> (r: Result<&str, String>)
    ensures
        has_pin(conn.cert_fingerprint) ==> (r matches Ok(p) && p@ == conn.cert_fingerprint->0@),
        !has_pin(conn.cert_fingerprint) ==> (r matches Err(e) && e@
            == "TLS enabled but cert_fingerprint is missing"@),
{
    match &conn.cert_fingerprint {
        Some(f) => if !f.as_str().is_empty() {
            return Ok(f.as_str());
        },
        None => {},
    }
    Err(string_of(&chars_of("TLS enabled but cert_fingerprint is missing")))
}

/// Checks a server certificate against the pinned fingerprint (compared in
/// lowercase), with the error text of a mismatch.
pub fn check_pinned_certificate(expected_fingerprint: &str, der: &[u8]) -> (r: Result<(), String>)
    ensures
        hex_lower(sha256_digest(der@)) == ascii_lower(expected_fingerprint@) ==> r is Ok,
        hex_lower(sha256_digest(der@)) != ascii_lower(expected_fingerprint@) ==> (r matches Err(e)
            && e@ == "Certificate fingerprint mismatch (expected "@ + ascii_lower(
            expected_fingerprint@,
        ) + ", got "@ + hex_lower(sha256_digest(der@)) + ")"@),
{
    let expected = lower_chars(&chars_of(expected_fingerprint));
    let actual = cert_fingerprint_der(der);
    let av = chars_of(actual.as_str());
    if crate::text::chars_eq(&av, &expected) {
        return Ok(());
    }
    let mut v = chars_of("Certificate fingerprint mismatch (expected ");
    append_chars(&mut v, &expected);
    append_chars(&mut v, &chars_of(", got "));
    append_chars(&mut v, &av);
    append_chars(&mut v, &chars_of(")"));
    Err(string_of(&v))
}

} // verus!
