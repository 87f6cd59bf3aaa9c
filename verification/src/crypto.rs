//! Trusting a TLS peer by the digest of its certificate.
//!
//! A fingerprint has the form `ALGO-DIGEST`: the name of a hash algorithm,
//! a dash, and the digest of the certificate's bytes in URL-safe base64
//! without padding, for example `SHA256-` followed by 43 characters. Only
//! `SHA256` is known so far; another algorithm is one more variant of
//! [`HashAlgorithm`].
//!
//! Whoever trusts a peer this way checks neither a certificate authority nor
//! the host name nor the expiry date. That fits infrastructure that lives
//! for an hour and is reached by a pinned key; it is dangerous anywhere else,
//! and nothing here is used unless the caller asks for it.

use vstd::prelude::*;
use vstd::string::StringExecFns;
use vstd::string::StrSliceExecFns;
use sha2::Digest;
use crate::codec::{base64url_decoded, base64url_encoded, decode_url, encode_url};
use crate::text::{chars_of, same_chars};

verus! {

/// The SHA-256 digest of `data`, as the `sha2` crate computes it.
pub uninterp spec fn sha256_digest(data: Seq<u8>) -> Seq<u8>;

/// The length of a SHA-256 digest in bytes.
pub const SHA256_LEN: usize = 32;

/// Hashes `data` with SHA-256.
///
/// Trusted: calls `sha2::Sha256::digest`. The contract names the result and
/// claims its length, 32 bytes, which is the output size of SHA-256.
#[verifier::external_body]
fn sha256(data: &[u8]) -> (digest: Vec<u8>)
    ensures
        digest@ == sha256_digest(data@),
        digest@.len() == SHA256_LEN,
{
    sha2::Sha256::digest(data).to_vec()
}

/// A hash algorithm that a fingerprint may name.
#[derive(Clone, Copy, Debug, PartialEq, Eq)]
pub enum HashAlgorithm {
    /// SHA-256, written `SHA256`.
    Sha256,
}

/// Why a certificate is not trusted.
#[derive(Clone, Copy, Debug, PartialEq, Eq)]
pub enum FingerprintError {
    /// The fingerprint holds no dash.
    Malformed,
    /// What follows the dash is no URL-safe base64 without padding.
    Encoding,
    /// The name in front of the dash is no known hash algorithm.
    UnknownAlgorithm,
    /// The digest of the certificate is not the one in the fingerprint.
    Untrusted,
}

/// Whether the first dash of `s` stands at `i`.
pub open spec fn dash_at(s: Seq<char>, i: int) -> bool {
    &&& 0 <= i < s.len()
    &&& s[i] == '-'
    &&& forall|j: int| 0 <= j < i ==> s[j] != '-'
}

/// The position of the first dash of `s`; arbitrary where there is none.
pub open spec fn first_dash(s: Seq<char>) -> int {
    choose|i: int| dash_at(s, i)
}

/// Whether `s` holds a dash.
pub open spec fn has_dash(s: Seq<char>) -> bool {
    exists|i: int| dash_at(s, i)
}

/// The algorithm that `name` stands for.
pub open spec fn algorithm_named(name: Seq<char>) -> Option<HashAlgorithm> {
    if name == "SHA256"@ {
        Some(HashAlgorithm::Sha256)
    } else {
        None
    }
}

/// The digest of `data` under `algorithm`.
pub open spec fn digest_of(algorithm: HashAlgorithm, data: Seq<u8>) -> Seq<u8> {
    match algorithm {
        HashAlgorithm::Sha256 => sha256_digest(data),
    }
}

/// The verdict on a certificate, given the name of the algorithm, what the
/// text behind the dash decodes to, and the certificate's bytes.
pub open spec fn judged(name: Seq<char>, expected: Option<Seq<u8>>, cert: Seq<u8>) -> Result<
    (),
    FingerprintError,
> {
    match expected {
        None => Err(FingerprintError::Encoding),
        Some(digest) => match algorithm_named(name) {
            None => Err(FingerprintError::UnknownAlgorithm),
            Some(algorithm) => if digest == digest_of(algorithm, cert) {
                Ok(())
            } else {
                Err(FingerprintError::Untrusted)
            },
        },
    }
}

/// The verdict on the certificate `cert` under the fingerprint `trusted`.
pub open spec fn verdict(trusted: Seq<char>, cert: Seq<u8>) -> Result<(), FingerprintError> {
    if !has_dash(trusted) {
        Err(FingerprintError::Malformed)
    } else {
        let i = first_dash(trusted);
        judged(trusted.take(i), base64url_decoded(trusted.skip(i + 1)), cert)
    }
}

/// The fingerprint of a certificate whose SHA-256 digest is `digest`.
pub open spec fn fingerprint_of(digest: Seq<u8>) -> Seq<char> {
    "SHA256-"@ + base64url_encoded(digest)
}

/// A string has at most one first dash.
pub proof fn lemma_first_dash_is_unique(s: Seq<char>, i: int, j: int)
    requires
        dash_at(s, i),
        dash_at(s, j),
    ensures
        i == j,
        first_dash(s) == i,
{
    if i < j {
        assert(s[i] != '-');
    }
    if j < i {
        assert(s[j] != '-');
    }
    let k = first_dash(s);
    if k < i {
        assert(s[k] != '-');
    }
    if i < k {
        assert(s[i] != '-');
    }
}

/// A fingerprint without a dash is malformed, whatever the certificate.
pub proof fn lemma_no_dash_is_malformed(trusted: Seq<char>, cert: Seq<u8>)
    requires
        forall|i: int| 0 <= i < trusted.len() ==> trusted[i] != '-',
    ensures
        verdict(trusted, cert) == Err::<(), FingerprintError>(FingerprintError::Malformed),
{
    if has_dash(trusted) {
        let i = choose|i: int| dash_at(trusted, i);
        assert(trusted[i] != '-');
    }
}

/// A certificate is trusted only where the fingerprint names a known
/// algorithm in front of its first dash and carries, behind it, the digest
/// of the certificate under that algorithm. In particular a fingerprint with
/// another algorithm's name, or with a digest of which one byte differs,
/// is refused.
pub proof fn lemma_only_the_digest_is_trusted(trusted: Seq<char>, cert: Seq<u8>)
    requires
        verdict(trusted, cert) is Ok,
    ensures
        has_dash(trusted),
        trusted.take(first_dash(trusted)) == "SHA256"@,
        base64url_decoded(trusted.skip(first_dash(trusted) + 1)) == Some(sha256_digest(cert)),
{
}

/// A fingerprint that carries another digest than the certificate's is
/// refused as untrusted, however little the two digests differ.
pub proof fn lemma_other_digest_is_untrusted(trusted: Seq<char>, cert: Seq<u8>, digest: Seq<u8>)
    requires
        has_dash(trusted),
        trusted.take(first_dash(trusted)) == "SHA256"@,
        base64url_decoded(trusted.skip(first_dash(trusted) + 1)) == Some(digest),
        digest != sha256_digest(cert),
    ensures
        verdict(trusted, cert) == Err::<(), FingerprintError>(FingerprintError::Untrusted),
{
}

/// A fingerprint that names anything but a known algorithm in front of its
/// first dash is refused.
pub proof fn lemma_unknown_algorithm_fails(trusted: Seq<char>, cert: Seq<u8>)
    requires
        has_dash(trusted),
        trusted.take(first_dash(trusted)) != "SHA256"@,
    ensures
        verdict(trusted, cert) is Err,
{
}

/// The position of the first dash of `chars`, if there is one.
fn find_dash(chars: &Vec<char>) -> (r: Option<usize>)
    ensures
        match r {
            Some(i) => dash_at(chars@, i as int) && first_dash(chars@) == i,
            None => !has_dash(chars@),
        },
{
    let mut i: usize = 0;
    while i < chars.len()
        invariant
            i <= chars.len(),
            forall|j: int| 0 <= j < i ==> chars[j] != '-',
        decreases chars.len() - i,
    {
        if chars[i] == '-' {
            proof {
                lemma_first_dash_is_unique(chars@, i as int, i as int);
            }
            return Some(i);
        }
        i += 1;
    }
    proof {
        if has_dash(chars@) {
            let k = choose|k: int| dash_at(chars@, k);
            assert(chars[k] != '-');
        }
    }
    None
}

/// Whether two byte strings are equal, byte for byte.
pub fn same_bytes(a: &[u8], b: &[u8]) -> (r: bool)
    ensures
        r == (a@ == b@),
{
    if a.len() != b.len() {
        return false;
    }
    let mut i: usize = 0;
    while i < a.len()
        invariant
            i <= a.len(),
            a@.len() == b@.len(),
            a@.take(i as int) == b@.take(i as int),
        decreases a.len() - i,
    {
        if a[i] != b[i] {
            assert(a@[i as int] != b@[i as int]);
            return false;
        }
        assert(a@.take(i + 1) =~= a@.take(i as int).push(a@[i as int]));
        assert(b@.take(i + 1) =~= b@.take(i as int).push(b@[i as int]));
        i += 1;
    }
    assert(a@.take(a@.len() as int) =~= a@);
    assert(b@.take(b@.len() as int) =~= b@);
    true
}

impl HashAlgorithm {
    /// The algorithm that a fingerprint names by `name`.
    pub fn named(name: &str) -> (r: Option<HashAlgorithm>)
        ensures
            r == algorithm_named(name@),
    {
        let given = chars_of(name);
        let sha256 = chars_of("SHA256");
        if same_chars(&given, &sha256) {
            Some(HashAlgorithm::Sha256)
        } else {
            None
        }
    }

    /// The digest of `data` under this algorithm.
    pub fn digest(self, data: &[u8]) -> (r: Vec<u8>)
        ensures
            r@ == digest_of(self, data@),
    {
        match self {
            HashAlgorithm::Sha256 => sha256(data),
        }
    }
}

/// The verdict on a certificate once the fingerprint has been taken apart:
/// `name` is what stood in front of the dash, `expected` what the text
/// behind it decoded to (`None` if it did not decode).
pub fn judge(name: &str, expected: Option<Vec<u8>>, cert: &[u8]) -> (r: Result<
    (),
    FingerprintError,
>)
    ensures
        r == judged(
            name@,
            match expected {
                Some(digest) => Some(digest@),
                None => None,
            },
            cert@,
        ),
{
    match expected {
        None => Err(FingerprintError::Encoding),
        Some(digest) => match HashAlgorithm::named(name) {
            None => Err(FingerprintError::UnknownAlgorithm),
            Some(algorithm) => {
                let actual = algorithm.digest(cert);
                if same_bytes(digest.as_slice(), actual.as_slice()) {
                    Ok(())
                } else {
                    Err(FingerprintError::Untrusted)
                }
            },
        },
    }
}

/// Checks the certificate `cert` against the fingerprint `trusted`.
///
/// The certificate is trusted if the fingerprint names `SHA256` in front of
/// its first dash and the text behind that dash decodes to the SHA-256
/// digest of `cert`.
pub fn verify_fingerprint(trusted: &str, cert: &[u8]) -> (r: Result<(), FingerprintError>)
    ensures
        r == verdict(trusted@, cert@),
{
    let chars = chars_of(trusted);
    let idx = match find_dash(&chars) {
        Some(idx) => idx,
        None => {
            return Err(FingerprintError::Malformed);
        },
    };
    assert(idx < chars.len());
    let name = trusted.substring_char(0, idx);
    let text = trusted.substring_char(idx + 1, chars.len());
    assert(name@ =~= trusted@.take(idx as int));
    assert(text@ =~= trusted@.skip(idx + 1));
    let expected = match decode_url(text) {
        Ok(bytes) => Some(bytes),
        Err(_) => None,
    };
    judge(name, expected, cert)
}

/// The fingerprint of a certificate: `SHA256-` and the digest of its bytes.
///
/// A certificate passes [`verify_fingerprint`] under its own fingerprint.
pub fn fingerprint(cert: &[u8]) -> (r: String)
    ensures
        r@ == fingerprint_of(sha256_digest(cert@)),
        verdict(r@, cert@) is Ok,
{
    let digest = sha256(cert);
    let text = encode_url(digest.as_slice());
    let mut out = String::from_str("SHA256-");
    out.append(text.as_str());
    proof {
        reveal_strlit("SHA256-");
        reveal_strlit("SHA256");
        let s = out@;
        assert(dash_at(s, 6));
        lemma_first_dash_is_unique(s, 6, 6);
        assert(s.take(6) =~= "SHA256"@);
        assert(s.skip(7) =~= text@);
    }
    out
}

/// Trusts a peer whose certificate has a given fingerprint, and nothing
/// else about it.
#[derive(Clone, Copy, Debug, PartialEq, Eq)]
pub struct PinnedCertificateVerification {}

impl PinnedCertificateVerification {
    /// Whether the peer that presents `end_entity` is the one that
    /// `server_name`, a fingerprint, stands for.
    pub fn verify_server_cert(&self, end_entity: &[u8], server_name: &str) -> (r: Result<
        (),
        FingerprintError,
    >)
        ensures
            r == verdict(server_name@, end_entity@),
    {
        verify_fingerprint(server_name, end_entity)
    }
}

} // verus!
