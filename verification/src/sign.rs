//! Authentication signing: the per-request signature over
//! `timestamp || method || path || body`, HMAC-SHA256 keyed with the secret,
//! base64-encoded. A pure function of its inputs; the secret is never logged
//! or persisted.
use vstd::prelude::*;
use base64::Engine;
use hmac::Mac;

verus! {

/// API key, secret and passphrase; immutable once constructed and owned by
/// the client instance.
pub struct Credentials {
    pub key: String,
    pub secret: String,
    pub passphrase: String,
}

impl Credentials {
    /// All three parts non-empty: required before an authenticated call is
    /// issued.
    pub open spec fn complete(&self) -> bool {
        self.key@.len() > 0 && self.secret@.len() > 0 && self.passphrase@.len() > 0
    }

    pub fn is_complete(&self) -> (b: bool)
        ensures
            b == self.complete(),
    {
        !self.key.as_str().is_empty() && !self.secret.as_str().is_empty()
            && !self.passphrase.as_str().is_empty()
    }
}

/// The exact text that is signed for one request.
pub open spec fn prehash_of(ts: Seq<char>, method: Seq<char>, path: Seq<char>, body: Seq<char>) -> Seq<
    char,
> {
    ts + method + path + body
}

pub uninterp spec fn hmac_sha256_of(key: Seq<char>, msg: Seq<char>) -> Seq<u8>;

pub uninterp spec fn base64_of(bs: Seq<u8>) -> Seq<char>;

/// The signature for a request: base64 of the HMAC-SHA256 of the signing
/// payload under the secret.
pub open spec fn signature_of(
    secret: Seq<char>,
    ts: Seq<char>,
    method: Seq<char>,
    path: Seq<char>,
    body: Seq<char>,
) -> Seq<char> {
    base64_of(hmac_sha256_of(secret, prehash_of(ts, method, path, body)))
}

/// Relies on `Hmac::<Sha256>` of the hmac and sha2 crates: the MAC of the
/// message under the key, a function of key and message alone. HMAC accepts
/// keys of any length, so construction cannot fail.
#[verifier::external_body]
fn hmac_sha256(secret: &str, message: &str) -> (r: Vec<u8>)
    ensures
        r@ == hmac_sha256_of(secret@, message@),
{
    let mut mac = <hmac::Hmac<sha2::Sha256> as Mac>::new_from_slice(secret.as_bytes()).unwrap();
    mac.update(message.as_bytes());
    mac.finalize().into_bytes().to_vec()
}

/// Relies on the base64 crate's standard-alphabet padded engine: the base64
/// text of the bytes, a function of the bytes alone.
#[verifier::external_body]
fn base64_encode(bytes: &Vec<u8>) -> (r: String)
    ensures
        r@ == base64_of(bytes@),
{
    base64::engine::general_purpose::STANDARD.encode(bytes.as_slice())
}

/// Compute the signature for one request. `method` is the upper-case HTTP
/// method name, `path_and_query` the path including any query string, and
/// `body` the raw body (empty for GET).
pub fn sign(secret: &str, timestamp: &str, method: &str, path_and_query: &str, body: &str) -> (sig:
    String)
    ensures
        sig@ == signature_of(secret@, timestamp@, method@, path_and_query@, body@),
{
    let mut prehash = String::new();
    prehash.append(timestamp);
    prehash.append(method);
    prehash.append(path_and_query);
    prehash.append(body);
    assert(prehash@ =~= prehash_of(timestamp@, method@, path_and_query@, body@));
    let digest = hmac_sha256(secret, prehash.as_str());
    base64_encode(&digest)
}

/// Law: the signature is a function of the secret, timestamp, method, path
/// and body alone — fixed inputs always produce the same signature.
pub proof fn lemma_signature_deterministic(
    secret1: Seq<char>,
    ts1: Seq<char>,
    method1: Seq<char>,
    path1: Seq<char>,
    body1: Seq<char>,
    secret2: Seq<char>,
    ts2: Seq<char>,
    method2: Seq<char>,
    path2: Seq<char>,
    body2: Seq<char>,
)
    requires
        secret1 == secret2,
        ts1 == ts2,
        method1 == method2,
        path1 == path2,
        body1 == body2,
    ensures
        signature_of(secret1, ts1, method1, path1, body1) == signature_of(
            secret2,
            ts2,
            method2,
            path2,
            body2,
        ),
{
}

/// Law: with the timestamp, method and path lengths fixed, distinct inputs
/// produce distinct signing payloads — adjacent inputs cannot collide before
/// the MAC is even applied.
pub proof fn lemma_prehash_injective(
    ts1: Seq<char>,
    method1: Seq<char>,
    path1: Seq<char>,
    body1: Seq<char>,
    ts2: Seq<char>,
    method2: Seq<char>,
    path2: Seq<char>,
    body2: Seq<char>,
)
    requires
        ts1.len() == ts2.len(),
        method1.len() == method2.len(),
        path1.len() == path2.len(),
        prehash_of(ts1, method1, path1, body1) == prehash_of(ts2, method2, path2, body2),
    ensures
        ts1 == ts2,
        method1 == method2,
        path1 == path2,
        body1 == body2,
{
    let full1 = prehash_of(ts1, method1, path1, body1);
    let full2 = prehash_of(ts2, method2, path2, body2);
    let a = ts1.len() as int;
    let b = a + method1.len() as int;
    let c = b + path1.len() as int;
    assert(ts1 =~= full1.subrange(0, a));
    assert(method1 =~= full1.subrange(a, b));
    assert(path1 =~= full1.subrange(b, c));
    assert(body1 =~= full1.subrange(c, full1.len() as int));
    assert(ts2 =~= full2.subrange(0, a));
    assert(method2 =~= full2.subrange(a, b));
    assert(path2 =~= full2.subrange(b, c));
    assert(body2 =~= full2.subrange(c, full2.len() as int));
}

} // verus!
