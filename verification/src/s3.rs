//! AWS Signature Version 4 for the single-shot `PUT` that stores evidence in
//! an S3/MinIO-compatible bucket. The request itself is sent by the caller;
//! this module computes its URL, `host` header, payload hash and
//! `Authorization` header.
use vstd::prelude::*;
use vstd::utf8::encode_utf8;
use crate::digest::{hex_encode, hex_lower, hmac_sha256, hmac_sha256_spec, sha256, sha256_digest};
use crate::text::{before_first, chars_of, find_char_from, owned, string_from_chars};

verus! {

// ─── Specifications ─────────────────────────────────────────────────────────

/// `s` without its trailing `c` characters (`str::trim_end_matches(c)`).
pub open spec fn trim_end_char(s: Seq<char>, c: char) -> Seq<char>
    decreases s.len(),
{
    if s.len() > 0 && s.last() == c {
        trim_end_char(s.drop_last(), c)
    } else {
        s
    }
}

/// Index of the first `"//"` in `s`, or `s.len()` when there is none.
pub open spec fn index_of_double_slash(s: Seq<char>) -> int
    decreases s.len(),
{
    if s.len() < 2 {
        s.len() as int
    } else if s[0] == '/' && s[1] == '/' {
        0
    } else {
        1 + index_of_double_slash(s.drop_first())
    }
}

/// The host of `url`: what follows the first `"//"` up to the next `/`
/// (empty when `url` has no `"//"`).
pub open spec fn host_of(url: Seq<char>) -> Seq<char> {
    let i = index_of_double_slash(url);
    if i >= url.len() {
        Seq::empty()
    } else {
        before_first(url.skip(i + 2), '/')
    }
}

/// HMAC key chain of SigV4: date, region, service, then `aws4_request`.
pub open spec fn signing_key_spec(
    secret: Seq<char>,
    date_stamp: Seq<char>,
    region: Seq<char>,
    service: Seq<char>,
) -> Seq<u8> {
    let k_date = hmac_sha256_spec(encode_utf8("AWS4"@ + secret), encode_utf8(date_stamp));
    let k_region = hmac_sha256_spec(k_date, encode_utf8(region));
    let k_service = hmac_sha256_spec(k_region, encode_utf8(service));
    hmac_sha256_spec(k_service, encode_utf8("aws4_request"@))
}

/// The headers that are signed.
pub open spec fn signed_headers_spec() -> Seq<char> {
    "host;x-amz-content-sha256;x-amz-date"@
}

/// Canonical headers block of the request.
pub open spec fn canonical_headers_spec(host: Seq<char>, payload_hash: Seq<char>, amz_date: Seq<char>) -> Seq<
    char,
> {
    "host:"@ + host + "\nx-amz-content-sha256:"@ + payload_hash + "\nx-amz-date:"@ + amz_date
        + "\n"@
}

/// Canonical request of a `PUT` of `key` into `bucket`.
pub open spec fn canonical_request_spec(
    bucket: Seq<char>,
    key: Seq<char>,
    host: Seq<char>,
    payload_hash: Seq<char>,
    amz_date: Seq<char>,
) -> Seq<char> {
    "PUT\n/"@ + bucket + "/"@ + key + "\n\n"@ + canonical_headers_spec(host, payload_hash, amz_date)
        + "\n"@ + signed_headers_spec() + "\n"@ + payload_hash
}

/// Credential scope `{date}/{region}/s3/aws4_request`.
pub open spec fn credential_scope_spec(date_stamp: Seq<char>, region: Seq<char>) -> Seq<char> {
    date_stamp + "/"@ + region + "/s3/aws4_request"@
}

/// The string that is signed.
pub open spec fn string_to_sign_spec(
    amz_date: Seq<char>,
    scope: Seq<char>,
    canonical_request: Seq<char>,
) -> Seq<char> {
    "AWS4-HMAC-SHA256\n"@ + amz_date + "\n"@ + scope + "\n"@ + hex_lower(
        sha256_digest(encode_utf8(canonical_request)),
    )
}

// ─── Executable ─────────────────────────────────────────────────────────────

/// The SigV4 signing key for `date_stamp`, `region` and `service`.
pub fn derive_signing_key(secret: &str, date_stamp: &str, region: &str, service: &str) -> (r: Vec<
    u8,
>)
    ensures
        r@ == signing_key_spec(secret@, date_stamp@, region@, service@),
{
    let mut k = owned("AWS4");
    k.append(secret);
    let k_date = hmac_sha256(k.as_str().as_bytes(), date_stamp.as_bytes());
    let k_region = hmac_sha256(k_date.as_slice(), region.as_bytes());
    let k_service = hmac_sha256(k_region.as_slice(), service.as_bytes());
    let tail = "aws4_request";
    hmac_sha256(k_service.as_slice(), tail.as_bytes())
}

/// Where evidence is stored and the credentials that sign the upload.
#[derive(Debug)]
pub struct S3Location {
    pub endpoint: String,
    pub region: String,
    pub bucket: String,
    pub access_key: String,
    pub secret_key: String,
}

/// A signed `PUT`: what the caller sends.
#[derive(Debug)]
pub struct SignedPut {
    pub url: String,
    pub host: String,
    pub payload_hash: String,
    pub authorization: String,
}

/// `s` without its trailing `c` characters.
pub fn trim_end_matches_char(s: &str, c: char) -> (r: String)
    ensures
        r@ == trim_end_char(s@, c),
{
    let v = chars_of(s);
    let mut j = v.len();
    assert(v@.take(j as int) =~= v@);
    while j > 0 && v[j - 1] == c
        invariant
            j <= v.len(),
            trim_end_char(v@, c) == trim_end_char(v@.take(j as int), c),
        decreases j,
    {
        assert(v@.take(j as int).drop_last() =~= v@.take(j - 1));
        j = j - 1;
    }
    assert(v@.subrange(0, j as int) =~= v@.take(j as int));
    string_from_chars(&v, 0, j)
}

/// `s` has `"//"` starting at `j`.
pub open spec fn double_slash_at(s: Seq<char>, j: int) -> bool {
    0 <= j && j + 1 < s.len() && s[j] == '/' && s[j + 1] == '/'
}

proof fn lemma_index_of_double_slash(s: Seq<char>, k: int)
    requires
        0 <= k <= s.len(),
        forall|j: int| 0 <= j < k ==> !#[trigger] double_slash_at(s, j),
        k == s.len() || double_slash_at(s, k) || k + 1 == s.len(),
    ensures
        index_of_double_slash(s) == (if k + 1 < s.len() { k } else { s.len() as int }),
    decreases s.len(),
{
    if s.len() >= 2 && k > 0 {
        let t = s.drop_first();
        assert forall|j: int| 0 <= j < k - 1 implies !#[trigger] double_slash_at(t, j) by {
            assert(!double_slash_at(s, j + 1));
        }
        assert(!double_slash_at(s, 0));
        lemma_index_of_double_slash(t, k - 1);
    }
}

/// The host of `url` (see [`host_of`]).
pub fn url_host(url: &str) -> (r: String)
    ensures
        r@ == host_of(url@),
{
    let v = chars_of(url);
    let n = v.len();
    if n < 2 {
        proof {
            lemma_index_of_double_slash(v@, n as int);
        }
        return String::new();
    }
    let mut k: usize = 0;
    while k + 1 < n && !(v[k] == '/' && v[k + 1] == '/')
        invariant
            n == v.len(),
            n >= 2,
            k + 1 <= n,
            forall|j: int| 0 <= j < k ==> !#[trigger] double_slash_at(v@, j),
        decreases n - k,
    {
        k = k + 1;
    }
    proof {
        lemma_index_of_double_slash(v@, k as int);
    }
    if k + 1 >= n {
        return String::new();
    }
    let start = k + 2;
    let end = find_char_from(&v, start, '/');
    assert(v@.subrange(start as int, end as int) =~= v@.skip(start as int).take(end - start));
    string_from_chars(&v, start, end)
}

impl S3Location {
    /// The location of `s3_bucket` at `s3_endpoint` (trailing `/` removed),
    /// signed for region `us-east-1`.
    pub fn new(s3_endpoint: &str, s3_bucket: &str, s3_access_key: &str, s3_secret_key: &str) -> (r:
        S3Location)
        ensures
            r.endpoint@ == trim_end_char(s3_endpoint@, '/'),
            r.region@ == "us-east-1"@,
            r.bucket@ == s3_bucket@,
            r.access_key@ == s3_access_key@,
            r.secret_key@ == s3_secret_key@,
    {
        S3Location {
            endpoint: trim_end_matches_char(s3_endpoint, '/'),
            region: owned("us-east-1"),
            bucket: owned(s3_bucket),
            access_key: owned(s3_access_key),
            secret_key: owned(s3_secret_key),
        }
    }

    /// Signs a `PUT` of `bytes` at `key`, dated `amz_date` (`%Y%m%dT%H%M%SZ`)
    /// and `date_stamp` (`%Y%m%d`).
    pub fn sign_put(&self, key: &str, amz_date: &str, date_stamp: &str, bytes: &[u8]) -> (r:
        SignedPut)
        ensures
            r.url@ == self.endpoint@ + "/"@ + self.bucket@ + "/"@ + key@,
            r.host@ == host_of(r.url@),
            r.payload_hash@ == hex_lower(sha256_digest(bytes@)),
            r.authorization@ == "AWS4-HMAC-SHA256 Credential="@ + self.access_key@ + "/"@
                + credential_scope_spec(date_stamp@, self.region@) + ", SignedHeaders="@
                + signed_headers_spec() + ", Signature="@ + hex_lower(
                hmac_sha256_spec(
                    signing_key_spec(self.secret_key@, date_stamp@, self.region@, "s3"@),
                    encode_utf8(
                        string_to_sign_spec(
                            amz_date@,
                            credential_scope_spec(date_stamp@, self.region@),
                            canonical_request_spec(
                                self.bucket@,
                                key@,
                                r.host@,
                                r.payload_hash@,
                                amz_date@,
                            ),
                        ),
                    ),
                ),
            ),
    {
        let mut url = self.endpoint.clone();
        url.append("/");
        url.append(self.bucket.as_str());
        url.append("/");
        url.append(key);
        let host = url_host(url.as_str());
        let digest = sha256(bytes);
        let payload_hash = hex_encode(digest.as_slice());

        let mut canonical = owned("PUT\n/");
        canonical.append(self.bucket.as_str());
        canonical.append("/");
        canonical.append(key);
        canonical.append("\n\n");
        canonical.append("host:");
        canonical.append(host.as_str());
        canonical.append("\nx-amz-content-sha256:");
        canonical.append(payload_hash.as_str());
        canonical.append("\nx-amz-date:");
        canonical.append(amz_date);
        canonical.append("\n");
        canonical.append("\n");
        canonical.append("host;x-amz-content-sha256;x-amz-date");
        canonical.append("\n");
        canonical.append(payload_hash.as_str());

        assert(canonical@ =~= canonical_request_spec(
            self.bucket@,
            key@,
            host@,
            payload_hash@,
            amz_date@,
        ));
        let mut scope = owned(date_stamp);
        scope.append("/");
        scope.append(self.region.as_str());
        scope.append("/s3/aws4_request");

        assert(scope@ =~= credential_scope_spec(date_stamp@, self.region@));
        let canonical_digest = sha256(canonical.as_str().as_bytes());
        let mut to_sign = owned("AWS4-HMAC-SHA256\n");
        to_sign.append(amz_date);
        to_sign.append("\n");
        to_sign.append(scope.as_str());
        to_sign.append("\n");
        let canonical_hex = hex_encode(canonical_digest.as_slice());
        to_sign.append(canonical_hex.as_str());

        assert(to_sign@ =~= string_to_sign_spec(amz_date@, scope@, canonical@));
        let signing_key = derive_signing_key(self.secret_key.as_str(), date_stamp, self.region.as_str(), "s3");
        let signature_bytes = hmac_sha256(signing_key.as_slice(), to_sign.as_str().as_bytes());
        let signature = hex_encode(signature_bytes.as_slice());

        let mut authorization = owned("AWS4-HMAC-SHA256 Credential=");
        authorization.append(self.access_key.as_str());
        authorization.append("/");
        authorization.append(scope.as_str());
        authorization.append(", SignedHeaders=");
        authorization.append("host;x-amz-content-sha256;x-amz-date");
        authorization.append(", Signature=");
        authorization.append(signature.as_str());
        assert(authorization@ =~= "AWS4-HMAC-SHA256 Credential="@ + self.access_key@ + "/"@
            + scope@ + ", SignedHeaders="@ + signed_headers_spec() + ", Signature="@
            + signature@);
        SignedPut { url, host, payload_hash, authorization }
    }
}

} // verus!
