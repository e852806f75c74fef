//! Tamper-evident dispute evidence: validation of an uploaded screenshot
//! (size, declared content type, magic bytes), its SHA-256 fingerprint, the
//! object key it is stored under, and the AWS SigV4 signature of the `PUT`
//! that stores it.
use vstd::prelude::*;
use crate::digest::{hex_encode, hex_lower, sha256, sha256_digest, uuid_text, uuid_to_string};
use crate::error::ApiError;
use crate::text::{
    before_first, chars_eq_str, chars_of, decimal, find_char_from, owned, push_decimal,
    string_from_chars, trim_bounds, trim_spec,
};

verus! {

/// Largest accepted evidence upload, in bytes.
pub const MAX_EVIDENCE_BYTES: usize = 5 * 1024 * 1024;

/// The image types accepted as evidence.
pub const ALLOWED_CONTENT_TYPES: [&'static str; 3] = ["image/png", "image/jpeg", "image/webp"];

// ─── Specifications ─────────────────────────────────────────────────────────

/// The media type of a `Content-Type` header: the text before the first `;`, trimmed.
pub open spec fn base_content_type_spec(content_type: Seq<char>) -> Seq<char> {
    trim_spec(before_first(content_type, ';'))
}

/// One of [`ALLOWED_CONTENT_TYPES`].
pub open spec fn is_allowed_content_type(t: Seq<char>) -> bool {
    t == "image/png"@ || t == "image/jpeg"@ || t == "image/webp"@
}

/// The message for a refused content type whose media type is `t`.
pub open spec fn unsupported_type_message(t: Seq<char>) -> Seq<char> {
    "Unsupported content type '"@ + t + "'; expected one of: "@ + "image/png"@ + ", "@
        + "image/jpeg"@ + ", "@ + "image/webp"@
}

/// The message for an upload of `len` bytes, over the limit.
pub open spec fn oversized_message(len: nat) -> Seq<char> {
    "Evidence file is "@ + decimal(len) + " bytes, which exceeds the "@ + decimal(
        MAX_EVIDENCE_BYTES as nat,
    ) + "-byte limit"@
}

/// The message for contents that do not match the declared type.
pub open spec fn magic_mismatch_message() -> Seq<char> {
    "File contents do not match the declared content type"@
}

/// The file signature of `bytes` matches the media type `t`: PNG's eight-byte
/// signature, JPEG's `FF D8 FF`, or a WebP `RIFF....WEBP` header.
pub open spec fn magic_matches(t: Seq<char>, bytes: Seq<u8>) -> bool {
    if t == "image/png"@ {
        bytes.len() >= 8 && bytes.take(8) == seq![0x89u8, 0x50u8, 0x4Eu8, 0x47u8, 0x0Du8, 0x0Au8, 0x1Au8, 0x0Au8]
    } else if t == "image/jpeg"@ {
        bytes.len() >= 3 && bytes.take(3) == seq![0xFFu8, 0xD8u8, 0xFFu8]
    } else if t == "image/webp"@ {
        &&& bytes.len() >= 12
        &&& bytes.subrange(0, 4) == seq![0x52u8, 0x49u8, 0x46u8, 0x46u8]
        &&& bytes.subrange(8, 12) == seq![0x57u8, 0x45u8, 0x42u8, 0x50u8]
    } else {
        false
    }
}

/// The file extension stored for the media type `t`.
pub open spec fn extension_spec(t: Seq<char>) -> Seq<char> {
    if t == "image/png"@ {
        "png"@
    } else if t == "image/jpeg"@ {
        "jpg"@
    } else if t == "image/webp"@ {
        "webp"@
    } else {
        "bin"@
    }
}

/// The SHA-256 fingerprint of `bytes`, as lower-case hex.
pub open spec fn evidence_hash_spec(bytes: Seq<u8>) -> Seq<char> {
    hex_lower(sha256_digest(bytes))
}

/// The object key `{user_id}/{match_id}/{hash}.{ext}`.
pub open spec fn object_key_spec(
    user_id: u128,
    match_id: u128,
    content_type: Seq<char>,
    hash_hex: Seq<char>,
) -> Seq<char> {
    uuid_text(user_id) + "/"@ + uuid_text(match_id) + "/"@ + hash_hex + "."@ + extension_spec(
        base_content_type_spec(content_type),
    )
}

// ─── Validation ─────────────────────────────────────────────────────────────

/// The media type of a `Content-Type` header value.
pub fn base_content_type(content_type: &str) -> (r: String)
    ensures
        r@ == base_content_type_spec(content_type@),
{
    let v = chars_of(content_type);
    let k = find_char_from(&v, 0, ';');
    assert(v@.skip(0) =~= v@);
    let (a, b) = trim_bounds(&v, k);
    string_from_chars(&v, a, b)
}

/// Accepts only the three supported image types.
pub fn validate_content_type(content_type: &str) -> (r: Result<(), ApiError>)
    ensures
        r is Ok <==> is_allowed_content_type(base_content_type_spec(content_type@)),
        r matches Err(e) ==> e matches ApiError::ValidationError(m) && m@
            == unsupported_type_message(base_content_type_spec(content_type@)),
{
    let base = base_content_type(content_type);
    let bv = chars_of(base.as_str());
    let p0 = ALLOWED_CONTENT_TYPES[0];
    let p1 = ALLOWED_CONTENT_TYPES[1];
    let p2 = ALLOWED_CONTENT_TYPES[2];
    assert(p0@ == "image/png"@ && p1@ == "image/jpeg"@ && p2@ == "image/webp"@);
    let mut i: usize = 0;
    while i < 3
        invariant
            i <= 3,
            bv@ == base@,
            base@ == base_content_type_spec(content_type@),
            ALLOWED_CONTENT_TYPES@[0]@ == "image/png"@,
            ALLOWED_CONTENT_TYPES@[1]@ == "image/jpeg"@,
            ALLOWED_CONTENT_TYPES@[2]@ == "image/webp"@,
            forall|j: int| 0 <= j < i ==> bv@ != (#[trigger] ALLOWED_CONTENT_TYPES@[j])@,
        decreases 3 - i,
    {
        let candidate = ALLOWED_CONTENT_TYPES[i];
        assert(candidate == ALLOWED_CONTENT_TYPES@[i as int]);
        if chars_eq_str(&bv, candidate) {
            assert(i == 0 || i == 1 || i == 2);
            return Ok(());
        }
        i = i + 1;
    }
    assert(bv@ != ALLOWED_CONTENT_TYPES@[0]@);
    assert(bv@ != ALLOWED_CONTENT_TYPES@[1]@);
    assert(bv@ != ALLOWED_CONTENT_TYPES@[2]@);
    let mut m = owned("Unsupported content type '");
    m.append(base.as_str());
    m.append("'; expected one of: ");
    m.append(ALLOWED_CONTENT_TYPES[0]);
    m.append(", ");
    m.append(ALLOWED_CONTENT_TYPES[1]);
    m.append(", ");
    m.append(ALLOWED_CONTENT_TYPES[2]);
    Err(ApiError::ValidationError(m))
}

/// Refuses an upload larger than [`MAX_EVIDENCE_BYTES`].
pub fn validate_evidence_size(len: usize) -> (r: Result<(), ApiError>)
    ensures
        r is Ok <==> len <= MAX_EVIDENCE_BYTES,
        r matches Err(e) ==> e matches ApiError::ValidationError(m) && m@ == oversized_message(
            len as nat,
        ),
{
    if len > MAX_EVIDENCE_BYTES {
        let mut m = owned("Evidence file is ");
        push_decimal(&mut m, len as u64);
        m.append(" bytes, which exceeds the ");
        push_decimal(&mut m, MAX_EVIDENCE_BYTES as u64);
        m.append("-byte limit");
        Err(ApiError::ValidationError(m))
    } else {
        Ok(())
    }
}

/// `bytes[from..from + expected.len()]` equals `expected`.
fn bytes_at(bytes: &[u8], from: usize, expected: &Vec<u8>) -> (r: bool)
    requires
        from + expected@.len() <= bytes@.len(),
    ensures
        r == (bytes@.subrange(from as int, from + expected@.len()) == expected@),
{
    let n = bytes.len();
    let mut i: usize = 0;
    while i < expected.len()
        invariant
            n == bytes@.len(),
            from + expected@.len() <= bytes@.len(),
            i <= expected@.len(),
            forall|j: int| 0 <= j < i ==> bytes@[from + j] == expected@[j],
        decreases expected.len() - i,
    {
        if bytes[from + i] != expected[i] {
            assert(bytes@.subrange(from as int, from + expected@.len())[i as int] != expected@[i as int]);
            return false;
        }
        i = i + 1;
    }
    assert(bytes@.subrange(from as int, from + expected@.len()) =~= expected@);
    true
}

/// The file's signature must match the declared `Content-Type`.
pub fn validate_magic_bytes(content_type: &str, bytes: &[u8]) -> (r: Result<(), ApiError>)
    ensures
        r is Ok <==> magic_matches(base_content_type_spec(content_type@), bytes@),
        r matches Err(e) ==> e matches ApiError::ValidationError(m) && m@
            == magic_mismatch_message(),
{
    let base = base_content_type(content_type);
    let bv = chars_of(base.as_str());
    let matches = if chars_eq_str(&bv, "image/png") {
        let sig = vec![0x89u8, 0x50u8, 0x4Eu8, 0x47u8, 0x0Du8, 0x0Au8, 0x1Au8, 0x0Au8];
        assert(bytes@.len() >= 8 ==> bytes@.subrange(0, 8) =~= bytes@.take(8));
        bytes.len() >= 8 && bytes_at(bytes, 0, &sig)
    } else if chars_eq_str(&bv, "image/jpeg") {
        let sig = vec![0xFFu8, 0xD8u8, 0xFFu8];
        assert(bytes@.len() >= 3 ==> bytes@.subrange(0, 3) =~= bytes@.take(3));
        bytes.len() >= 3 && bytes_at(bytes, 0, &sig)
    } else if chars_eq_str(&bv, "image/webp") {
        let riff = vec![0x52u8, 0x49u8, 0x46u8, 0x46u8];
        let webp = vec![0x57u8, 0x45u8, 0x42u8, 0x50u8];
        bytes.len() >= 12 && bytes_at(bytes, 0, &riff) && bytes_at(bytes, 8, &webp)
    } else {
        false
    };
    if matches {
        Ok(())
    } else {
        Err(ApiError::ValidationError(owned("File contents do not match the declared content type")))
    }
}

// ─── Fingerprint and storage key ────────────────────────────────────────────

/// SHA-256 hex digest of the raw evidence bytes.
pub fn hash_evidence(bytes: &[u8]) -> (r: String)
    ensures
        r@ == evidence_hash_spec(bytes@),
        r@.len() == 64,
{
    let d = sha256(bytes);
    hex_encode(d.as_slice())
}

/// The file extension for a `Content-Type` header value.
pub fn extension_for(content_type: &str) -> (r: &'static str)
    ensures
        r@ == extension_spec(base_content_type_spec(content_type@)),
{
    let base = base_content_type(content_type);
    let bv = chars_of(base.as_str());
    if chars_eq_str(&bv, "image/png") {
        "png"
    } else if chars_eq_str(&bv, "image/jpeg") {
        "jpg"
    } else if chars_eq_str(&bv, "image/webp") {
        "webp"
    } else {
        "bin"
    }
}

/// Object key namespaced `{user_id}/{match_id}/{hash}.{ext}`.
pub fn evidence_object_key(user_id: u128, match_id: u128, content_type: &str, hash_hex: &str) -> (r:
    String)
    ensures
        r@ == object_key_spec(user_id, match_id, content_type@, hash_hex@),
{
    let mut k = uuid_to_string(user_id);
    k.append("/");
    let m = uuid_to_string(match_id);
    k.append(m.as_str());
    k.append("/");
    k.append(hash_hex);
    k.append(".");
    k.append(extension_for(content_type));
    k
}

/// What an accepted upload is stored as: its fingerprint and object key.
#[derive(Debug)]
pub struct EvidenceUpload {
    pub hash_hex: String,
    pub object_key: String,
}

/// Validates an upload (content type, then size, then magic bytes) and, when
/// it is accepted, computes its fingerprint and object key.
pub fn prepare_evidence_upload(user_id: u128, match_id: u128, content_type: &str, body: &[u8]) -> (r:
    Result<EvidenceUpload, ApiError>)
    ensures
        r is Ok <==> {
            let t = base_content_type_spec(content_type@);
            &&& is_allowed_content_type(t)
            &&& body@.len() <= MAX_EVIDENCE_BYTES
            &&& magic_matches(t, body@)
        },
        !is_allowed_content_type(base_content_type_spec(content_type@)) ==> (r matches Err(
            ApiError::ValidationError(m),
        ) && m@ == unsupported_type_message(base_content_type_spec(content_type@))),
        is_allowed_content_type(base_content_type_spec(content_type@)) && body@.len()
            > MAX_EVIDENCE_BYTES ==> (r matches Err(ApiError::ValidationError(m)) && m@
            == oversized_message(body@.len())),
        is_allowed_content_type(base_content_type_spec(content_type@)) && body@.len()
            <= MAX_EVIDENCE_BYTES && !magic_matches(base_content_type_spec(content_type@), body@)
            ==> (r matches Err(ApiError::ValidationError(m)) && m@ == magic_mismatch_message()),
        r matches Ok(u) ==> u.hash_hex@ == evidence_hash_spec(body@) && u.object_key@
            == object_key_spec(user_id, match_id, content_type@, evidence_hash_spec(body@)),
{
    validate_content_type(content_type)?;
    validate_evidence_size(body.len())?;
    validate_magic_bytes(content_type, body)?;
    let hash_hex = hash_evidence(body);
    let object_key = evidence_object_key(user_id, match_id, content_type, hash_hex.as_str());
    Ok(EvidenceUpload { hash_hex, object_key })
}

} // verus!
