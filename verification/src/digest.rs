//! SHA-256, HMAC-SHA256, lower-case hex and UUID text.
//!
//! SHA-256 itself comes from the `sha2` crate, hex encoding from `hex`, and
//! the bytes and text of an identifier from `uuid`; HMAC is built here on top
//! of the SHA-256 wrapper and proved against its RFC 2104 definition.
use vstd::prelude::*;
use vstd::arithmetic::power::pow;
use sha2::Digest;

verus! {

// ─── Trusted names and wrappers ─────────────────────────────────────────────

/// The SHA-256 digest (FIPS 180-4) of `data`.
pub uninterp spec fn sha256_digest(data: Seq<u8>) -> Seq<u8>;

/// Calls `sha2::Sha256::digest`. Trusted: the result is the SHA-256 digest of
/// `data`, which is 32 bytes long (`Sha256`'s output size). Feeding the
/// hasher several pieces with `update` digests their concatenation, so the
/// library always hashes one concatenated buffer.
#[verifier::external_body]
pub fn sha256(data: &[u8]) -> (r: Vec<u8>)
    ensures
        r@ == sha256_digest(data@),
        r@.len() == 32,
{
    sha2::Sha256::digest(data).to_vec()
}

/// The lower-case hex digit for a nibble `n < 16`.
pub open spec fn hex_digit(n: int) -> char {
    if n < 10 {
        (48 + n) as char
    } else {
        (87 + n) as char
    }
}

/// Lower-case hex text of `data`: two digits per byte, high nibble first.
pub open spec fn hex_lower(data: Seq<u8>) -> Seq<char> {
    Seq::new(
        2 * data.len(),
        |i: int|
            if i % 2 == 0 {
                hex_digit(data[i / 2] as int / 16)
            } else {
                hex_digit(data[i / 2] as int % 16)
            },
    )
}

/// Calls `hex::encode`. Trusted: the result is the lower-case hex text of
/// `data`, two digits per byte with the high nibble first (the crate maps
/// each byte through the table `0123456789abcdef`).
#[verifier::external_body]
pub fn hex_encode(data: &[u8]) -> (r: String)
    ensures
        r@ == hex_lower(data@),
{
    hex::encode(data)
}

/// The 16 bytes of the identifier `id`, most significant first.
pub open spec fn uuid_bytes(id: u128) -> Seq<u8> {
    Seq::new(16, |i: int| ((id as int / pow(256, (15 - i) as nat)) % 256) as u8)
}

/// Calls `uuid::Uuid::from_u128(id).as_bytes()`. Trusted: `from_u128` stores
/// `id.to_be_bytes()`, so the bytes are those of `id`, most significant first.
#[verifier::external_body]
pub fn uuid_to_bytes(id: u128) -> (r: Vec<u8>)
    ensures
        r@ == uuid_bytes(id),
{
    uuid::Uuid::from_u128(id).as_bytes().to_vec()
}

/// The hyphenated lower-case text of the identifier `id`
/// (`xxxxxxxx-xxxx-xxxx-xxxx-xxxxxxxxxxxx`).
pub open spec fn uuid_text(id: u128) -> Seq<char> {
    let h = hex_lower(uuid_bytes(id));
    h.subrange(0, 8) + seq!['-'] + h.subrange(8, 12) + seq!['-'] + h.subrange(12, 16) + seq!['-']
        + h.subrange(16, 20) + seq!['-'] + h.subrange(20, 32)
}

/// Calls `uuid::Uuid::from_u128(id).to_string()`. Trusted: `Display` for
/// `Uuid` writes the hyphenated form in lower case, that is the lower-case
/// hex of the 16 bytes with hyphens after the 8th, 12th, 16th and 20th digit.
#[verifier::external_body]
pub fn uuid_to_string(id: u128) -> (r: String)
    ensures
        r@ == uuid_text(id),
{
    uuid::Uuid::from_u128(id).to_string()
}

// ─── HMAC-SHA256 (RFC 2104) ─────────────────────────────────────────────────

/// The key block: the key (or its digest when longer than the 64-byte block)
/// padded with zeros to 64 bytes.
pub open spec fn hmac_key_block(key: Seq<u8>) -> Seq<u8> {
    let k = if key.len() > 64 {
        sha256_digest(key)
    } else {
        key
    };
    Seq::new(64, |i: int| if i < k.len() { k[i] } else { 0u8 })
}

/// `block` with every byte XORed with `pad`.
pub open spec fn xor_pad(block: Seq<u8>, pad: u8) -> Seq<u8> {
    Seq::new(block.len(), |i: int| block[i] ^ pad)
}

/// HMAC-SHA256 of `message` under `key`:
/// `H((K ^ opad) || H((K ^ ipad) || message))`.
pub open spec fn hmac_sha256_spec(key: Seq<u8>, message: Seq<u8>) -> Seq<u8> {
    let block = hmac_key_block(key);
    sha256_digest(xor_pad(block, 0x5c) + sha256_digest(xor_pad(block, 0x36) + message))
}

/// Appends `data` to `v`.
pub fn extend_bytes(v: &mut Vec<u8>, data: &[u8])
    ensures
        final(v)@ == old(v)@ + data@,
{
    let mut i: usize = 0;
    while i < data.len()
        invariant
            i <= data@.len(),
            v@ == old(v)@ + data@.take(i as int),
        decreases data.len() - i,
    {
        v.push(data[i]);
        assert(data@.take(i + 1) == data@.take(i as int).push(data@[i as int]));
        i = i + 1;
    }
    assert(data@.take(data@.len() as int) =~= data@);
}

/// HMAC-SHA256 of `message` under `key`.
pub fn hmac_sha256(key: &[u8], message: &[u8]) -> (r: Vec<u8>)
    ensures
        r@ == hmac_sha256_spec(key@, message@),
        r@.len() == 32,
{
    let mut k: Vec<u8> = Vec::new();
    if key.len() > 64 {
        let hashed = sha256(key);
        extend_bytes(&mut k, hashed.as_slice());
    } else {
        extend_bytes(&mut k, key);
    }
    let ghost kk = if key@.len() > 64 { sha256_digest(key@) } else { key@ };
    assert(k@ == kk);
    let mut ipad: Vec<u8> = Vec::new();
    let mut opad: Vec<u8> = Vec::new();
    let mut i: usize = 0;
    while i < 64
        invariant
            k@ == kk,
            kk == (if key@.len() > 64 { sha256_digest(key@) } else { key@ }),
            kk.len() <= 64,
            i <= 64,
            ipad@.len() == i,
            opad@.len() == i,
            forall|j: int|
                0 <= j < i ==> #[trigger] ipad@[j] == hmac_key_block(key@)[j] ^ 0x36u8,
            forall|j: int|
                0 <= j < i ==> #[trigger] opad@[j] == hmac_key_block(key@)[j] ^ 0x5cu8,
        decreases 64 - i,
    {
        let b: u8 = if i < k.len() {
            k[i]
        } else {
            0
        };
        assert(b == hmac_key_block(key@)[i as int]);
        ipad.push(b ^ 0x36);
        opad.push(b ^ 0x5c);
        i = i + 1;
    }
    let ghost block = hmac_key_block(key@);
    assert(ipad@ =~= xor_pad(block, 0x36));
    assert(opad@ =~= xor_pad(block, 0x5c));
    extend_bytes(&mut ipad, message);
    let inner = sha256(ipad.as_slice());
    extend_bytes(&mut opad, inner.as_slice());
    sha256(opad.as_slice())
}

} // verus!
