use backend::error::ApiError;
use backend::evidence::{
    evidence_object_key, extension_for, hash_evidence, prepare_evidence_upload,
    validate_content_type, validate_evidence_size, validate_magic_bytes, ALLOWED_CONTENT_TYPES,
    MAX_EVIDENCE_BYTES,
};
use std::collections::HashMap;
use uuid::Uuid;

const PNG_MAGIC: [u8; 8] = [0x89, 0x50, 0x4E, 0x47, 0x0D, 0x0A, 0x1A, 0x0A];

fn message(e: ApiError) -> String {
    match e {
        ApiError::ValidationError(m) | ApiError::BadRequest(m) | ApiError::Conflict(m) => m,
    }
}

#[test]
fn accepts_allowed_content_types_only() {
    assert!(validate_content_type("image/png").is_ok());
    assert!(validate_content_type("image/jpeg").is_ok());
    assert!(validate_content_type("image/webp").is_ok());
    assert!(validate_content_type("application/pdf").is_err());
}

#[test]
fn rejects_oversized_payload() {
    assert!(validate_evidence_size(MAX_EVIDENCE_BYTES).is_ok());
    assert!(validate_evidence_size(MAX_EVIDENCE_BYTES + 1).is_err());
}

#[test]
fn magic_bytes_must_match_declared_type() {
    let mut png_bytes = PNG_MAGIC.to_vec();
    png_bytes.extend_from_slice(b"rest of file");
    assert!(validate_magic_bytes("image/png", &png_bytes).is_ok());

    // A PDF (`%PDF`) renamed to declare image/png must be rejected.
    let fake = b"%PDF-1.4 not actually a png".to_vec();
    assert!(validate_magic_bytes("image/png", &fake).is_err());
}

#[test]
fn hash_is_deterministic_and_detects_tampering() {
    let original = b"screenshot-bytes-v1".to_vec();
    let tampered = b"screenshot-bytes-v2".to_vec();

    let hash_a = hash_evidence(&original);
    let hash_b = hash_evidence(&original);
    assert_eq!(hash_a, hash_b, "re-hashing identical bytes must match");

    let hash_tampered = hash_evidence(&tampered);
    assert_ne!(
        hash_a, hash_tampered,
        "re-hashing a modified file must produce a different digest"
    );
}

#[test]
fn object_key_is_namespaced_by_user_and_match() {
    let user_id = Uuid::from_u128(1);
    let match_id = Uuid::from_u128(2);
    let key = evidence_object_key(user_id.as_u128(), match_id.as_u128(), "image/png", "abc123");
    assert_eq!(key, format!("{user_id}/{match_id}/abc123.png"));
}

#[test]
fn upload_then_rehash_detects_tamper_in_store() {
    let mut objects: HashMap<String, Vec<u8>> = HashMap::new();
    let user_id = Uuid::from_u128(1);
    let match_id = Uuid::from_u128(2);
    let bytes = {
        let mut v = PNG_MAGIC.to_vec();
        v.extend_from_slice(b"original evidence");
        v
    };
    let hash_at_upload = hash_evidence(&bytes);
    let key = evidence_object_key(user_id.as_u128(), match_id.as_u128(), "image/png", &hash_at_upload);
    objects.insert(key.clone(), bytes.clone());

    // Honest re-read: hash still matches.
    let stored = objects.get(&key).cloned().unwrap();
    assert_eq!(hash_evidence(&stored), hash_at_upload);

    // Simulate an admin swapping the stored object in place.
    objects.insert(key.clone(), b"replaced file contents".to_vec());
    let tampered = objects.get(&key).cloned().unwrap();
    assert_ne!(
        hash_evidence(&tampered),
        hash_at_upload,
        "tamper must be detectable by re-hashing"
    );
}

// ─── Further cases ──────────────────────────────────────────────────────────

#[test]
fn allowed_content_type_list() {
    assert_eq!(ALLOWED_CONTENT_TYPES, ["image/png", "image/jpeg", "image/webp"]);
    assert_eq!(MAX_EVIDENCE_BYTES, 5_242_880);
}

#[test]
fn content_type_parameters_and_spaces_are_ignored() {
    assert!(validate_content_type("image/png; charset=binary").is_ok());
    assert!(validate_content_type("  image/jpeg  ").is_ok());
    assert!(validate_content_type("image/webp;").is_ok());
    assert!(validate_content_type("IMAGE/PNG").is_err());
    assert!(validate_content_type("").is_err());
}

#[test]
fn unsupported_content_type_message() {
    let e = validate_content_type(" application/pdf ; q=1").unwrap_err();
    assert!(matches!(e, ApiError::ValidationError(_)));
    assert_eq!(
        message(e),
        "Unsupported content type 'application/pdf'; expected one of: image/png, image/jpeg, image/webp"
    );
}

#[test]
fn oversized_message_names_both_sizes() {
    let e = validate_evidence_size(6_000_000).unwrap_err();
    assert!(matches!(e, ApiError::ValidationError(_)));
    assert_eq!(
        message(e),
        "Evidence file is 6000000 bytes, which exceeds the 5242880-byte limit"
    );
    assert!(validate_evidence_size(0).is_ok());
}

#[test]
fn magic_bytes_for_jpeg_and_webp() {
    assert!(validate_magic_bytes("image/jpeg", &[0xFF, 0xD8, 0xFF]).is_ok());
    assert!(validate_magic_bytes("image/jpeg", &[0xFF, 0xD8]).is_err());
    let mut webp = b"RIFF".to_vec();
    webp.extend_from_slice(&[1, 2, 3, 4]);
    webp.extend_from_slice(b"WEBP");
    assert!(validate_magic_bytes("image/webp", &webp).is_ok());
    let mut not_webp = b"RIFF".to_vec();
    not_webp.extend_from_slice(&[1, 2, 3, 4]);
    not_webp.extend_from_slice(b"WAVE");
    assert!(validate_magic_bytes("image/webp", &not_webp).is_err());
    assert!(validate_magic_bytes("image/webp", b"RIFF1234WEB").is_err());
    let e = validate_magic_bytes("application/pdf", b"%PDF").unwrap_err();
    assert_eq!(message(e), "File contents do not match the declared content type");
}

#[test]
fn hash_is_lower_case_hex_sha256() {
    assert_eq!(
        hash_evidence(b"abc"),
        "ba7816bf8f01cfea414140de5dae2223b00361a396177a9cb410ff61f20015ad"
    );
    assert_eq!(
        hash_evidence(b""),
        "e3b0c44298fc1c149afbf4c8996fb92427ae41e4649b934ca495991b7852b855"
    );
}

#[test]
fn extensions_follow_content_type() {
    assert_eq!(extension_for("image/png"), "png");
    assert_eq!(extension_for("image/jpeg; q=0.9"), "jpg");
    assert_eq!(extension_for("image/webp"), "webp");
    assert_eq!(extension_for("text/plain"), "bin");
}

#[test]
fn object_key_uses_hyphenated_ids() {
    let user = 0xa1a2a3a4b1b2c1c2d1d2d3d4d5d6d7d8u128;
    let key = evidence_object_key(user, 0, "image/webp", "ff");
    assert_eq!(
        key,
        "a1a2a3a4-b1b2-c1c2-d1d2-d3d4d5d6d7d8/00000000-0000-0000-0000-000000000000/ff.webp"
    );
}

#[test]
fn prepare_upload_checks_in_order_then_keys_by_hash() {
    let mut png = PNG_MAGIC.to_vec();
    png.extend_from_slice(b"pixels");
    let up = prepare_evidence_upload(1, 2, "image/png", &png).unwrap();
    assert_eq!(up.hash_hex, hash_evidence(&png));
    assert_eq!(up.object_key, evidence_object_key(1, 2, "image/png", &up.hash_hex));

    let e = prepare_evidence_upload(1, 2, "application/pdf", &png).unwrap_err();
    assert!(message(e).starts_with("Unsupported content type"));
    let big = vec![0u8; MAX_EVIDENCE_BYTES + 1];
    let e = prepare_evidence_upload(1, 2, "image/png", &big).unwrap_err();
    assert!(message(e).starts_with("Evidence file is"));
    let e = prepare_evidence_upload(1, 2, "image/jpeg", &png).unwrap_err();
    assert_eq!(message(e), "File contents do not match the declared content type");
}

#[test]
fn duplicate_upload_gets_the_same_key() {
    let mut png = PNG_MAGIC.to_vec();
    png.extend_from_slice(b"same");
    let a = prepare_evidence_upload(7, 8, "image/png", &png).unwrap();
    let b = prepare_evidence_upload(7, 8, "image/png", &png).unwrap();
    assert_eq!(a.object_key, b.object_key);
    let c = prepare_evidence_upload(9, 8, "image/png", &png).unwrap();
    assert_ne!(a.object_key, c.object_key);
}
