use backend::digest::{hex_encode, hmac_sha256, sha256};
use backend::s3::{derive_signing_key, trim_end_matches_char, url_host, S3Location};

#[test]
fn hmac_matches_rfc_4231_case_2() {
    let mac = hmac_sha256(b"Jefe", b"what do ya want for nothing?");
    assert_eq!(
        hex_encode(&mac),
        "5bdcc146bf60754e6a042426089575c75a003f089d2739839dec58b964ec3843"
    );
}

#[test]
fn hmac_hashes_keys_longer_than_a_block() {
    // RFC 4231 test case 6: a 131-byte key of 0xaa.
    let key = vec![0xaau8; 131];
    let mac = hmac_sha256(&key, b"Test Using Larger Than Block-Size Key - Hash Key First");
    assert_eq!(
        hex_encode(&mac),
        "60e431591ee0b67f0d8a26aacbf5b77f8e0bc6213728c5140546040f0ee37f54"
    );
}

#[test]
fn signing_key_matches_aws_example() {
    let key = derive_signing_key(
        "wJalrXUtnFEMI/K7MDENG+bPxRfiCYEXAMPLEKEY",
        "20120215",
        "us-east-1",
        "iam",
    );
    assert_eq!(
        hex_encode(&key),
        "f4780e2d9f65fa895f9c67b32ce1baf0b0d8a43505a000a1a9e090d414db404d"
    );
}

#[test]
fn endpoint_loses_trailing_slashes() {
    assert_eq!(trim_end_matches_char("http://minio:9000//", '/'), "http://minio:9000");
    assert_eq!(trim_end_matches_char("///", '/'), "");
    let loc = S3Location::new("https://s3.example.com/", "evidence", "AKID", "SECRET");
    assert_eq!(loc.endpoint, "https://s3.example.com");
    assert_eq!(loc.region, "us-east-1");
    assert_eq!(loc.bucket, "evidence");
}

#[test]
fn host_is_between_scheme_and_path() {
    assert_eq!(url_host("http://minio:9000/bucket/key"), "minio:9000");
    assert_eq!(url_host("https://s3.example.com"), "s3.example.com");
    assert_eq!(url_host("no-scheme/bucket"), "");
    assert_eq!(url_host("a//b//c/d"), "b");
}

#[test]
fn signed_put_carries_sigv4_authorization() {
    let loc = S3Location::new("http://minio:9000/", "evidence", "AKID", "SECRET");
    let body = b"evidence bytes";
    let signed = loc.sign_put("u/m/h.png", "20240102T030405Z", "20240102", body);
    assert_eq!(signed.url, "http://minio:9000/evidence/u/m/h.png");
    assert_eq!(signed.host, "minio:9000");
    let payload_hash = hex_encode(&sha256(body));
    assert_eq!(signed.payload_hash, payload_hash);

    let canonical = format!(
        "PUT\n/evidence/u/m/h.png\n\nhost:minio:9000\nx-amz-content-sha256:{payload_hash}\nx-amz-date:20240102T030405Z\n\nhost;x-amz-content-sha256;x-amz-date\n{payload_hash}"
    );
    let to_sign = format!(
        "AWS4-HMAC-SHA256\n20240102T030405Z\n20240102/us-east-1/s3/aws4_request\n{}",
        hex_encode(&sha256(canonical.as_bytes()))
    );
    let key = derive_signing_key("SECRET", "20240102", "us-east-1", "s3");
    let signature = hex_encode(&hmac_sha256(&key, to_sign.as_bytes()));
    assert_eq!(
        signed.authorization,
        format!(
            "AWS4-HMAC-SHA256 Credential=AKID/20240102/us-east-1/s3/aws4_request, SignedHeaders=host;x-amz-content-sha256;x-amz-date, Signature={signature}"
        )
    );
}
