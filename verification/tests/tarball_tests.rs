use hex_ingest::tarball::{UnpackError, unpack};
use hex_ingest::term::Value;
use sha2::Digest;

fn build_tar(entries: &[(&str, &[u8])]) -> Vec<u8> {
    let mut b = tar::Builder::new(Vec::new());
    for (name, data) in entries {
        let mut h = tar::Header::new_gnu();
        h.set_size(data.len() as u64);
        b.append_data(&mut h, name, *data).unwrap();
    }
    b.into_inner().unwrap()
}

const META: &[u8] = b"{<<\"name\">>,<<\"demo\">>}.\n{<<\"version\">>,<<\"1.0.0\">>}.\n";

#[test]
fn valid_archive_unpacks() {
    let data = build_tar(&[
        ("VERSION", b"3"),
        ("CHECKSUM", b"deadbeef"),
        ("metadata.config", META),
        ("contents.tar.gz", b"payload-bytes"),
    ]);
    let u = unpack(&data).unwrap();
    assert_eq!(u.checksum.len(), 32);
    assert_eq!(u.metadata.len(), 2);
    assert!(matches!(&u.metadata[0], Value::Tuple(items) if items.len() == 2));
    assert_eq!(u.contents.as_deref(), Some(&b"payload-bytes"[..]));
}

#[test]
fn version_byte_four_is_unsupported() {
    let data = build_tar(&[("VERSION", b"4"), ("metadata.config", META)]);
    let err = unpack(&data).unwrap_err();
    assert!(matches!(err, UnpackError::UnsupportedVersion(b'4')));
}

#[test]
fn missing_metadata_entry_is_rejected() {
    let data = build_tar(&[("VERSION", b"3")]);
    let err = unpack(&data).unwrap_err();
    assert!(matches!(err, UnpackError::MissingMetadata));
}

#[test]
fn missing_version_entry_is_rejected() {
    let data = build_tar(&[("metadata.config", META)]);
    let err = unpack(&data).unwrap_err();
    assert!(matches!(err, UnpackError::MissingVersion));
}

#[test]
fn empty_version_entry_is_rejected() {
    let data = build_tar(&[("VERSION", b""), ("metadata.config", META)]);
    let err = unpack(&data).unwrap_err();
    assert!(matches!(err, UnpackError::EmptyVersion));
}

#[test]
fn invalid_utf8_metadata_is_rejected() {
    let data = build_tar(&[("VERSION", b"3"), ("metadata.config", &[0xff, 0xfe, 0x00])]);
    let err = unpack(&data).unwrap_err();
    assert!(matches!(err, UnpackError::InvalidUtf8));
}

#[test]
fn unparsable_metadata_is_rejected() {
    let data = build_tar(&[("VERSION", b"3"), ("metadata.config", b"{.")]);
    let err = unpack(&data).unwrap_err();
    assert!(matches!(err, UnpackError::Metadata(_)));
}

#[test]
fn digest_is_deterministic() {
    let data = build_tar(&[("VERSION", b"3"), ("metadata.config", META)]);
    let data_again = data.clone();
    let u1 = unpack(&data).unwrap();
    let u2 = unpack(&data_again).unwrap();
    assert_eq!(u1.checksum, u2.checksum);

    // And it is the digest of the exact bytes supplied.
    let expected = sha2::Sha256::digest(&data).to_vec();
    assert_eq!(u1.checksum, expected);

    // A different stream digests differently.
    let other = build_tar(&[("VERSION", b"3"), ("metadata.config", b"{a,b}.\n")]);
    let u3 = unpack(&other).unwrap();
    assert_ne!(u1.checksum, u3.checksum);
}

#[test]
fn entry_order_does_not_matter_for_version() {
    // The version entry may stand after other entries; it is still honoured.
    let data = build_tar(&[("metadata.config", META), ("VERSION", b"3")]);
    let u = unpack(&data).unwrap();
    assert_eq!(u.metadata.len(), 2);

    let data = build_tar(&[("metadata.config", META), ("VERSION", b"9")]);
    let err = unpack(&data).unwrap_err();
    assert!(matches!(err, UnpackError::UnsupportedVersion(b'9')));
}

#[test]
fn garbage_bytes_hold_no_entries() {
    let err = unpack(&b"not a tar archive at all".to_vec()).unwrap_err();
    assert!(matches!(err, UnpackError::MissingVersion));
}
