use adblock::data_format::{
    adblock_rust_pkg_version, deserialize_dat_file, serialize_dat_file, DeserializationError,
    HEADER_PREFIX_LENGTH,
};

#[test]
fn serialize_deserialize_test() {
    let data = b"test";
    let serialized = serialize_dat_file(data);
    let deserialized = deserialize_dat_file(&serialized).unwrap();
    assert_eq!(data.as_slice(), deserialized.data);
    assert!(deserialized.crate_version_matches);
    assert_eq!(
        &serialized[HEADER_PREFIX_LENGTH - 16..HEADER_PREFIX_LENGTH],
        adblock_rust_pkg_version().as_slice()
    );
}

#[test]
fn crate_version_mismatch_still_returns_data() {
    let data = b"test";
    let mut serialized = serialize_dat_file(data);
    serialized[HEADER_PREFIX_LENGTH - 1] ^= 1;
    let deserialized = deserialize_dat_file(&serialized).unwrap();
    assert!(!deserialized.crate_version_matches);
    assert_eq!(data.as_slice(), deserialized.data);
}

#[test]
fn corrupted_data_test() {
    let data = b"test";
    let serialized = serialize_dat_file(data);
    let mut corrupted_serialized = serialized.clone();
    corrupted_serialized[HEADER_PREFIX_LENGTH] = 0;
    assert!(matches!(
        deserialize_dat_file(&corrupted_serialized),
        Err(DeserializationError::BadChecksum { .. })
    ));
}

#[test]
fn header_layout_and_checksum() {
    let data = b"abc";
    let serialized = serialize_dat_file(data);
    assert_eq!(serialized.len(), HEADER_PREFIX_LENGTH + 3);
    assert_eq!(&serialized[0..4], &[0xd1, 0xd9, 0x3a, 0xaf]);
    assert_eq!(serialized[4], 8);
    assert_eq!(&serialized[5..13], &seahash::hash(data).to_le_bytes());
    assert_eq!(&serialized[13..18], b"0.1.0");
    assert_eq!(&serialized[HEADER_PREFIX_LENGTH..], data);

    let mut corrupted = serialized.clone();
    corrupted[HEADER_PREFIX_LENGTH + 1] = b'x';
    match deserialize_dat_file(&corrupted) {
        Err(DeserializationError::BadChecksum { expected, actual }) => {
            assert_eq!(expected, seahash::hash(data).to_le_bytes());
            assert_eq!(actual, seahash::hash(b"axc").to_le_bytes());
        }
        _ => panic!("expected a bad checksum"),
    }
}

#[test]
fn bad_headers_and_versions() {
    assert_eq!(deserialize_dat_file(b"short").unwrap_err(), DeserializationError::BadHeader);
    let mut serialized = serialize_dat_file(b"data");
    serialized[0] = 0;
    assert_eq!(deserialize_dat_file(&serialized).unwrap_err(), DeserializationError::BadHeader);
    let mut serialized = serialize_dat_file(b"data");
    serialized[4] = 7;
    assert_eq!(deserialize_dat_file(&serialized).unwrap_err(), DeserializationError::VersionMismatch(7));
    let empty = serialize_dat_file(b"");
    assert_eq!(deserialize_dat_file(&empty).unwrap().data, b"");
}
