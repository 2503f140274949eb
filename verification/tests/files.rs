use noodle::file::{
    base64_decode, base64_encode, get_temp_file_name, sha1_digest, strip_tmp_suffix, to_hex, File,
    FileDescription, FileRow, Path,
};

#[test]
fn hex_encodes_lowercase_pairs() {
    assert_eq!(to_hex(&[]), "");
    assert_eq!(to_hex(&[0x00]), "00");
    assert_eq!(to_hex(&[0xbe, 0xef]), "beef");
    assert_eq!(to_hex(&[0x01, 0x23, 0x45, 0x67, 0x89, 0xab, 0xcd, 0xef]), "0123456789abcdef");
}

#[test]
fn path_joins_with_slash() {
    let p = Path::from_relative_path("/srv/media", "ab/cdef");
    assert_eq!(p.0, "/srv/media/ab/cdef");
}

#[test]
fn path_join_follows_push_rules() {
    // an absolute part replaces the base
    assert_eq!(Path::from_relative_path("media", "/x").0, "/x");
    // a base with a trailing separator gets no second one
    assert_eq!(Path::from_relative_path("media/", "x").0, "media/x");
    // an empty base contributes nothing
    assert_eq!(Path::from_relative_path("", "x").0, "x");
    // an empty part keeps the trailing separator the join would add
    assert_eq!(Path::from_relative_path("media", "").0, "media/");
}

#[test]
fn path_from_hash_splits_first_byte() {
    let p = Path::from_hash("/srv/media", &[0xab, 0x01, 0xff]);
    assert_eq!(p.0, "/srv/media/ab/01ff");
}

#[test]
fn path_from_file_row() {
    let row = FileRow {
        uid: 7,
        filename: String::from("logo.png"),
        mime_type: String::from("image/png"),
        location: String::from("ab/01ff"),
        created_at: 0,
        updated_at: 5,
    };
    let p = Path::from_file_row("/srv/media", &row);
    assert_eq!(p.0, "/srv/media/ab/01ff");
}

#[test]
fn temp_names_round_trip() {
    let temp = get_temp_file_name("ab/01ff");
    assert_eq!(temp, "ab/01ff.tmp");
    assert_eq!(strip_tmp_suffix(&temp), "ab/01ff");
}

#[test]
fn sha1_digest_known_value() {
    let digest = sha1_digest(b"abc");
    assert_eq!(digest.len(), 20);
    assert_eq!(to_hex(&digest), "a9993e364706816aba3e25717850c26c9cd0d89d");
}

#[test]
fn base64_round_trip_no_padding() {
    assert_eq!(base64_encode(b""), "");
    assert_eq!(base64_encode(b"hi"), "aGk");
    assert_eq!(base64_encode(b"hello"), "aGVsbG8");
    let decoded = base64_decode("aGVsbG8").expect("canonical text");
    assert_eq!(decoded, b"hello");
    // padded or junk text is not canonical for this engine
    assert!(base64_decode("aGVsbG8=").is_none());
    assert!(base64_decode("?!").is_none());
}

#[test]
fn file_description_needs_a_name() {
    let missing = FileDescription {
        filename: String::new(),
        mime_type: String::from("text/plain"),
        data: String::new(),
    };
    assert!(!missing.is_valid());
    let named = FileDescription {
        filename: String::from("notes.txt"),
        mime_type: String::from("text/plain"),
        data: String::new(),
    };
    assert!(named.is_valid());
}

#[test]
fn file_from_row_carries_fields() {
    let row = FileRow {
        uid: 9,
        filename: String::from("logo.png"),
        mime_type: String::from("image/png"),
        location: String::from("ab/01ff"),
        created_at: 1,
        updated_at: 2,
    };
    let f: File = noodle::file::file_from_row(&row, String::from("aGk"));
    assert_eq!(f.uid, 9);
    assert_eq!(f.filename, "logo.png");
    assert_eq!(f.mime_type, "image/png");
    assert_eq!(f.data, "aGk");
    assert_eq!(f.last_modified, 2);
}
