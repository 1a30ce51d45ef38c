use meteoritus::{Metadata, MetadataError};

fn value_of<'a>(m: &'a Metadata, key: &str) -> Option<&'a str> {
    m.get(key).map(|s| s.as_str())
}

#[test]
fn parses_three_pairs() {
    let m = Metadata::try_from("relativePath bnVsbA==, filetype dmlkZW8vbXA0,is_confidential")
        .unwrap();
    assert_eq!(m.len(), 3);
    assert_eq!(value_of(&m, "relativePath"), Some("bnVsbA=="));
    assert_eq!(value_of(&m, "filetype"), Some("dmlkZW8vbXA0"));
    assert_eq!(value_of(&m, "is_confidential"), Some(""));
}

#[test]
fn rejects_empty_header() {
    let r = Metadata::try_from("");
    assert!(r.is_err());
    assert_eq!(r.err(), Some(MetadataError::InvalidMetadataFormat));
}

#[test]
fn rejects_pair_with_more_than_two_tokens() {
    let r = Metadata::try_from("foobar, fas bars foo bar, ");
    assert!(r.is_err());
    assert_eq!(r.err(), Some(MetadataError::InvalidMetadataFormat));
}

#[test]
fn rejects_tab_separated_pair() {
    assert!(Metadata::try_from("key\tvalue").is_err());
}

#[test]
fn skips_empty_pairs() {
    let m = Metadata::try_from("a,,b , ,c").unwrap();
    assert_eq!(m.len(), 3);
    assert_eq!(value_of(&m, "a"), Some(""));
    assert_eq!(value_of(&m, "b"), Some(""));
    assert_eq!(value_of(&m, "c"), Some(""));
}

#[test]
fn later_pair_replaces_earlier_value() {
    let m = Metadata::try_from("a Zm9v, b YmFy, a YmF6").unwrap();
    assert_eq!(m.len(), 2);
    assert_eq!(value_of(&m, "a"), Some("YmF6"));
    assert_eq!(value_of(&m, "b"), Some("YmFy"));
}

#[test]
fn get_raw_decodes_values() {
    let m = Metadata::try_from("filetype dmlkZW8vbXA0, filename bXlfdmlkZW8ubXA0").unwrap();
    assert_eq!(m.get_raw("filetype"), Ok(b"video/mp4".to_vec()));
    assert_eq!(
        std::str::from_utf8(&m.get_raw("filename").unwrap()),
        Ok("my_video.mp4")
    );
    assert_eq!(m.get_raw("filename").unwrap().len(), 12);
    assert_eq!(m.get_raw("foo bar bars"), Err(MetadataError::InvalidKey));
}

#[test]
fn get_raw_reports_bad_base64() {
    let m = Metadata::try_from("broken !!!").unwrap();
    match m.get_raw("broken") {
        Err(MetadataError::DecodeError(_)) => {}
        other => panic!("expected a decode error, got {:?}", other),
    }
}

#[test]
fn get_raw_of_bare_key_is_empty() {
    let m = Metadata::try_from("flag").unwrap();
    assert_eq!(m.get_raw("flag"), Ok(Vec::new()));
}

#[test]
fn new_metadata_is_empty() {
    let m = Metadata::new();
    assert_eq!(m.len(), 0);
    assert!(m.is_empty());
}

#[test]
fn header_round_trip_preserves_entries() {
    let m = Metadata::try_from("filename bXlfdmlkZW8ubXA0, filetype dmlkZW8vbXA0,flag").unwrap();
    let header = m.to_header();
    assert_eq!(header, "filename bXlfdmlkZW8ubXA0,filetype dmlkZW8vbXA0,flag");
    let back = Metadata::try_from(&header).unwrap();
    assert_eq!(back.len(), 3);
    assert_eq!(value_of(&back, "filename"), Some("bXlfdmlkZW8ubXA0"));
    assert_eq!(value_of(&back, "filetype"), Some("dmlkZW8vbXA0"));
    assert_eq!(value_of(&back, "flag"), Some(""));
}

#[test]
fn whitespace_around_pairs_is_trimmed() {
    let m = Metadata::try_from("  a Zm9v ,\tb YmFy\t").unwrap();
    assert_eq!(m.len(), 2);
    assert_eq!(value_of(&m, "a"), Some("Zm9v"));
    assert_eq!(value_of(&m, "b"), Some("YmFy"));
}

#[test]
fn clone_map_copies_entries() {
    let m = Metadata::try_from("a Zm9v").unwrap();
    let c = m.clone_map();
    assert_eq!(c.len(), 1);
    assert_eq!(value_of(&c, "a"), Some("Zm9v"));
}
