use meteoritus::{CometFile, Metadata, Meteoritus, MeteoritusHeaders, VaultError};

#[test]
fn defaults_match_the_protocol() {
    let m = Meteoritus::new().build().launch();
    assert_eq!(m.base_route(), "/meteoritus");
    assert_eq!(m.temp_path(), "./tmp/files");
    assert_eq!(m.max_size(), 5 * 1024 * 1024);
    assert!(m.auto_terminate());
}

#[test]
fn builder_options_are_kept() {
    let m = Meteoritus::new()
        .mount_to("/api/files")
        .with_temp_path("./tmp/uploads")
        .with_max_size(1024)
        .keep_on_disk()
        .build()
        .launch();
    assert_eq!(m.base_route(), "/api/files");
    assert_eq!(m.temp_path(), "./tmp/uploads");
    assert_eq!(m.max_size(), 1024);
    assert!(!m.auto_terminate());
}

#[test]
fn protocol_headers_render_joined() {
    let m = Meteoritus::new().with_max_size(1024).build().launch();
    assert_eq!(
        m.get_protocol_resumable_version().into_header(),
        ("Tus-Resumable".to_string(), "1.0.0".to_string())
    );
    assert_eq!(
        m.get_protocol_version().into_header(),
        ("Tus-Version".to_string(), "1.0.0".to_string())
    );
    assert_eq!(
        m.get_protocol_extensions().into_header(),
        ("Tus-Extension".to_string(), "creation,termination".to_string())
    );
    assert_eq!(
        m.get_protocol_max_size().into_header(),
        ("Tus-Max-Size".to_string(), "1024".to_string())
    );
}

#[test]
fn comma_join_of_many_values() {
    let h = MeteoritusHeaders::Version(vec!["1.0.0".to_string(), "0.2.2".to_string()]);
    assert_eq!(h.into_header().1, "1.0.0,0.2.2");
}

#[test]
fn comet_file_builder_and_offset_bound() {
    let mut f = CometFile::new(8)
        .with_raw_id("deadbeef".to_string())
        .with_metadata(Metadata::try_from("a Zm9v").unwrap());
    assert_eq!(f.id(), "deadbeef");
    assert_eq!(*f.length(), 8);
    assert_eq!(*f.offset(), 0);
    assert_eq!(f.metadata().as_ref().unwrap().len(), 1);
    assert!(f.set_offset(8).is_ok());
    assert_eq!(*f.offset(), 8);
    match f.set_offset(9) {
        Err(VaultError::OffsetExceedsLength) => {}
        other => panic!("expected OffsetExceedsLength, got {:?}", other),
    }
    assert_eq!(*f.offset(), 8);
}

#[test]
fn comet_file_uuid_id_is_32_hex_chars() {
    let f = CometFile::new(1).with_uuid();
    assert_eq!(f.id().len(), 32);
    assert!(f
        .id()
        .chars()
        .all(|c| c.is_ascii_digit() || ('a'..='f').contains(&c)));
}
