use meteoritus::vault::build_file;
use meteoritus::{FileInfo, MemoryVault, PatchOption, Vault, VaultError};

fn create(vault: &mut MemoryVault, id: &str, length: u64) {
    let file = FileInfo::new(length).with_raw_id(id.to_string()).build();
    vault.create_file(file).unwrap();
}

#[test]
fn create_then_exists_then_terminate() {
    let mut v = MemoryVault::new();
    assert!(!v.has_file("one"));
    create(&mut v, "one", 4);
    assert!(v.has_file("one"));
    let gone = v.terminate_file("one").unwrap();
    assert_eq!(gone.id(), "one");
    assert!(!v.has_file("one"));
}

#[test]
fn terminate_unknown_is_not_found() {
    let mut v = MemoryVault::new();
    create(&mut v, "one", 4);
    v.terminate_file("one").unwrap();
    match v.terminate_file("one") {
        Err(VaultError::NotFound) => {}
        other => panic!("expected NotFound, got {:?}", other),
    }
}

#[test]
fn create_twice_already_exists() {
    let mut v = MemoryVault::new();
    create(&mut v, "one", 4);
    let file = FileInfo::new(4).with_raw_id("one".to_string()).build();
    match v.create_file(file) {
        Err(VaultError::AlreadyExists) => {}
        other => panic!("expected AlreadyExists, got {:?}", other),
    }
}

#[test]
fn two_chunks_concatenate_exactly() {
    let mut v = MemoryVault::new();
    create(&mut v, "up", 10);
    match v.patch_file("up", b"HELLO", 0) {
        Ok(PatchOption::Patched(5)) => {}
        other => panic!("expected Patched(5), got {:?}", other),
    }
    match v.patch_file("up", b"WORLD", 5) {
        Ok(PatchOption::Completed(f)) => {
            assert_eq!(*f.length(), 10);
        }
        other => panic!("expected Completed, got {:?}", other),
    }
    assert_eq!(v.read_data("up").unwrap(), b"HELLOWORLD".to_vec());
}

#[test]
fn offset_mismatch_never_mutates() {
    let mut v = MemoryVault::new();
    create(&mut v, "up", 10);
    v.patch_file("up", b"HELLO", 0).unwrap();
    match v.patch_file("up", b"X", 3) {
        Err(VaultError::OffsetMismatch) => {}
        other => panic!("expected OffsetMismatch, got {:?}", other),
    }
    assert_eq!(*v.get_file("up").unwrap().offset(), 5);
    assert_eq!(v.read_data("up").unwrap(), b"HELLO\0\0\0\0\0".to_vec());
}

#[test]
fn oversized_buffer_rejected_before_writing() {
    let mut v = MemoryVault::new();
    create(&mut v, "small", 3);
    match v.patch_file("small", b"HELLO", 0) {
        Err(VaultError::WriteError(_)) => {}
        other => panic!("expected WriteError, got {:?}", other),
    }
    assert_eq!(*v.get_file("small").unwrap().offset(), 0);
    assert_eq!(v.read_data("small").unwrap(), b"\0\0\0".to_vec());
}

#[test]
fn zero_length_upload_completes_on_first_patch() {
    let mut v = MemoryVault::new();
    create(&mut v, "empty", 0);
    assert_eq!(*v.get_file("empty").unwrap().offset(), 0);
    match v.patch_file("empty", b"", 0) {
        Ok(PatchOption::Completed(f)) => {
            assert_eq!(*f.length(), 0);
        }
        other => panic!("expected Completed, got {:?}", other),
    }
    assert_eq!(v.read_data("empty").unwrap(), Vec::new());
}

#[test]
fn zero_byte_patch_at_full_offset_is_a_no_op() {
    let mut v = MemoryVault::new();
    create(&mut v, "done", 5);
    v.patch_file("done", b"HELLO", 0).unwrap();
    match v.patch_file("done", b"", 5) {
        Ok(PatchOption::Completed(f)) => {
            assert_eq!(*f.length(), 5);
        }
        other => panic!("expected Completed, got {:?}", other),
    }
    assert_eq!(v.read_data("done").unwrap(), b"HELLO".to_vec());
}

#[test]
fn patch_unknown_id_is_not_found() {
    let mut v = MemoryVault::new();
    match v.patch_file("ghost", b"x", 0) {
        Err(VaultError::NotFound) => {}
        other => panic!("expected NotFound, got {:?}", other),
    }
}

#[test]
fn get_file_reads_the_stored_record() {
    let mut v = MemoryVault::new();
    create(&mut v, "rec", 7);
    let f = v.get_file("rec").unwrap();
    assert_eq!(f.id(), "rec");
    assert_eq!(*f.length(), 7);
    assert_eq!(*f.offset(), 0);
    assert!(v.get_file("other").is_err());
}

#[test]
fn build_file_assigns_a_32_hex_char_id() {
    let f = build_file(5, None).unwrap();
    assert_eq!(f.id().len(), 32);
    assert!(f
        .id()
        .chars()
        .all(|c| c.is_ascii_digit() || ('a'..='f').contains(&c)));
    assert_eq!(*f.length(), 5);
    let m = f.metadata().as_ref().unwrap();
    assert_eq!(m.len(), 0);
}

#[test]
fn build_file_parses_the_metadata_header() {
    let f = build_file(5, Some("filename bXlfdmlkZW8ubXA0")).unwrap();
    let m = f.metadata().as_ref().unwrap();
    assert_eq!(m.len(), 1);
    assert_eq!(m.get("filename").map(|s| s.as_str()), Some("bXlfdmlkZW8ubXA0"));
    assert_eq!(
        std::str::from_utf8(&m.get_raw("filename").unwrap()),
        Ok("my_video.mp4")
    );
}

#[test]
fn build_file_rejects_a_bad_metadata_header() {
    match build_file(5, Some("fas bars foo bar")) {
        Err(VaultError::CreationError(_)) => {}
        other => panic!("expected CreationError, got {:?}", other),
    }
}

#[test]
fn set_offset_checks_the_bound() {
    let file = FileInfo::new(4).with_raw_id("x".to_string()).build();
    let mut v = MemoryVault::new();
    let created = v.create_file(file).unwrap();
    assert_eq!(*created.offset(), 0);
    let mut f = v.get_file("x").unwrap();
    assert!(f.set_offset(4).is_ok());
    assert_eq!(*f.offset(), 4);
    match f.set_offset(5) {
        Err(VaultError::OffsetExceedsLength) => {}
        other => panic!("expected OffsetExceedsLength, got {:?}", other),
    }
    assert_eq!(*f.offset(), 4);
}
