use meteoritus::handlers::{
    creation_build, creation_finish, file_info_handler, info_handler, termination_handler,
    upload_finish, upload_handler, CreationRequest, CreationResponder, FileInfoResponder,
    HttpResponse, TerminationResponder, UploadRequest, UploadResponder, UploadStep,
};
use meteoritus::meteoritus::Orbit;
use meteoritus::{MemoryVault, Meteoritus, Vault};

fn server() -> Meteoritus<Orbit> {
    Meteoritus::new().build().launch()
}

fn has_header(r: &HttpResponse, name: &str, value: &str) -> bool {
    r.headers.iter().any(|(n, v)| n == name && v == value)
}

fn post(vault: &mut MemoryVault, m: &Meteoritus<Orbit>, length: &str, metadata: Option<&str>) -> String {
    let req =
        CreationRequest::from_headers(Some("1.0.0"), Some(length), metadata, m.max_size()).unwrap();
    let file = match creation_build(vault, &req) {
        Ok(f) => f,
        Err(r) => panic!("creation_build failed: {:?}", r),
    };
    let (resp, created) = creation_finish(vault, m.base_route(), file, None);
    assert!(created.is_some());
    match resp {
        CreationResponder::Success(uri) => uri,
        other => panic!("expected a created resource, got {:?}", other),
    }
}

#[test]
fn happy_path_ten_bytes_in_two_chunks() {
    let m = server();
    let mut v = MemoryVault::new();
    let uri = post(&mut v, &m, "10", None);
    let id = uri.strip_prefix("/meteoritus/").unwrap().to_string();
    assert_eq!(id.len(), 32);

    let req = UploadRequest::from_headers(
        Some("1.0.0"),
        Some("0"),
        Some("application/offset+octet-stream"),
    )
    .unwrap();
    match upload_handler(&mut v, &id, req.offset, b"HELLO") {
        UploadStep::Done(UploadResponder::Success(5)) => {}
        other => panic!("expected offset 5, got {:?}", other),
    }
    let resp = UploadResponder::Success(5).respond();
    assert_eq!(resp.status, 204);
    assert!(has_header(&resp, "Upload-Offset", "5"));
    assert!(has_header(&resp, "Tus-Resumable", "1.0.0"));

    let completed = match upload_handler(&mut v, &id, 5, b"WORLD") {
        UploadStep::Completed(f) => f,
        other => panic!("expected completion, got {:?}", other),
    };
    assert_eq!(*completed.length(), 10);
    assert_eq!(v.read_data(&id).unwrap(), b"HELLOWORLD".to_vec());

    match upload_finish(&mut v, &id, 10, m.auto_terminate()) {
        UploadResponder::Success(10) => {}
        other => panic!("expected final offset 10, got {:?}", other),
    }
    match file_info_handler(&id, &v) {
        FileInfoResponder::Failure(404) => {}
        other => panic!("expected 404 after auto-terminate, got {:?}", other),
    }
}

#[test]
fn offset_conflict_answers_409_and_keeps_state() {
    let m = server();
    let mut v = MemoryVault::new();
    let uri = post(&mut v, &m, "10", None);
    let id = uri.strip_prefix("/meteoritus/").unwrap().to_string();
    upload_handler(&mut v, &id, 0, b"HELLO");
    match upload_handler(&mut v, &id, 3, b"X") {
        UploadStep::Done(UploadResponder::Failure(409)) => {}
        other => panic!("expected 409, got {:?}", other),
    }
    match file_info_handler(&id, &v) {
        FileInfoResponder::Success(f) => {
            assert_eq!(*f.offset(), 5);
            let resp = FileInfoResponder::Success(f).respond();
            assert_eq!(resp.status, 204);
            assert!(has_header(&resp, "Upload-Length", "10"));
            assert!(has_header(&resp, "Upload-Offset", "5"));
        }
        other => panic!("expected the record, got {:?}", other),
    }
    assert_eq!(v.read_data(&id).unwrap(), b"HELLO\0\0\0\0\0".to_vec());
}

#[test]
fn oversize_creation_answers_413() {
    let r = CreationRequest::from_headers(Some("1.0.0"), Some("2048"), None, 1024);
    match r {
        Err(e) => assert_eq!(e.status, 413),
        Ok(_) => panic!("expected a 413 rejection"),
    }
}

#[test]
fn metadata_survives_creation_verbatim() {
    let m = server();
    let mut v = MemoryVault::new();
    let req = CreationRequest::from_headers(
        Some("1.0.0"),
        Some("5"),
        Some("filename bXlfdmlkZW8ubXA0, filetype dmlkZW8vbXA0"),
        m.max_size(),
    )
    .unwrap();
    let file = creation_build(&v, &req).ok().unwrap();
    let md = file.metadata().as_ref().unwrap();
    assert_eq!(
        md.get("filename").map(|s| s.as_str()),
        Some("bXlfdmlkZW8ubXA0")
    );
    assert_eq!(md.get_raw("filename").unwrap().len(), 12);
    assert_eq!(
        std::str::from_utf8(&md.get_raw("filename").unwrap()),
        Ok("my_video.mp4")
    );
    let (resp, _) = creation_finish(&mut v, m.base_route(), file, None);
    let http = resp.respond();
    assert_eq!(http.status, 201);
    assert!(http
        .headers
        .iter()
        .any(|(n, val)| n == "Location" && val.starts_with("/meteoritus/")));
}

#[test]
fn missing_protocol_header_answers_400() {
    let r = UploadRequest::from_headers(None, Some("0"), Some("application/offset+octet-stream"));
    match r {
        Err(e) => assert_eq!(e.status, 400),
        Ok(_) => panic!("expected a 400 rejection"),
    }
    let r = CreationRequest::from_headers(None, Some("10"), None, 1024);
    match r {
        Err(e) => assert_eq!(e.status, 400),
        Ok(_) => panic!("expected a 400 rejection"),
    }
    let r = CreationRequest::from_headers(Some("0.9"), Some("10"), None, 1024);
    match r {
        Err(e) => assert_eq!(e.status, 400),
        Ok(_) => panic!("expected a 400 rejection"),
    }
}

#[test]
fn bad_upload_headers_are_rejected() {
    let r = UploadRequest::from_headers(Some("1.0.0"), None, Some("application/offset+octet-stream"));
    assert_eq!(r.err().map(|e| e.status), Some(400));
    let r = UploadRequest::from_headers(Some("1.0.0"), Some("x1"), Some("application/offset+octet-stream"));
    assert_eq!(r.err().map(|e| e.status), Some(400));
    let r = UploadRequest::from_headers(Some("1.0.0"), Some("0"), None);
    assert_eq!(r.err().map(|e| e.status), Some(400));
    let r = UploadRequest::from_headers(Some("1.0.0"), Some("0"), Some("text/plain"));
    assert_eq!(r.err().map(|e| e.status), Some(415));
    let r = UploadRequest::from_headers(Some("1.0.0"), Some("7"), Some("application/offset+octet-stream"));
    assert_eq!(r.ok().map(|u| u.offset), Some(7));
}

#[test]
fn terminate_twice_answers_204_then_410() {
    let m = server();
    let mut v = MemoryVault::new();
    let uri = post(&mut v, &m, "10", None);
    let id = uri.strip_prefix("/meteoritus/").unwrap().to_string();
    let (first, record) = termination_handler(&mut v, &id);
    assert!(record.is_some());
    assert_eq!(record.unwrap().id(), id);
    assert_eq!(first.respond().status, 204);
    let (second, record) = termination_handler(&mut v, &id);
    assert!(record.is_none());
    let http = second.respond();
    assert_eq!(http.status, 410);
    assert!(has_header(&http, "Tus-Resumable", "1.0.0"));
}

#[test]
fn discovery_answers_the_capabilities() {
    let m = server();
    let resp = info_handler().respond(m.max_size());
    assert_eq!(resp.status, 204);
    assert!(has_header(&resp, "Tus-Resumable", "1.0.0"));
    assert!(has_header(&resp, "Tus-Version", "1.0.0"));
    assert!(has_header(&resp, "Tus-Extension", "creation,termination"));
    assert!(has_header(&resp, "Tus-Max-Size", "5242880"));
}

#[test]
fn creation_callback_rejection_answers_422_and_persists_nothing() {
    let m = server();
    let mut v = MemoryVault::new();
    let req = CreationRequest::from_headers(Some("1.0.0"), Some("5"), None, m.max_size()).unwrap();
    let file = creation_build(&v, &req).ok().unwrap();
    let id = file.id().to_string();
    let (resp, created) =
        creation_finish(&mut v, m.base_route(), file, Some("metadata is required".to_string()));
    assert!(created.is_none());
    match resp {
        CreationResponder::Failure(422, msg) => assert_eq!(msg, "metadata is required"),
        other => panic!("expected a 422 rejection, got {:?}", other),
    }
    assert!(!v.has_file(&id));
}

#[test]
fn bad_metadata_on_creation_answers_500() {
    let v = MemoryVault::new();
    let req = CreationRequest {
        upload_length: 5,
        metadata: Some("fas bars foo bar".to_string()),
    };
    match creation_build(&v, &req) {
        Err(CreationResponder::Failure(500, _)) => {}
        other => panic!("expected a 500, got {:?}", other),
    }
}

#[test]
fn zero_length_upload_completes_without_bytes() {
    let m = server();
    let mut v = MemoryVault::new();
    let uri = post(&mut v, &m, "0", None);
    let id = uri.strip_prefix("/meteoritus/").unwrap().to_string();
    match upload_handler(&mut v, &id, 0, b"") {
        UploadStep::Completed(f) => assert_eq!(*f.length(), 0),
        other => panic!("expected completion, got {:?}", other),
    }
}

#[test]
fn oversized_patch_body_answers_422() {
    let m = server();
    let mut v = MemoryVault::new();
    let uri = post(&mut v, &m, "3", None);
    let id = uri.strip_prefix("/meteoritus/").unwrap().to_string();
    match upload_handler(&mut v, &id, 0, b"HELLO") {
        UploadStep::Done(UploadResponder::Failure(422)) => {}
        other => panic!("expected 422, got {:?}", other),
    }
    assert_eq!(v.read_data(&id).unwrap(), b"\0\0\0".to_vec());
}

#[test]
fn patch_on_unknown_id_answers_404() {
    let mut v = MemoryVault::new();
    match upload_handler(&mut v, "nobody", 0, b"x") {
        UploadStep::Done(UploadResponder::Failure(404)) => {}
        other => panic!("expected 404, got {:?}", other),
    }
}

#[test]
fn keep_on_disk_skips_auto_termination() {
    let m = Meteoritus::new().keep_on_disk().build().launch();
    assert!(!m.auto_terminate());
    let mut v = MemoryVault::new();
    let uri = post(&mut v, &m, "5", None);
    let id = uri.strip_prefix("/meteoritus/").unwrap().to_string();
    match upload_handler(&mut v, &id, 0, b"HELLO") {
        UploadStep::Completed(_) => {}
        other => panic!("expected completion, got {:?}", other),
    }
    match upload_finish(&mut v, &id, 5, m.auto_terminate()) {
        UploadResponder::Success(5) => {}
        other => panic!("expected 204 with offset 5, got {:?}", other),
    }
    assert!(v.has_file(&id));
    assert_eq!(v.read_data(&id).unwrap(), b"HELLO".to_vec());
}
