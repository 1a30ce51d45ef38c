//! The tus protocol adapter.
//!
//! Each handler validates plain header values, drives one vault operation,
//! and describes the response to send: a status code, headers, and an
//! optional short body. The host server extracts the header values, feeds
//! them in, runs the registered callbacks where a handler says so, and
//! writes the response out. Every response carries `Tus-Resumable: 1.0.0`.

use crate::dec::{all_dec_digits, dec_digits, dec_value, parse_u64_dec, u64_to_dec};
use crate::file_info::{Built, Completed, Created, FileInfo, Terminated};
use crate::vault::{PatchOption, Vault, VaultError};
use vstd::prelude::*;
use vstd::string::StringExecFns;

verus! {

/// A response description: what the host server sends back.
#[derive(Debug)]
pub struct HttpResponse {
    /// The HTTP status code.
    pub status: u16,
    /// The response headers, in order.
    pub headers: Vec<(String, String)>,
    /// A short human-readable body, if any.
    pub body: Option<String>,
}

impl HttpResponse {
    /// Whether the response carries the header `name` with value `value`.
    pub open spec fn has_header(&self, name: Seq<char>, value: Seq<char>) -> bool {
        exists|i: int|
            0 <= i < self.headers@.len() && (#[trigger] self.headers@[i]).0@ == name
                && self.headers@[i].1@ == value
    }
}

/// Whether the `Tus-Resumable` header is present and exactly `1.0.0`.
pub open spec fn tus_ok(tus_resumable: Option<&str>) -> bool {
    tus_resumable matches Some(s) && s@ == "1.0.0"@
}

/// Whether a header value is a decimal number that fits an unsigned
/// 64-bit integer.
pub open spec fn u64_header_ok(h: Option<&str>) -> bool {
    h matches Some(s) && s@.len() > 0 && all_dec_digits(s@) && dec_value(s@) <= u64::MAX
}

/// The value of such a header.
pub open spec fn u64_header_value(h: Option<&str>) -> nat {
    dec_value(h->Some_0@)
}

/// An `Upload-Metadata` header normalized: an empty value counts as absent.
pub open spec fn norm_metadata(h: Option<&str>) -> Option<Seq<char>> {
    match h {
        None => None,
        Some(s) => if s@.len() == 0 {
            None
        } else {
            Some(s@)
        },
    }
}

/// The view of an optional owned string.
pub open spec fn opt_string_view(o: Option<String>) -> Option<Seq<char>> {
    match o {
        None => None,
        Some(s) => Some(s@),
    }
}

/// A request rejected during validation: the status to answer and a short
/// message.
#[derive(Debug)]
pub struct RequestError {
    /// The HTTP status code to answer.
    pub status: u16,
    /// What was wrong, in a short sentence.
    pub message: String,
}

/// A validated creation request: the promised length and the raw
/// `Upload-Metadata` header value, when one was sent.
#[derive(Debug)]
pub struct CreationRequest {
    /// The value of `Upload-Length`.
    pub upload_length: u64,
    /// The raw `Upload-Metadata` value; an empty header counts as absent.
    pub metadata: Option<String>,
}

impl CreationRequest {
    /// Validates the headers of a `POST` request: `Tus-Resumable` must be
    /// exactly `1.0.0` (else `400`), `Upload-Length` a decimal unsigned
    /// 64-bit count (else `400`) no greater than `max_size` (else `413`).
    pub fn from_headers(
        tus_resumable: Option<&str>,
        upload_length: Option<&str>,
        upload_metadata: Option<&str>,
        max_size: u64,
    ) -> (r: Result<CreationRequest, RequestError>)
        ensures
            !tus_ok(tus_resumable) ==> (r matches Err(e) && e.status == 400),
            tus_ok(tus_resumable) && !u64_header_ok(upload_length) ==> (r matches Err(e) && e.status
                == 400),
            tus_ok(tus_resumable) && u64_header_ok(upload_length) && u64_header_value(upload_length)
                > max_size ==> (r matches Err(e) && e.status == 413),
            tus_ok(tus_resumable) && u64_header_ok(upload_length) && u64_header_value(upload_length)
                <= max_size ==> (r matches Ok(req) && req.upload_length == u64_header_value(
                upload_length,
            ) && opt_string_view(req.metadata) == norm_metadata(upload_metadata)),
    {
        if !tus_header_valid(tus_resumable) {
            return Err(
                RequestError {
                    status: 400,
                    message: String::from_str("Missing or invalid Tus-Resumable header"),
                },
            );
        }
        let upload_length = match upload_length {
            None => {
                return Err(
                    RequestError {
                        status: 400,
                        message: String::from_str("Missing Upload-Length header"),
                    },
                );
            },
            Some(s) => match parse_u64_dec(s) {
                None => {
                    return Err(
                        RequestError {
                            status: 400,
                            message: String::from_str("Invalid Upload-Length header"),
                        },
                    );
                },
                Some(v) => v,
            },
        };
        if upload_length > max_size {
            return Err(
                RequestError {
                    status: 413,
                    message: String::from_str("Upload-Length exceeds the Tus-Max-Size"),
                },
            );
        }
        let metadata = match upload_metadata {
            None => None,
            Some(s) => {
                if s.is_empty() {
                    None
                } else {
                    Some(s.to_owned())
                }
            },
        };
        Ok(CreationRequest { upload_length, metadata })
    }
}

/// Whether the `Tus-Resumable` header is present and exactly `1.0.0`.
fn tus_header_valid(tus_resumable: Option<&str>) -> (r: bool)
    ensures
        r == tus_ok(tus_resumable),
{
    match tus_resumable {
        None => false,
        Some(s) => str_eq(s, "1.0.0"),
    }
}

/// Whether two strings hold the same characters.
fn str_eq(a: &str, b: &str) -> (r: bool)
    ensures
        r == (a@ == b@),
{
    let oa = a.to_owned();
    let ob = b.to_owned();
    oa.eq(&ob)
}

/// A validated upload (`PATCH`) request: the client's offset.
#[derive(Debug)]
pub struct UploadRequest {
    /// The value of `Upload-Offset`.
    pub offset: u64,
}

/// Whether the `Content-Type` header is `application/offset+octet-stream`.
pub open spec fn content_type_ok(h: Option<&str>) -> bool {
    h matches Some(s) && s@ == "application/offset+octet-stream"@
}

impl UploadRequest {
    /// Validates the headers of a `PATCH` request: `Tus-Resumable` must be
    /// exactly `1.0.0` (else `400`), `Upload-Offset` a decimal unsigned
    /// 64-bit count (else `400`), and `Content-Type` present (else `400`)
    /// and exactly `application/offset+octet-stream` (else `415`).
    pub fn from_headers(
        tus_resumable: Option<&str>,
        upload_offset: Option<&str>,
        content_type: Option<&str>,
    ) -> (r: Result<UploadRequest, RequestError>)
        ensures
            !tus_ok(tus_resumable) ==> (r matches Err(e) && e.status == 400),
            tus_ok(tus_resumable) && !u64_header_ok(upload_offset) ==> (r matches Err(e) && e.status
                == 400),
            tus_ok(tus_resumable) && u64_header_ok(upload_offset) && content_type is None ==> (
            r matches Err(e) && e.status == 400),
            tus_ok(tus_resumable) && u64_header_ok(upload_offset) && content_type is Some
                && !content_type_ok(content_type) ==> (r matches Err(e) && e.status == 415),
            tus_ok(tus_resumable) && u64_header_ok(upload_offset) && content_type_ok(content_type)
                ==> (r matches Ok(req) && req.offset == u64_header_value(upload_offset)),
    {
        if !tus_header_valid(tus_resumable) {
            return Err(
                RequestError {
                    status: 400,
                    message: String::from_str("Missing or invalid Tus-Resumable header"),
                },
            );
        }
        let offset = match upload_offset {
            None => {
                return Err(
                    RequestError {
                        status: 400,
                        message: String::from_str("Missing Upload-Offset header"),
                    },
                );
            },
            Some(s) => match parse_u64_dec(s) {
                None => {
                    return Err(
                        RequestError {
                            status: 400,
                            message: String::from_str("Invalid Upload-Offset header"),
                        },
                    );
                },
                Some(v) => v,
            },
        };
        match content_type {
            None => {
                return Err(
                    RequestError {
                        status: 400,
                        message: String::from_str("Missing Content-Type header"),
                    },
                );
            },
            Some(s) => {
                if !str_eq(s, "application/offset+octet-stream") {
                    return Err(
                        RequestError {
                            status: 415,
                            message: String::from_str("Invalid Content-Type header"),
                        },
                    );
                }
            },
        }
        Ok(UploadRequest { offset })
    }
}

/// One response header, name and value.
fn header(name: &str, value: String) -> (r: (String, String))
    ensures
        r.0@ == name@,
        r.1@ == value@,
{
    (name.to_owned(), value)
}

/// Answers the `OPTIONS` discovery request.
pub fn info_handler() -> (r: InfoResponder) {
    InfoResponder {  }
}

/// The discovery response: the server's capabilities.
#[derive(Debug)]
pub struct InfoResponder {}

impl InfoResponder {
    /// `204 No Content` with the protocol version, the supported
    /// extensions, and the configured maximum upload size.
    pub fn respond(self, max_size: u64) -> (r: HttpResponse)
        ensures
            r.status == 204,
            r.has_header("Tus-Resumable"@, "1.0.0"@),
            r.has_header("Tus-Version"@, "1.0.0"@),
            r.has_header("Tus-Extension"@, "creation,termination"@),
            r.has_header("Tus-Max-Size"@, dec_digits(max_size as nat)),
            r.body is None,
    {
        let mut headers: Vec<(String, String)> = Vec::new();
        headers.push(header("Tus-Resumable", String::from_str("1.0.0")));
        headers.push(header("Tus-Version", String::from_str("1.0.0")));
        headers.push(header("Tus-Extension", String::from_str("creation,termination")));
        headers.push(header("Tus-Max-Size", u64_to_dec(max_size)));
        let r = HttpResponse { status: 204, headers, body: None };
        proof {
            assert(r.headers@[0].0@ == "Tus-Resumable"@ && r.headers@[0].1@ == "1.0.0"@);
            assert(r.headers@[1].0@ == "Tus-Version"@ && r.headers@[1].1@ == "1.0.0"@);
            assert(r.headers@[2].0@ == "Tus-Extension"@ && r.headers@[2].1@
                == "creation,termination"@);
            assert(r.headers@[3].0@ == "Tus-Max-Size"@ && r.headers@[3].1@ == dec_digits(
                max_size as nat,
            ));
        }
        r
    }
}

/// What the creation handler answers: the new resource's URI, or a status
/// and a short message.
#[derive(Debug)]
pub enum CreationResponder {
    /// The upload was created; carries its URI.
    Success(String),
    /// The request was refused; carries the status and a short message.
    Failure(u16, String),
}

impl CreationResponder {
    /// `201 Created` with the `Location` of the new resource, or the
    /// failure status with its message as the body.
    pub fn respond(self) -> (r: HttpResponse)
        ensures
            r.has_header("Tus-Resumable"@, "1.0.0"@),
            self matches CreationResponder::Success(uri) ==> r.status == 201 && r.has_header(
                "Location"@,
                uri@,
            ) && r.body is None,
            self matches CreationResponder::Failure(status, msg) ==> r.status == status && (
            r.body matches Some(b) && b@ == msg@),
    {
        let mut headers: Vec<(String, String)> = Vec::new();
        headers.push(header("Tus-Resumable", String::from_str("1.0.0")));
        match self {
            CreationResponder::Success(uri) => {
                headers.push(header("Location", uri));
                let r = HttpResponse { status: 201, headers, body: None };
                proof {
                    assert(r.headers@[0].0@ == "Tus-Resumable"@ && r.headers@[0].1@ == "1.0.0"@);
                    assert(r.headers@[1].0@ == "Location"@);
                }
                r
            },
            CreationResponder::Failure(status, msg) => {
                let r = HttpResponse { status, headers, body: Some(msg) };
                proof {
                    assert(r.headers@[0].0@ == "Tus-Resumable"@ && r.headers@[0].1@ == "1.0.0"@);
                }
                r
            },
        }
    }
}

/// What the status (`HEAD`) handler answers.
#[derive(Debug)]
pub enum FileInfoResponder {
    /// The record was found; carries it.
    Success(FileInfo<Created>),
    /// The lookup failed; carries the status.
    Failure(u16),
}

impl FileInfoResponder {
    /// `204 No Content` with `Upload-Length` and `Upload-Offset`, or the
    /// failure status.
    pub fn respond(self) -> (r: HttpResponse)
        ensures
            r.has_header("Tus-Resumable"@, "1.0.0"@),
            r.body is None,
            self matches FileInfoResponder::Success(f) ==> r.status == 204 && r.has_header(
                "Upload-Length"@,
                dec_digits(f.length_spec() as nat),
            ) && r.has_header("Upload-Offset"@, dec_digits(f.offset_spec() as nat)),
            self matches FileInfoResponder::Failure(status) ==> r.status == status,
    {
        let mut headers: Vec<(String, String)> = Vec::new();
        headers.push(header("Tus-Resumable", String::from_str("1.0.0")));
        match self {
            FileInfoResponder::Success(f) => {
                headers.push(header("Upload-Length", u64_to_dec(*f.length())));
                headers.push(header("Upload-Offset", u64_to_dec(*f.offset())));
                let r = HttpResponse { status: 204, headers, body: None };
                proof {
                    assert(r.headers@[0].0@ == "Tus-Resumable"@ && r.headers@[0].1@ == "1.0.0"@);
                    assert(r.headers@[1].0@ == "Upload-Length"@);
                    assert(r.headers@[2].0@ == "Upload-Offset"@);
                }
                r
            },
            FileInfoResponder::Failure(status) => {
                let r = HttpResponse { status, headers, body: None };
                proof {
                    assert(r.headers@[0].0@ == "Tus-Resumable"@ && r.headers@[0].1@ == "1.0.0"@);
                }
                r
            },
        }
    }
}

/// What the upload (`PATCH`) handler answers.
#[derive(Debug)]
pub enum UploadResponder {
    /// Bytes were stored; carries the new offset.
    Success(u64),
    /// The request was refused; carries the status.
    Failure(u16),
}

impl UploadResponder {
    /// `204 No Content` with the new `Upload-Offset`, or the failure
    /// status.
    pub fn respond(self) -> (r: HttpResponse)
        ensures
            r.has_header("Tus-Resumable"@, "1.0.0"@),
            r.body is None,
            self matches UploadResponder::Success(o) ==> r.status == 204 && r.has_header(
                "Upload-Offset"@,
                dec_digits(o as nat),
            ),
            self matches UploadResponder::Failure(status) ==> r.status == status,
    {
        let mut headers: Vec<(String, String)> = Vec::new();
        headers.push(header("Tus-Resumable", String::from_str("1.0.0")));
        match self {
            UploadResponder::Success(o) => {
                headers.push(header("Upload-Offset", u64_to_dec(o)));
                let r = HttpResponse { status: 204, headers, body: None };
                proof {
                    assert(r.headers@[0].0@ == "Tus-Resumable"@ && r.headers@[0].1@ == "1.0.0"@);
                    assert(r.headers@[1].0@ == "Upload-Offset"@);
                }
                r
            },
            UploadResponder::Failure(status) => {
                let r = HttpResponse { status, headers, body: None };
                proof {
                    assert(r.headers@[0].0@ == "Tus-Resumable"@ && r.headers@[0].1@ == "1.0.0"@);
                }
                r
            },
        }
    }
}

/// Builds the record for a validated creation request; on a malformed
/// `Upload-Metadata` header, the `500` answer the adapter gives.
///
/// The host runs the registered creation callback on the returned record
/// and then calls [`creation_finish`] with the callback's verdict.
pub fn creation_build<V: Vault>(vault: &V, req: &CreationRequest) -> (r: Result<
    FileInfo<Built>,
    CreationResponder,
>)
    ensures
        r is Ok <==> (match req.metadata {
            Some(s) => crate::metadata::parse_spec(s@) is Some,
            None => true,
        }),
        r matches Ok(f) ==> {
            &&& f.length_spec() == req.upload_length
            &&& f.offset_spec() == 0
            &&& f.id_spec().len() == 32
            &&& f.wf()
            &&& (match req.metadata {
                None => (f.metadata_spec() matches Some(m) && m.pairs().len() == 0),
                Some(s) => (f.metadata_spec() matches Some(m)
                    && Some(m.pairs()) == crate::metadata::parse_spec(s@)),
            })
        },
        r matches Err(c) ==> (c matches CreationResponder::Failure(status, _) && status == 500),
{
    let md = match &req.metadata {
        Some(s) => Some(s.as_str()),
        None => None,
    };
    match vault.build_file(req.upload_length, md) {
        Ok(f) => Ok(f),
        Err(_) => Err(
            CreationResponder::Failure(500, String::from_str("creation error")),
        ),
    }
}

/// Persists a built record, unless the creation callback rejected it.
///
/// A rejection answers `422` with the callback's message and persists
/// nothing. Otherwise the record is stored and the answer carries the
/// resource URI `<base_route>/<id>`; the second component is the stored
/// record, for the host to pass to its post-creation callback.
pub fn creation_finish<V: Vault>(
    vault: &mut V,
    base_route: &str,
    file: FileInfo<Built>,
    rejection: Option<String>,
) -> (r: (CreationResponder, Option<FileInfo<Created>>))
    requires
        old(vault).inv(),
        file.wf(),
        file.id_spec().len() > 0,
        file.offset_spec() == 0,
    ensures
        final(vault).inv(),
        rejection matches Some(msg) ==> (r.0 matches CreationResponder::Failure(status, m) && status
            == 422 && m@ == msg@) && r.1 is None && final(vault).store() == old(vault).store(),
        rejection is None && old(vault).store().contains_key(file.id_spec()) ==> (
        r.0 matches CreationResponder::Failure(status, _) && status == 500) && r.1 is None && final(vault).store() == old(vault).store(),
        rejection is None && !old(vault).store().contains_key(file.id_spec()) ==> ((
        r.0 matches CreationResponder::Success(uri) && uri@ == base_route@ + "/"@ + file.id_spec()
            && (r.1 matches Some(f) && f.id_spec() == file.id_spec() && f.length_spec()
            == file.length_spec() && f.offset_spec() == 0 && f.metadata_pairs()
            == file.metadata_pairs() && final(vault).store().contains_key(file.id_spec()))) || ((
        r.0 matches CreationResponder::Failure(status, _) && status == 500) && r.1 is None && final(vault).store() == old(vault).store())),
{
    if let Some(msg) = rejection {
        return (CreationResponder::Failure(422, msg), None);
    }
    let mut uri = base_route.to_owned();
    uri.append("/");
    uri.append(file.id());
    proof {
        reveal_strlit("/");
    }
    match vault.create_file(file) {
        Ok(f) => (CreationResponder::Success(uri), Some(f)),
        Err(_) => (CreationResponder::Failure(500, String::from_str("vault error")), None),
    }
}

/// Answers the status (`HEAD`) request: the stored record, or `404`.
pub fn file_info_handler<V: Vault>(id: &str, vault: &V) -> (r: FileInfoResponder)
    requires
        vault.inv(),
    ensures
        vault.store().contains_key(id@) ==> (r matches FileInfoResponder::Success(f) && f.id_spec()
            == id@ && f.length_spec() == vault.store()[id@].length && f.offset_spec()
            == vault.store()[id@].offset && f.file_name_spec() == vault.store()[id@].file_name
            && f.metadata_pairs() == vault.store()[id@].metadata && f.wf()),
        !vault.store().contains_key(id@) ==> (r matches FileInfoResponder::Failure(status) && status
            == 404),
{
    match vault.get_file(id) {
        Ok(f) => FileInfoResponder::Success(f),
        Err(_) => FileInfoResponder::Failure(404),
    }
}

/// What one upload (`PATCH`) step decides: a finished answer, or a
/// completed upload whose callback the host must fire before calling
/// [`upload_finish`].
#[derive(Debug)]
pub enum UploadStep {
    /// The answer is ready.
    Done(UploadResponder),
    /// Every promised byte is stored; carries the completed record.
    Completed(FileInfo<Completed>),
}

/// The upload handler's contract, case by case: `404` for an unknown id,
/// `409` on an offset mismatch, `422` for an oversized buffer or a failed
/// write — none of which change the store beyond scratch space — and
/// otherwise a committed prefix of the buffer, completing the upload
/// exactly when the new offset reaches the promised length.
pub open spec fn upload_step_outcome(
    pre: Map<Seq<char>, crate::vault::StoredFile>,
    post: Map<Seq<char>, crate::vault::StoredFile>,
    id: Seq<char>,
    buf: Seq<u8>,
    offset: u64,
    r: UploadStep,
) -> bool {
    if !pre.contains_key(id) {
        (r matches UploadStep::Done(UploadResponder::Failure(s)) && s == 404) && post == pre
    } else if offset != pre[id].offset {
        (r matches UploadStep::Done(UploadResponder::Failure(s)) && s == 409) && post == pre
    } else if offset + buf.len() > pre[id].length {
        (r matches UploadStep::Done(UploadResponder::Failure(s)) && s == 422) && post == pre
    } else {
        match r {
            UploadStep::Done(UploadResponder::Success(o)) => exists|w: int|
                0 <= w <= buf.len() && #[trigger] crate::vault::patch_applied(
                    pre,
                    post,
                    id,
                    buf,
                    offset,
                    w,
                ) && o == offset + w && o < pre[id].length,
            UploadStep::Done(UploadResponder::Failure(s)) => s == 422
                && crate::vault::patch_rolled_back(pre, post, id),
            UploadStep::Completed(f) => exists|w: int|
                0 <= w <= buf.len() && #[trigger] crate::vault::patch_applied(
                    pre,
                    post,
                    id,
                    buf,
                    offset,
                    w,
                ) && offset + w == pre[id].length && f.id_spec() == id && f.length_spec()
                    == pre[id].length && f.offset_spec() == pre[id].length,
        }
    }
}

/// Stores a validated `PATCH` body at the client's offset.
pub fn upload_handler<V: Vault>(vault: &mut V, file_id: &str, offset: u64, body: &[u8]) -> (r:
    UploadStep)
    requires
        old(vault).inv(),
    ensures
        final(vault).inv(),
        upload_step_outcome(
            old(vault).store(),
            final(vault).store(),
            file_id@,
            body@,
            offset,
            r,
        ),
{
    match vault.patch_file(file_id, body, offset) {
        Ok(PatchOption::Patched(o)) => UploadStep::Done(UploadResponder::Success(o)),
        Ok(PatchOption::Completed(f)) => UploadStep::Completed(f),
        Err(VaultError::NotFound) => UploadStep::Done(UploadResponder::Failure(404)),
        Err(VaultError::OffsetMismatch) => UploadStep::Done(UploadResponder::Failure(409)),
        Err(_) => UploadStep::Done(UploadResponder::Failure(422)),
    }
}

/// Ends a completed upload: removes it when the host auto-terminates
/// completed uploads, and answers `204` with the final offset; a failed
/// removal answers `500`.
pub fn upload_finish<V: Vault>(
    vault: &mut V,
    file_id: &str,
    length: u64,
    auto_terminate: bool,
) -> (r: UploadResponder)
    requires
        old(vault).inv(),
    ensures
        final(vault).inv(),
        !auto_terminate ==> (r matches UploadResponder::Success(o) && o == length) && final(vault).store() == old(vault).store(),
        auto_terminate ==> ((r matches UploadResponder::Success(o) && o == length && old(vault).store().contains_key(file_id@) && final(vault).store() == old(vault).store().remove(
            file_id@,
        )) || ((r matches UploadResponder::Failure(s) && s == 500) && (final(vault).store() == old(vault).store() || final(vault).store() == old(vault).store().remove(file_id@)))),
{
    if auto_terminate {
        match vault.terminate_file(file_id) {
            Ok(_) => UploadResponder::Success(length),
            Err(_) => UploadResponder::Failure(500),
        }
    } else {
        UploadResponder::Success(length)
    }
}

/// Answers the termination (`DELETE`) request: removes the upload and
/// hands its last record back for the host's termination callback.
pub fn termination_handler<V: Vault>(vault: &mut V, id: &str) -> (r: (
    TerminationResponder,
    Option<FileInfo<Terminated>>,
))
    requires
        old(vault).inv(),
    ensures
        final(vault).inv(),
        !old(vault).store().contains_key(id@) ==> r.0 is Failure && r.1 is None && final(vault).store() == old(vault).store(),
        r.0 is Success <==> r.1 is Some,
        r.1 matches Some(f) ==> old(vault).store().contains_key(id@) && final(vault).store()
            == old(vault).store().remove(id@) && f.id_spec() == id@ && f.length_spec() == old(vault).store()[id@].length && f.offset_spec() == old(vault).store()[id@].offset
            && f.file_name_spec() == old(vault).store()[id@].file_name && f.metadata_pairs() == old(vault).store()[id@].metadata,
        r.0 is Failure ==> r.1 is None && (final(vault).store() == old(vault).store() || final(vault).store() == old(vault).store().remove(id@)),
{
    match vault.terminate_file(id) {
        Ok(f) => (TerminationResponder::Success, Some(f)),
        Err(_) => (TerminationResponder::Failure, None),
    }
}

/// What the termination (`DELETE`) handler answers.
#[derive(Debug)]
pub enum TerminationResponder {
    /// The upload was removed.
    Success,
    /// There was nothing to remove.
    Failure,
}

impl TerminationResponder {
    /// `204 No Content`, or `410 Gone` when nothing was removed.
    pub fn respond(self) -> (r: HttpResponse)
        ensures
            r.has_header("Tus-Resumable"@, "1.0.0"@),
            r.body is None,
            self is Success ==> r.status == 204,
            self is Failure ==> r.status == 410,
    {
        let mut headers: Vec<(String, String)> = Vec::new();
        headers.push(header("Tus-Resumable", String::from_str("1.0.0")));
        let status: u16 = match self {
            TerminationResponder::Success => 204,
            TerminationResponder::Failure => 410,
        };
        let r = HttpResponse { status, headers, body: None };
        proof {
            assert(r.headers@[0].0@ == "Tus-Resumable"@ && r.headers@[0].1@ == "1.0.0"@);
        }
        r
    }
}

} // verus!
