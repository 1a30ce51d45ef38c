//! The persistence abstraction.
//!
//! A vault stores, per identifier, the upload's record and its payload
//! bytes. The trait states the contract every backend must honour: what a
//! successful creation, patch or termination does to the store, and that a
//! mismatched offset or an oversized buffer leaves it untouched.

use crate::file_info::{Built, Completed, Created, FileInfo, Terminated};
use crate::metadata::{parse_spec, Metadata};
use vstd::prelude::*;

verus! {

/// An error from a vault operation.
#[derive(Debug)]
pub enum VaultError {
    /// Storage could not be allocated or the record persisted.
    CreationError(String),
    /// The identifier is already allocated.
    AlreadyExists,
    /// The stored record cannot be read back.
    ReadError(String),
    /// No upload lives under the identifier.
    NotFound,
    /// The client's offset does not match the stored offset.
    OffsetMismatch,
    /// An offset past the promised length was rejected.
    OffsetExceedsLength,
    /// The payload could not be written.
    WriteError(String),
}

/// What a successful patch returns: the new offset, or the completed
/// record once every promised byte is stored.
#[derive(Debug)]
pub enum PatchOption {
    /// Bytes were appended; the upload is not complete yet.
    Patched(u64),
    /// The upload reached its promised length.
    Completed(FileInfo<Completed>),
}

/// What a vault stores under one identifier: the record's attributes and
/// the payload, preallocated to exactly `length` bytes.
pub struct StoredFile {
    /// The promised total byte count.
    pub length: u64,
    /// The byte count stored so far.
    pub offset: u64,
    /// The backend handle of the payload.
    pub file_name: Seq<char>,
    /// The metadata entries, if a mapping was given.
    pub metadata: Option<Seq<(Seq<char>, Seq<char>)>>,
    /// The payload bytes, all `length` of them.
    pub data: Seq<u8>,
}

/// Every stored record is internally consistent: no more bytes stored than
/// promised, the payload preallocated to the promised length, and a
/// well-formed metadata mapping.
pub open spec fn store_wf(m: Map<Seq<char>, StoredFile>) -> bool {
    forall|k: Seq<char>|
        #[trigger] m.contains_key(k) ==> m[k].offset <= m[k].length && m[k].data.len()
            == m[k].length && (m[k].metadata matches Some(md) ==> crate::metadata::wf_entries(md))
}

/// The payload after writing the first `w` bytes of `buf` at `at`.
pub open spec fn spliced(data: Seq<u8>, at: int, buf: Seq<u8>, w: int) -> Seq<u8> {
    data.take(at) + buf.take(w) + data.skip(at + w)
}

/// What the store looks like after a patch wrote the first `w` bytes of
/// `buf` at offset `client_offset` of the upload `id`.
pub open spec fn patch_applied(
    pre: Map<Seq<char>, StoredFile>,
    post: Map<Seq<char>, StoredFile>,
    id: Seq<char>,
    buf: Seq<u8>,
    client_offset: u64,
    w: int,
) -> bool {
    post == pre.insert(
        id,
        StoredFile {
            length: pre[id].length,
            offset: (client_offset + w) as u64,
            file_name: pre[id].file_name,
            metadata: pre[id].metadata,
            data: spliced(pre[id].data, client_offset as int, buf, w),
        },
    )
}

/// What a failed write may leave behind: the record and every byte below
/// the stored offset untouched; bytes past it are scratch space anyway.
pub open spec fn patch_rolled_back(
    pre: Map<Seq<char>, StoredFile>,
    post: Map<Seq<char>, StoredFile>,
    id: Seq<char>,
) -> bool {
    &&& post.dom() == pre.dom()
    &&& forall|k: Seq<char>| #[trigger] pre.contains_key(k) && k != id ==> post[k] == pre[k]
    &&& post[id].length == pre[id].length
    &&& post[id].offset == pre[id].offset
    &&& post[id].file_name == pre[id].file_name
    &&& post[id].metadata == pre[id].metadata
    &&& post[id].data.len() == pre[id].data.len()
    &&& post[id].data.take(pre[id].offset as int) == pre[id].data.take(pre[id].offset as int)
}

/// The full patch contract, §-by-§: an unknown id, a mismatched offset and
/// an oversized buffer never mutate the store; otherwise either some prefix
/// of the buffer was committed — completing the upload exactly when the new
/// offset reaches the promised length — or a write error rolled back.
pub open spec fn patch_outcome(
    pre: Map<Seq<char>, StoredFile>,
    post: Map<Seq<char>, StoredFile>,
    id: Seq<char>,
    buf: Seq<u8>,
    client_offset: u64,
    r: Result<PatchOption, VaultError>,
) -> bool {
    if !pre.contains_key(id) {
        r == Err::<PatchOption, VaultError>(VaultError::NotFound) && post == pre
    } else if client_offset != pre[id].offset {
        r == Err::<PatchOption, VaultError>(VaultError::OffsetMismatch) && post == pre
    } else if client_offset + buf.len() > pre[id].length {
        (r matches Err(e) && e is WriteError) && post == pre
    } else {
        match r {
            Ok(p) => exists|w: int|
                0 <= w <= buf.len() && #[trigger] patch_applied(
                    pre,
                    post,
                    id,
                    buf,
                    client_offset,
                    w,
                ) && (match p {
                    PatchOption::Patched(o) => o == client_offset + w && o < pre[id].length,
                    PatchOption::Completed(c) => {
                        &&& client_offset + w == pre[id].length
                        &&& c.id_spec() == id
                        &&& c.length_spec() == pre[id].length
                        &&& c.offset_spec() == pre[id].length
                        &&& c.file_name_spec() == pre[id].file_name
                        &&& c.metadata_pairs() == pre[id].metadata
                    },
                }),
            Err(e) => e is WriteError && patch_rolled_back(pre, post, id),
        }
    }
}

/// A persistence backend for uploads.
///
/// `store()` is the backend's abstract content: the uploads it can serve,
/// by identifier. `inv()` is whatever internal well-formedness the backend
/// maintains; every operation preserves it.
pub trait Vault: Sized {
    /// The uploads the vault can serve, by identifier; what an unverified
    /// backend serves is its own business, so nothing is modelled for it
    /// unless it says otherwise.
    open spec fn store(&self) -> Map<Seq<char>, StoredFile> {
        Map::empty()
    }

    /// The backend's internal well-formedness.
    open spec fn inv(&self) -> bool {
        true
    }

    /// Runs the metadata codec and builds a frozen record with a fresh
    /// random identifier; no storage is touched.
    fn build_file(&self, length: u64, metadata: Option<&str>) -> (r: Result<
        FileInfo<Built>,
        VaultError,
    >)
        ensures
            r is Ok <==> (metadata matches Some(s) ==> parse_spec(s@) is Some),
            r matches Ok(f) ==> {
                &&& f.length_spec() == length
                &&& f.offset_spec() == 0
                &&& f.id_spec().len() == 32
                &&& f.wf()
                &&& (match metadata {
                    None => (f.metadata_spec() matches Some(m) && m.pairs().len() == 0),
                    Some(s) => (f.metadata_spec() matches Some(m) && Some(m.pairs()) == parse_spec(
                        s@,
                    )),
                })
            },
            r matches Err(e) ==> e is CreationError,
    ;

    /// Allocates storage for a frozen record: the payload preallocated to
    /// `length` zero bytes, the record persisted, the handle filled in.
    fn create_file(&mut self, file: FileInfo<Built>) -> (r: Result<FileInfo<Created>, VaultError>)
        requires
            old(self).inv(),
            file.wf(),
            file.id_spec().len() > 0,
            file.offset_spec() == 0,
        ensures
            final(self).inv(),
            old(self).store().contains_key(file.id_spec()) ==> r == Err::<
                FileInfo<Created>,
                VaultError,
            >(VaultError::AlreadyExists) && final(self).store() == old(self).store(),
            r matches Ok(f) ==> {
                &&& !old(self).store().contains_key(file.id_spec())
                &&& f.id_spec() == file.id_spec()
                &&& f.length_spec() == file.length_spec()
                &&& f.offset_spec() == 0
                &&& f.metadata_pairs() == file.metadata_pairs()
                &&& f.file_name_spec().len() > 0
                &&& final(self).store() == old(self).store().insert(
                    file.id_spec(),
                    StoredFile {
                        length: file.length_spec(),
                        offset: 0,
                        file_name: f.file_name_spec(),
                        metadata: file.metadata_pairs(),
                        data: Seq::new(file.length_spec() as nat, |i: int| 0u8),
                    },
                )
            },
            r is Err ==> final(self).store() == old(self).store(),
    ;

    /// Whether an upload lives under `file_id`.
    fn has_file(&self, file_id: &str) -> (r: bool)
        requires
            self.inv(),
        ensures
            r == self.store().contains_key(file_id@),
    ;

    /// Loads the record stored under `file_id`.
    fn get_file(&self, file_id: &str) -> (r: Result<FileInfo<Created>, VaultError>)
        requires
            self.inv(),
        ensures
            r is Ok <==> self.store().contains_key(file_id@),
            r matches Ok(f) ==> {
                let s = self.store()[file_id@];
                &&& f.id_spec() == file_id@
                &&& f.length_spec() == s.length
                &&& f.offset_spec() == s.offset
                &&& f.file_name_spec() == s.file_name
                &&& f.metadata_pairs() == s.metadata
                &&& f.wf()
            },
    ;

    /// Writes `buf` into the upload `file_id` at `offset`, which must equal
    /// the stored offset; see [`patch_outcome`] for the full contract.
    fn patch_file(&mut self, file_id: &str, buf: &[u8], offset: u64) -> (r: Result<
        PatchOption,
        VaultError,
    >)
        requires
            old(self).inv(),
        ensures
            final(self).inv(),
            patch_outcome(
                old(self).store(),
                final(self).store(),
                file_id@,
                buf@,
                offset,
                r,
            ),
    ;

    /// Removes the upload `file_id` and hands back its last record.
    fn terminate_file(&mut self, file_id: &str) -> (r: Result<FileInfo<Terminated>, VaultError>)
        requires
            old(self).inv(),
        ensures
            final(self).inv(),
            !old(self).store().contains_key(file_id@) ==> r == Err::<
                FileInfo<Terminated>,
                VaultError,
            >(VaultError::NotFound) && final(self).store() == old(self).store(),
            r matches Ok(f) ==> {
                let s = old(self).store()[file_id@];
                &&& old(self).store().contains_key(file_id@)
                &&& final(self).store() == old(self).store().remove(file_id@)
                &&& f.id_spec() == file_id@
                &&& f.length_spec() == s.length
                &&& f.offset_spec() == s.offset
                &&& f.file_name_spec() == s.file_name
                &&& f.metadata_pairs() == s.metadata
            },
            r is Err ==> final(self).store() == old(self).store() || final(self).store() == old(
                self,
            ).store().remove(file_id@),
    ;
}

/// What one successful, fully-committed patch at the current offset does
/// to a stored upload.
pub open spec fn patch_step(f: StoredFile, chunk: Seq<u8>) -> StoredFile {
    StoredFile {
        length: f.length,
        offset: (f.offset + chunk.len()) as u64,
        file_name: f.file_name,
        metadata: f.metadata,
        data: spliced(f.data, f.offset as int, chunk, chunk.len() as int),
    }
}

/// A run of successful patches, each at the then-current offset.
pub open spec fn run_patches(f: StoredFile, chunks: Seq<Seq<u8>>) -> StoredFile
    decreases chunks.len(),
{
    if chunks.len() == 0 {
        f
    } else {
        run_patches(patch_step(f, chunks.first()), chunks.drop_first())
    }
}

/// The byte count of a run of patches.
pub open spec fn total_len(chunks: Seq<Seq<u8>>) -> nat
    decreases chunks.len(),
{
    if chunks.len() == 0 {
        0
    } else {
        chunks.first().len() + total_len(chunks.drop_first())
    }
}

/// What a run of patches stores: each one advances the offset by its byte
/// count, and the bytes stored up to the final offset are what stood there
/// already followed by the patch bodies, concatenated in order. In
/// particular, an upload created empty and patched to completion holds
/// exactly the concatenation of the patch bodies.
pub proof fn lemma_patches_concatenate(f: StoredFile, chunks: Seq<Seq<u8>>)
    requires
        f.data.len() == f.length,
        f.offset + total_len(chunks) <= f.length,
    ensures
        run_patches(f, chunks).length == f.length,
        run_patches(f, chunks).data.len() == f.length,
        run_patches(f, chunks).offset == f.offset + total_len(chunks),
        run_patches(f, chunks).data.take(f.offset + total_len(chunks)) == f.data.take(
            f.offset as int,
        ) + chunks.flatten(),
    decreases chunks.len(),
{
    if chunks.len() == 0 {
        assert(f.data.take(f.offset as int) + chunks.flatten() =~= f.data.take(f.offset as int));
    } else {
        let c = chunks.first();
        let f1 = patch_step(f, c);
        assert(f1.data.len() == f.length) by {
            assert(f1.data =~= f.data.take(f.offset as int) + c + f.data.skip(
                f.offset + c.len(),
            ));
        }
        lemma_patches_concatenate(f1, chunks.drop_first());
        assert(f1.data.take(f1.offset as int) =~= f.data.take(f.offset as int) + c) by {
            assert(c.take(c.len() as int) =~= c);
        }
        assert(f1.data.take(f1.offset as int) + chunks.drop_first().flatten() =~= f.data.take(
            f.offset as int,
        ) + chunks.flatten());
    }
}

/// A committed patch keeps every stored record within its bounds: the new
/// offset stays at or below the promised length, and the payload keeps its
/// preallocated size.
pub proof fn lemma_patch_preserves_bounds(
    pre: Map<Seq<char>, StoredFile>,
    post: Map<Seq<char>, StoredFile>,
    id: Seq<char>,
    buf: Seq<u8>,
    client_offset: u64,
    w: int,
)
    requires
        store_wf(pre),
        pre.contains_key(id),
        client_offset == pre[id].offset,
        client_offset + buf.len() <= pre[id].length,
        0 <= w <= buf.len(),
        patch_applied(pre, post, id, buf, client_offset, w),
    ensures
        store_wf(post),
{
    assert forall|k: Seq<char>| #[trigger] post.contains_key(k) implies post[k].offset
        <= post[k].length && post[k].data.len() == post[k].length && (
    post[k].metadata matches Some(md) ==> crate::metadata::wf_entries(md)) by {
        if k == id {
            assert(post[id].data =~= pre[id].data.take(client_offset as int) + buf.take(w)
                + pre[id].data.skip(client_offset + w));
            assert(post[id].data.len() == pre[id].data.len());
        } else {
            assert(pre.contains_key(k) && post[k] == pre[k]);
        }
    }
}

/// After a successful creation the upload is served: `has_file` answers
/// true on its identifier.
pub proof fn lemma_create_then_exists(pre: Map<Seq<char>, StoredFile>, id: Seq<char>, f: StoredFile)
    ensures
        pre.insert(id, f).contains_key(id),
{
}

/// After a successful termination the upload is gone: `has_file` answers
/// false on its identifier.
pub proof fn lemma_terminate_then_absent(pre: Map<Seq<char>, StoredFile>, id: Seq<char>)
    ensures
        !pre.remove(id).contains_key(id),
{
}

/// Builds a frozen record for an upload of `length` bytes: parses the
/// metadata header when one is given (an absent header yields an empty
/// mapping), and assigns a fresh random identifier.
pub fn build_file(length: u64, metadata: Option<&str>) -> (r: Result<FileInfo<Built>, VaultError>)
    ensures
        r is Ok <==> (metadata matches Some(s) ==> parse_spec(s@) is Some),
        r matches Ok(f) ==> {
            &&& f.length_spec() == length
            &&& f.offset_spec() == 0
            &&& f.id_spec().len() == 32
            &&& f.file_name_spec().len() == 0
            &&& f.wf()
            &&& (match metadata {
                None => (f.metadata_spec() matches Some(m) && m.pairs().len() == 0),
                Some(s) => (f.metadata_spec() matches Some(m) && Some(m.pairs()) == parse_spec(s@)),
            })
        },
        r matches Err(e) ==> e is CreationError,
{
    let md = match metadata {
        Some(s) => match Metadata::try_from(s) {
            Ok(m) => m,
            Err(_) => {
                return Err(
                    VaultError::CreationError(String::from_str("invalid metadata header")),
                );
            },
        },
        None => Metadata::new(),
    };
    let file_info = FileInfo::new(length).with_uuid().with_metadata(md).build();
    Ok(file_info)
}

} // verus!
