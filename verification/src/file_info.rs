//! The upload-resource record and its lifecycle.
//!
//! A `FileInfo` walks `Building -> Built -> Created -> Completed`, or from
//! `Created`/`Completed` to `Terminated`. The state is a phantom type
//! parameter, so an operation legal in only one state cannot be called in
//! another; every transition keeps `offset <= length`.

use crate::metadata::Metadata;
use crate::vault::VaultError;
use core::marker::PhantomData;
use vstd::prelude::*;

verus! {

/// The `FileInfo` state while its attributes are still being collected.
#[derive(Debug)]
pub struct Building;

/// The `FileInfo` state once its attributes are frozen, before allocation.
#[derive(Debug)]
pub struct Built;

/// The `FileInfo` state once the resource is allocated and accepts patches.
#[derive(Debug)]
pub struct Created;

/// The `FileInfo` state once `offset == length`; no further patch applies.
#[derive(Debug)]
pub struct Completed;

/// The `FileInfo` state after removal; future references fail.
#[derive(Debug)]
pub struct Terminated;

/// Whether `c` is a lowercase hexadecimal digit.
pub open spec fn is_hex_digit(c: char) -> bool {
    ('0' <= c && c <= '9') || ('a' <= c && c <= 'f')
}

/// Relies on uuid's `Uuid::new_v4` with the `Simple` formatter: a random
/// 128-bit identifier rendered as exactly 32 lowercase hexadecimal
/// characters. Nothing ties two calls together.
#[verifier::external_body]
pub(crate) fn fresh_uuid_hex() -> (r: String)
    ensures
        r@.len() == 32,
        forall|i: int| 0 <= i < r@.len() ==> is_hex_digit(#[trigger] r@[i]),
{
    uuid::Uuid::new_v4().simple().to_string()
}

/// The record of one upload resource.
///
/// `length` is the byte count the client promised, `offset` how many bytes
/// are stored so far, `metadata` the parsed `Upload-Metadata` mapping, and
/// `file_name` the backend handle once the resource is materialized.
#[derive(Debug)]
pub struct FileInfo<State> {
    id: String,
    file_name: String,
    length: u64,
    offset: u64,
    metadata: Option<Metadata>,
    state: PhantomData<State>,
}

impl<State> FileInfo<State> {
    /// The identifier, as a character sequence.
    pub closed spec fn id_spec(&self) -> Seq<char> {
        self.id@
    }

    /// The backend handle, as a character sequence.
    pub closed spec fn file_name_spec(&self) -> Seq<char> {
        self.file_name@
    }

    /// The promised total byte count.
    pub closed spec fn length_spec(&self) -> u64 {
        self.length
    }

    /// The byte count stored so far.
    pub closed spec fn offset_spec(&self) -> u64 {
        self.offset
    }

    /// The metadata mapping, if one was given.
    pub closed spec fn metadata_spec(&self) -> Option<Metadata> {
        self.metadata
    }

    /// The metadata mapping's entries, when one is present; two records
    /// whose mappings hold the same entries agree here.
    pub open spec fn metadata_pairs(&self) -> Option<Seq<(Seq<char>, Seq<char>)>> {
        match self.metadata_spec() {
            Some(m) => Some(m.pairs()),
            None => None,
        }
    }

    /// The record invariant: never more bytes stored than promised, and a
    /// well-formed metadata mapping when one is present.
    pub open spec fn wf(&self) -> bool {
        self.offset_spec() <= self.length_spec() && match self.metadata_spec() {
            Some(m) => m.wf(),
            None => true,
        }
    }

    /// Whether `other` carries the same record, regardless of its state.
    pub open spec fn same_record<S2>(&self, other: &FileInfo<S2>) -> bool {
        self.id_spec() == other.id_spec() && self.file_name_spec() == other.file_name_spec()
            && self.length_spec() == other.length_spec() && self.offset_spec()
            == other.offset_spec() && self.metadata_pairs() == other.metadata_pairs()
    }

    /// The server-assigned identifier.
    pub fn id(&self) -> (r: &str)
        ensures
            r@ == self.id_spec(),
    {
        self.id.as_str()
    }

    /// The promised total byte count.
    pub fn length(&self) -> (r: &u64)
        ensures
            *r == self.length_spec(),
    {
        &self.length
    }

    /// The metadata mapping, if one was given.
    pub fn metadata(&self) -> (r: &Option<Metadata>)
        ensures
            *r == self.metadata_spec(),
    {
        &self.metadata
    }
}

impl FileInfo<Building> {
    /// Starts collecting a record for an upload of `length` bytes.
    pub fn new(length: u64) -> (r: FileInfo<Building>)
        ensures
            r.id_spec().len() == 0,
            r.file_name_spec().len() == 0,
            r.length_spec() == length,
            r.offset_spec() == 0,
            r.metadata_spec() is None,
            r.wf(),
    {
        FileInfo {
            id: String::new(),
            file_name: String::new(),
            length,
            offset: 0,
            metadata: None,
            state: PhantomData,
        }
    }

    /// Assigns a fresh random identifier.
    pub fn with_uuid(self) -> (r: FileInfo<Building>)
        ensures
            r.id_spec().len() == 32,
            forall|i: int| 0 <= i < r.id_spec().len() ==> is_hex_digit(#[trigger] r.id_spec()[i]),
            r.file_name_spec() == self.file_name_spec(),
            r.length_spec() == self.length_spec(),
            r.offset_spec() == self.offset_spec(),
            r.metadata_spec() == self.metadata_spec(),
    {
        let id = fresh_uuid_hex();
        self.with_raw_id(id)
    }

    /// Assigns `id` as the identifier.
    pub fn with_raw_id(self, id: String) -> (r: FileInfo<Building>)
        ensures
            r.id_spec() == id@,
            r.file_name_spec() == self.file_name_spec(),
            r.length_spec() == self.length_spec(),
            r.offset_spec() == self.offset_spec(),
            r.metadata_spec() == self.metadata_spec(),
    {
        FileInfo {
            id,
            file_name: self.file_name,
            length: self.length,
            offset: self.offset,
            metadata: self.metadata,
            state: PhantomData,
        }
    }

    /// Attaches the parsed metadata mapping.
    pub fn with_metadata(self, metadata: Metadata) -> (r: FileInfo<Building>)
        ensures
            r.metadata_spec() == Some(metadata),
            r.id_spec() == self.id_spec(),
            r.file_name_spec() == self.file_name_spec(),
            r.length_spec() == self.length_spec(),
            r.offset_spec() == self.offset_spec(),
    {
        FileInfo {
            id: self.id,
            file_name: self.file_name,
            length: self.length,
            offset: self.offset,
            metadata: Some(metadata),
            state: PhantomData,
        }
    }

    /// Freezes the attributes; the identifier must have been assigned.
    pub fn build(self) -> (r: FileInfo<Built>)
        requires
            self.id_spec().len() > 0,
        ensures
            r.same_record(&self),
    {
        FileInfo {
            id: self.id,
            file_name: self.file_name,
            length: self.length,
            offset: self.offset,
            metadata: self.metadata,
            state: PhantomData,
        }
    }
}

impl FileInfo<Built> {
    /// Records the backend handle and moves to `Created`.
    pub fn mark_as_created(self, file_name: &str) -> (r: FileInfo<Created>)
        requires
            file_name@.len() > 0,
        ensures
            r.file_name_spec() == file_name@,
            r.id_spec() == self.id_spec(),
            r.length_spec() == self.length_spec(),
            r.offset_spec() == self.offset_spec(),
            r.metadata_spec() == self.metadata_spec(),
    {
        FileInfo {
            id: self.id,
            file_name: file_name.to_owned(),
            length: self.length,
            offset: self.offset,
            metadata: self.metadata,
            state: PhantomData,
        }
    }
}

impl FileInfo<Created> {
    /// A copy of the record, entry for entry.
    pub fn snapshot(&self) -> (r: FileInfo<Created>)
        ensures
            r.same_record(self),
            r.metadata_spec() is Some <==> self.metadata_spec() is Some,
            self.wf() ==> r.wf(),
    {
        FileInfo {
            id: self.id.clone(),
            file_name: self.file_name.clone(),
            length: self.length,
            offset: self.offset,
            metadata: match &self.metadata {
                Some(m) => Some(m.clone_map()),
                None => None,
            },
            state: PhantomData,
        }
    }

    /// The byte count stored so far.
    pub fn offset(&self) -> (r: &u64)
        ensures
            *r == self.offset_spec(),
    {
        &self.offset
    }

    /// Moves the stored-byte mark to `offset`.
    ///
    /// Fails with [`VaultError::OffsetExceedsLength`] when `offset` lies
    /// past the promised length; the record is then left unchanged.
    pub fn set_offset(&mut self, offset: u64) -> (r: Result<(), VaultError>)
        ensures
            offset > old(self).length_spec() ==> r == Err::<(), VaultError>(
                VaultError::OffsetExceedsLength,
            ) && final(self).same_record(old(self)),
            offset <= old(self).length_spec() ==> r is Ok && final(self).offset_spec() == offset
                && final(self).id_spec() == old(self).id_spec() && final(self).file_name_spec()
                == old(self).file_name_spec() && final(self).length_spec() == old(
                self,
            ).length_spec() && final(self).metadata_spec() == old(self).metadata_spec(),
            old(self).wf() ==> final(self).wf(),
    {
        if offset > self.length {
            return Err(VaultError::OffsetExceedsLength);
        }
        self.offset = offset;
        Ok(())
    }

    /// Moves to `Completed` when all promised bytes are stored; hands the
    /// record back unchanged otherwise.
    pub fn check_completion(self) -> (r: Option<FileInfo<Completed>>)
        ensures
            self.offset_spec() == self.length_spec() ==> (r matches Some(f) && f.same_record(
                &self,
            )),
            self.offset_spec() != self.length_spec() ==> r is None,
    {
        if self.offset != self.length {
            return None;
        }
        Some(
            FileInfo {
                id: self.id,
                file_name: self.file_name,
                length: self.length,
                offset: self.offset,
                metadata: self.metadata,
                state: PhantomData,
            },
        )
    }

    /// Moves to `Terminated` after the stored data is removed.
    pub fn terminate(self) -> (r: FileInfo<Terminated>)
        ensures
            r.same_record(&self),
    {
        FileInfo {
            id: self.id,
            file_name: self.file_name,
            length: self.length,
            offset: self.offset,
            metadata: self.metadata,
            state: PhantomData,
        }
    }
}

impl FileInfo<Completed> {
    /// Where the stored data lies.
    pub fn file_name(&self) -> (r: &String)
        ensures
            r@ == self.file_name_spec(),
    {
        &self.file_name
    }

    /// Moves to `Terminated` after the stored data is removed.
    pub fn terminate(self) -> (r: FileInfo<Terminated>)
        ensures
            r.same_record(&self),
    {
        FileInfo {
            id: self.id,
            file_name: self.file_name,
            length: self.length,
            offset: self.offset,
            metadata: self.metadata,
            state: PhantomData,
        }
    }
}

} // verus!
