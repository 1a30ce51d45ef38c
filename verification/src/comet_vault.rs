//! The flat upload record, without lifecycle states.
//!
//! A `CometFile` carries the same bookkeeping as the staged record, in one
//! type: hosts with their own storage keep it next to the payload and move
//! the offset through [`CometFile::set_offset`], which enforces the bound.

use crate::metadata::Metadata;
use crate::vault::VaultError;
use vstd::prelude::*;

verus! {

/// The record of one upload, flat: identifier, promised length, stored
/// byte count, and the metadata mapping.
#[derive(Debug)]
pub struct CometFile {
    id: String,
    length: u64,
    offset: u64,
    metadata: Option<Metadata>,
}

impl CometFile {
    /// The identifier, as a character sequence.
    pub closed spec fn id_spec(&self) -> Seq<char> {
        self.id@
    }

    /// The promised total byte count.
    pub closed spec fn length_spec(&self) -> u64 {
        self.length
    }

    /// The byte count stored so far.
    pub closed spec fn offset_spec(&self) -> u64 {
        self.offset
    }

    /// The metadata mapping, if one was given.
    pub closed spec fn metadata_spec(&self) -> Option<Metadata> {
        self.metadata
    }

    /// The record invariant: never more bytes stored than promised.
    pub open spec fn wf(&self) -> bool {
        self.offset_spec() <= self.length_spec()
    }

    /// Starts a record for an upload of `length` bytes.
    pub fn new(length: u64) -> (r: CometFile)
        ensures
            r.id_spec().len() == 0,
            r.length_spec() == length,
            r.offset_spec() == 0,
            r.metadata_spec() is None,
            r.wf(),
    {
        CometFile { id: String::new(), length, offset: 0, metadata: None }
    }

    /// Assigns a fresh random identifier.
    pub fn with_uuid(self) -> (r: CometFile)
        ensures
            r.id_spec().len() == 32,
            r.length_spec() == self.length_spec(),
            r.offset_spec() == self.offset_spec(),
            r.metadata_spec() == self.metadata_spec(),
    {
        let id = crate::file_info::fresh_uuid_hex();
        self.with_raw_id(id)
    }

    /// Assigns `id` as the identifier.
    pub fn with_raw_id(self, id: String) -> (r: CometFile)
        ensures
            r.id_spec() == id@,
            r.length_spec() == self.length_spec(),
            r.offset_spec() == self.offset_spec(),
            r.metadata_spec() == self.metadata_spec(),
    {
        CometFile { id, length: self.length, offset: self.offset, metadata: self.metadata }
    }

    /// Attaches the parsed metadata mapping.
    pub fn with_metadata(self, metadata: Metadata) -> (r: CometFile)
        ensures
            r.metadata_spec() == Some(metadata),
            r.id_spec() == self.id_spec(),
            r.length_spec() == self.length_spec(),
            r.offset_spec() == self.offset_spec(),
    {
        CometFile {
            id: self.id,
            length: self.length,
            offset: self.offset,
            metadata: Some(metadata),
        }
    }

    /// Moves the stored-byte mark to `offset`.
    ///
    /// Fails with [`VaultError::OffsetExceedsLength`] when `offset` lies
    /// past the promised length; the record is then left unchanged.
    pub fn set_offset(&mut self, offset: u64) -> (r: Result<(), VaultError>)
        ensures
            final(self).id_spec() == old(self).id_spec(),
            final(self).length_spec() == old(self).length_spec(),
            final(self).metadata_spec() == old(self).metadata_spec(),
            offset > old(self).length_spec() ==> r == Err::<(), VaultError>(
                VaultError::OffsetExceedsLength,
            ) && final(self).offset_spec() == old(self).offset_spec(),
            offset <= old(self).length_spec() ==> r is Ok && final(self).offset_spec() == offset,
            old(self).wf() ==> final(self).wf(),
    {
        if offset > self.length {
            return Err(VaultError::OffsetExceedsLength);
        }
        self.offset = offset;
        Ok(())
    }

    /// The server-assigned identifier.
    pub fn id(&self) -> (r: &str)
        ensures
            r@ == self.id_spec(),
    {
        self.id.as_str()
    }

    /// The promised total byte count.
    pub fn length(&self) -> (r: &u64)
        ensures
            *r == self.length_spec(),
    {
        &self.length
    }

    /// The metadata mapping, if one was given.
    pub fn metadata(&self) -> (r: &Option<Metadata>)
        ensures
            *r == self.metadata_spec(),
    {
        &self.metadata
    }

    /// The byte count stored so far.
    pub fn offset(&self) -> (r: &u64)
        ensures
            *r == self.offset_spec(),
    {
        &self.offset
    }
}

} // verus!
