//! An in-process vault, verified against the full [`Vault`] contract.
//!
//! Payloads live in memory, preallocated to their promised length and
//! written in place; the record is the source of truth for the offset.
//! Hosts that persist uploads on disk keep the same contract and reuse the
//! record transitions; this vault is the reference every caller can hold
//! them to, and what the protocol handlers are verified against.

use crate::file_info::{Built, Created, FileInfo, Terminated};
use crate::vault::{
    build_file, patch_applied, spliced, PatchOption, StoredFile, Vault, VaultError,
};
use vstd::prelude::*;
use vstd::string::StringExecFns;

verus! {

/// One upload held in memory: its record and its payload.
struct StoredEntry {
    info: FileInfo<Created>,
    data: Vec<u8>,
}

/// The abstract content of one entry.
spec fn stored_of(e: StoredEntry) -> StoredFile {
    StoredFile {
        length: e.info.length_spec(),
        offset: e.info.offset_spec(),
        file_name: e.info.file_name_spec(),
        metadata: e.info.metadata_pairs(),
        data: e.data@,
    }
}

/// One entry's well-formedness: a consistent record with a non-empty
/// identifier and handle, and the payload preallocated to the promised
/// length.
spec fn entry_wf(e: StoredEntry) -> bool {
    &&& e.info.wf()
    &&& e.info.id_spec().len() > 0
    &&& e.info.file_name_spec().len() > 0
    &&& e.data@.len() == e.info.length_spec()
}

/// The entry list's well-formedness: every entry well formed, identifiers
/// distinct.
spec fn entries_wf(es: Seq<StoredEntry>) -> bool {
    (forall|i: int| 0 <= i < es.len() ==> entry_wf(#[trigger] es[i])) && (forall|i: int, j: int|
        0 <= i < j < es.len() ==> (#[trigger] es[i]).info.id_spec() != (
        #[trigger] es[j]).info.id_spec())
}

/// The mapping an entry list denotes.
spec fn mem_store(es: Seq<StoredEntry>) -> Map<Seq<char>, StoredFile>
    decreases es.len(),
{
    if es.len() == 0 {
        Map::empty()
    } else {
        mem_store(es.drop_last()).insert(es.last().info.id_spec(), stored_of(es.last()))
    }
}

/// Index of the entry with identifier `id`, or `es.len()` when absent.
spec fn index_of_id(es: Seq<StoredEntry>, id: Seq<char>) -> int
    decreases es.len(),
{
    if es.len() == 0 {
        0
    } else if es[0].info.id_spec() == id {
        0
    } else {
        1 + index_of_id(es.drop_first(), id)
    }
}

/// Where `index_of_id` points: the first entry with the identifier, if any.
proof fn lemma_index_of_id_props(es: Seq<StoredEntry>, id: Seq<char>)
    ensures
        0 <= index_of_id(es, id) <= es.len(),
        index_of_id(es, id) < es.len() ==> es[index_of_id(es, id)].info.id_spec() == id,
        forall|j: int|
            0 <= j < index_of_id(es, id) && j < es.len() ==> (#[trigger] es[j]).info.id_spec()
                != id,
    decreases es.len(),
{
    if es.len() > 0 && es[0].info.id_spec() != id {
        lemma_index_of_id_props(es.drop_first(), id);
        assert forall|j: int|
            0 <= j < index_of_id(es, id) && j < es.len() implies (#[trigger] es[j]).info.id_spec()
            != id by {
            if j > 0 {
                assert(es.drop_first()[j - 1] == es[j]);
            }
        }
    }
}

/// A list whose entries lack identifier `id` denotes a mapping without it.
proof fn lemma_mem_store_fresh(es: Seq<StoredEntry>, id: Seq<char>)
    requires
        forall|i: int| 0 <= i < es.len() ==> (#[trigger] es[i]).info.id_spec() != id,
    ensures
        !mem_store(es).contains_key(id),
    decreases es.len(),
{
    if es.len() > 0 {
        let front = es.drop_last();
        assert(forall|i: int| 0 <= i < front.len() ==> #[trigger] front[i] == es[i]);
        lemma_mem_store_fresh(front, id);
        assert(es[es.len() - 1].info.id_spec() != id);
    }
}

/// How a well-formed entry list and the mapping it denotes correspond.
proof fn lemma_mem_store_props(es: Seq<StoredEntry>)
    requires
        entries_wf(es),
    ensures
        forall|i: int|
            0 <= i < es.len() ==> mem_store(es).contains_key(
                (#[trigger] es[i]).info.id_spec(),
            ) && mem_store(es)[es[i].info.id_spec()] == stored_of(es[i]),
        forall|k: Seq<char>|
            #[trigger] mem_store(es).contains_key(k) ==> 0 <= index_of_id(es, k) < es.len() && es[
                index_of_id(es, k)
            ].info.id_spec() == k,
    decreases es.len(),
{
    if es.len() > 0 {
        let front = es.drop_last();
        let last = es.last();
        assert(forall|i: int| 0 <= i < front.len() ==> #[trigger] front[i] == es[i]);
        assert(entries_wf(front)) by {
            assert forall|i: int, j: int|
                0 <= i < j < front.len() implies (#[trigger] front[i]).info.id_spec() != (
            #[trigger] front[j]).info.id_spec() by {
                assert(front[i] == es[i] && front[j] == es[j]);
            }
        }
        lemma_mem_store_props(front);
        assert forall|i: int|
            0 <= i < es.len() implies mem_store(es).contains_key(
            (#[trigger] es[i]).info.id_spec()) && mem_store(es)[es[i].info.id_spec()] == stored_of(
            es[i],
        ) by {
            if i < es.len() - 1 {
                assert(front[i] == es[i]);
                assert(mem_store(front).contains_key(front[i].info.id_spec()));
                assert(es[i].info.id_spec() != es[es.len() - 1].info.id_spec());
            }
        }
        assert forall|k: Seq<char>| #[trigger] mem_store(es).contains_key(k) implies 0
            <= index_of_id(es, k) < es.len() && es[index_of_id(es, k)].info.id_spec() == k by {
            lemma_index_of_id_props(es, k);
            let iok = index_of_id(es, k);
            if k == last.info.id_spec() {
                assert(es[es.len() - 1].info.id_spec() == k);
                if iok == es.len() {
                    assert(es[es.len() - 1].info.id_spec() != k);
                }
            } else {
                assert(mem_store(front).contains_key(k));
                let idx = index_of_id(front, k);
                assert(0 <= idx < front.len() && front[idx].info.id_spec() == k);
                assert(front[idx] == es[idx]);
                assert(es[idx].info.id_spec() == k);
                if iok == es.len() {
                    assert(es[idx].info.id_spec() != k);
                }
            }
        }
    }
}

/// Replacing an entry under the same identifier updates the mapping there.
proof fn lemma_mem_store_update(es: Seq<StoredEntry>, i: int, e: StoredEntry)
    requires
        entries_wf(es),
        0 <= i < es.len(),
        e.info.id_spec() == es[i].info.id_spec(),
    ensures
        mem_store(es.update(i, e)) == mem_store(es).insert(e.info.id_spec(), stored_of(e)),
    decreases es.len(),
{
    let front = es.drop_last();
    let last = es.last();
    assert(forall|j: int| 0 <= j < front.len() ==> #[trigger] front[j] == es[j]);
    assert(entries_wf(front)) by {
        assert forall|a: int, b: int|
            0 <= a < b < front.len() implies (#[trigger] front[a]).info.id_spec() != (
        #[trigger] front[b]).info.id_spec() by {
            assert(front[a] == es[a] && front[b] == es[b]);
        }
    }
    if i == es.len() - 1 {
        assert(es.update(i, e).drop_last() =~= front);
        assert(es.update(i, e).last() == e);
        assert(mem_store(es.update(i, e)) == mem_store(front).insert(
            e.info.id_spec(),
            stored_of(e),
        ));
        assert(mem_store(es).insert(e.info.id_spec(), stored_of(e)) =~= mem_store(front).insert(
            e.info.id_spec(),
            stored_of(e),
        ));
    } else {
        assert(es[i].info.id_spec() != es[es.len() - 1].info.id_spec());
        assert(es.update(i, e).drop_last() =~= front.update(i, e));
        assert(es.update(i, e).last() == last);
        lemma_mem_store_update(front, i, e);
        assert(mem_store(es.update(i, e)) == mem_store(front).insert(
            e.info.id_spec(),
            stored_of(e),
        ).insert(last.info.id_spec(), stored_of(last)));
        assert(mem_store(es).insert(e.info.id_spec(), stored_of(e)) =~= mem_store(front).insert(
            e.info.id_spec(),
            stored_of(e),
        ).insert(last.info.id_spec(), stored_of(last)));
    }
}

/// Removing an entry removes exactly its identifier from the mapping.
proof fn lemma_mem_store_remove(es: Seq<StoredEntry>, i: int)
    requires
        entries_wf(es),
        0 <= i < es.len(),
    ensures
        mem_store(es.remove(i)) == mem_store(es).remove(es[i].info.id_spec()),
    decreases es.len(),
{
    let front = es.drop_last();
    let last = es.last();
    assert(forall|j: int| 0 <= j < front.len() ==> #[trigger] front[j] == es[j]);
    assert(entries_wf(front)) by {
        assert forall|a: int, b: int|
            0 <= a < b < front.len() implies (#[trigger] front[a]).info.id_spec() != (
        #[trigger] front[b]).info.id_spec() by {
            assert(front[a] == es[a] && front[b] == es[b]);
        }
    }
    if i == es.len() - 1 {
        assert(es.remove(i) =~= front);
        assert(forall|j: int|
            0 <= j < front.len() ==> (#[trigger] front[j]).info.id_spec() != last.info.id_spec());
        lemma_mem_store_fresh(front, last.info.id_spec());
        assert(mem_store(es).remove(last.info.id_spec()) =~= mem_store(front));
    } else {
        assert(es.remove(i).drop_last() =~= front.remove(i));
        assert(es.remove(i).last() == last);
        lemma_mem_store_remove(front, i);
        assert(es[i].info.id_spec() != last.info.id_spec());
        assert(mem_store(es.remove(i)) == mem_store(front).remove(es[i].info.id_spec()).insert(
            last.info.id_spec(),
            stored_of(last),
        ));
        assert(mem_store(es).remove(es[i].info.id_spec()) =~= mem_store(front).remove(
            es[i].info.id_spec(),
        ).insert(last.info.id_spec(), stored_of(last)));
    }
}

/// The in-memory vault: a list of uploads with distinct identifiers.
pub struct MemoryVault {
    entries: Vec<StoredEntry>,
}

impl MemoryVault {
    /// An empty vault.
    pub fn new() -> (r: MemoryVault)
        ensures
            r.inv(),
            r.store() == Map::<Seq<char>, StoredFile>::empty(),
    {
        let r = MemoryVault { entries: Vec::new() };
        proof {
            assert(r.entries@.len() == 0);
        }
        r
    }

    /// The payload bytes stored under `file_id`, if it is stored; how a
    /// host reads a completed upload out of this vault.
    pub fn read_data(&self, file_id: &str) -> (r: Option<Vec<u8>>)
        requires
            self.inv(),
        ensures
            r is Some <==> self.store().contains_key(file_id@),
            r matches Some(d) ==> d@ == self.store()[file_id@].data,
    {
        match self.find_entry(file_id) {
            None => None,
            Some(i) => {
                proof {
                    lemma_mem_store_props(self.entries@);
                }
                Some(vstd::slice::slice_to_vec(self.entries[i].data.as_slice()))
            },
        }
    }

    /// Index of the upload `file_id`, if it is stored.
    fn find_entry(&self, file_id: &str) -> (r: Option<usize>)
        requires
            self.inv(),
        ensures
            r matches Some(i) ==> i < self.entries@.len() && self.entries@[i as int].info.id_spec()
                == file_id@ && self.store().contains_key(file_id@),
            r is None ==> !self.store().contains_key(file_id@),
    {
        let key = file_id.to_owned();
        let n = self.entries.len();
        let mut i: usize = 0;
        while i < n
            invariant
                0 <= i <= n == self.entries@.len(),
                key@ == file_id@,
                self.inv(),
                forall|j: int|
                    0 <= j < i ==> (#[trigger] self.entries@[j]).info.id_spec() != file_id@,
            decreases n - i,
        {
            let id = self.entries[i].info.id().to_owned();
            if id.eq(&key) {
                proof {
                    lemma_mem_store_props(self.entries@);
                }
                return Some(i);
            }
            i = i + 1;
        }
        proof {
            lemma_mem_store_fresh(self.entries@, file_id@);
        }
        None
    }
}

impl Vault for MemoryVault {
    closed spec fn store(&self) -> Map<Seq<char>, StoredFile> {
        mem_store(self.entries@)
    }

    closed spec fn inv(&self) -> bool {
        entries_wf(self.entries@)
    }

    fn build_file(&self, length: u64, metadata: Option<&str>) -> (r: Result<
        FileInfo<Built>,
        VaultError,
    >) {
        build_file(length, metadata)
    }

    fn create_file(&mut self, file: FileInfo<Built>) -> (r: Result<
        FileInfo<Created>,
        VaultError,
    >)
        ensures
            !old(self).store().contains_key(file.id_spec()) && file.length_spec() <= usize::MAX
                ==> r is Ok,
    {
        if self.find_entry(file.id()).is_some() {
            return Err(VaultError::AlreadyExists);
        }
        let length = *file.length();
        if length > usize::MAX as u64 {
            return Err(VaultError::CreationError(String::from_str("length exceeds memory")));
        }
        let n = length as usize;
        let mut data: Vec<u8> = Vec::new();
        let mut j: usize = 0;
        while j < n
            invariant
                0 <= j <= n,
                data@ =~= Seq::new(j as nat, |k: int| 0u8),
            decreases n - j,
        {
            data.push(0u8);
            proof {
                assert(data@ =~= Seq::new((j + 1) as nat, |k: int| 0u8));
            }
            j = j + 1;
        }
        let mut loc = String::from_str("mem://");
        proof {
            reveal_strlit("mem://");
        }
        loc.append(file.id());
        let info = file.mark_as_created(loc.as_str());
        let out = info.snapshot();
        let ghost old_entries = self.entries@;
        let entry = StoredEntry { info, data };
        proof {
            lemma_mem_store_props(old_entries);
            if exists|i: int|
                0 <= i < old_entries.len() && (#[trigger] old_entries[i]).info.id_spec()
                    == entry.info.id_spec() {
                let i = choose|i: int|
                    0 <= i < old_entries.len() && (#[trigger] old_entries[i]).info.id_spec()
                        == entry.info.id_spec();
                assert(mem_store(old_entries).contains_key(old_entries[i].info.id_spec()));
                assert(false);
            }
        }
        self.entries.push(entry);
        proof {
            assert(self.entries@.drop_last() =~= old_entries);
            assert(self.entries@.last() == entry);
            assert(entries_wf(self.entries@)) by {
                assert(forall|i: int|
                    0 <= i < old_entries.len() ==> #[trigger] self.entries@[i] == old_entries[i]);
                assert(entry_wf(entry));
            }
            assert(stored_of(entry) == StoredFile {
                length: file.length_spec(),
                offset: 0,
                file_name: out.file_name_spec(),
                metadata: file.metadata_pairs(),
                data: Seq::new(file.length_spec() as nat, |i: int| 0u8),
            }) by {
                assert(entry.data@ =~= Seq::new(file.length_spec() as nat, |i: int| 0u8));
            }
        }
        Ok(out)
    }

    fn has_file(&self, file_id: &str) -> (r: bool) {
        self.find_entry(file_id).is_some()
    }

    fn get_file(&self, file_id: &str) -> (r: Result<FileInfo<Created>, VaultError>) {
        match self.find_entry(file_id) {
            None => Err(VaultError::NotFound),
            Some(i) => {
                proof {
                    lemma_mem_store_props(self.entries@);
                }
                Ok(self.entries[i].info.snapshot())
            },
        }
    }

    fn patch_file(&mut self, file_id: &str, buf: &[u8], offset: u64) -> (r: Result<
        PatchOption,
        VaultError,
    >)
        ensures
            (old(self).store().contains_key(file_id@) && offset == old(self).store()[
                file_id@
            ].offset && offset + buf@.len() <= old(self).store()[file_id@].length) ==> r is Ok
                && patch_applied(
                old(self).store(),
                final(self).store(),
                file_id@,
                buf@,
                offset,
                buf@.len() as int,
            ),
    {
        let i = match self.find_entry(file_id) {
            None => {
                return Err(VaultError::NotFound);
            },
            Some(i) => i,
        };
        proof {
            lemma_mem_store_props(self.entries@);
        }
        let ghost pre_entries = self.entries@;
        let ghost id = file_id@;
        let mut entry = self.entries.remove(i);
        proof {
            assert(entry == pre_entries[i as int]);
            assert(entry_wf(entry));
            assert(mem_store(pre_entries)[id] == stored_of(pre_entries[i as int]));
        }
        if *entry.info.offset() != offset {
            self.entries.insert(i, entry);
            proof {
                assert(self.entries@ =~= pre_entries);
            }
            return Err(VaultError::OffsetMismatch);
        }
        let length = *entry.info.length();
        let dl = entry.data.len();
        proof {
            assert(dl == entry.data@.len());
        }
        let blen = buf.len();
        if blen as u64 > length - offset {
            self.entries.insert(i, entry);
            proof {
                assert(self.entries@ =~= pre_entries);
            }
            return Err(VaultError::WriteError(String::from_str("buffer exceeds length")));
        }
        let ghost old_data = entry.data@;
        let ghost info0 = entry.info;
        let off = offset as usize;
        let mut j: usize = 0;
        proof {
            assert(spliced(old_data, off as int, buf@, 0) =~= old_data);
        }
        while j < blen
            invariant
                0 <= j <= blen == buf@.len(),
                off + blen <= entry.data@.len(),
                entry.data@.len() <= usize::MAX,
                entry.info == info0,
                entry.data@ == spliced(old_data, off as int, buf@, j as int),
                old_data.len() == entry.data@.len(),
            decreases blen - j,
        {
            let ghost before = entry.data@;
            entry.data.set(off + j, buf[j]);
            proof {
                assert(entry.data@ == before.update(off + j, buf@[j as int]));
                assert forall|k: int|
                    0 <= k < entry.data@.len() implies entry.data@[k] == spliced(
                    old_data,
                    off as int,
                    buf@,
                    j + 1,
                )[k] by {
                    if k < off as int {
                    } else if k < off + j {
                    } else if k == off + j {
                    } else {
                    }
                }
                assert(entry.data@ =~= spliced(old_data, off as int, buf@, j + 1));
            }
            j = j + 1;
        }
        let new_offset = offset + blen as u64;
        match entry.info.set_offset(new_offset) {
            Ok(()) => (),
            Err(_) => {
                proof {
                    assert(false);
                }
                return Err(VaultError::WriteError(String::from_str("offset out of range")));
            },
        }
        let complete = new_offset == length;
        let snap = entry.info.snapshot();
        let ghost new_entry = entry;
        self.entries.insert(i, entry);
        proof {
            assert(self.entries@ =~= pre_entries.update(i as int, new_entry));
            lemma_mem_store_update(pre_entries, i as int, new_entry);
            assert(entries_wf(self.entries@)) by {
                assert(forall|a: int|
                    0 <= a < pre_entries.len() && a != i ==> #[trigger] self.entries@[a]
                        == pre_entries[a]);
                assert(self.entries@[i as int] == new_entry);
                assert(entry_wf(new_entry));
            }
            assert(stored_of(new_entry) == StoredFile {
                length: mem_store(pre_entries)[id].length,
                offset: new_offset,
                file_name: mem_store(pre_entries)[id].file_name,
                metadata: mem_store(pre_entries)[id].metadata,
                data: spliced(mem_store(pre_entries)[id].data, offset as int, buf@, blen as int),
            });
            assert(patch_applied(
                mem_store(pre_entries),
                mem_store(self.entries@),
                id,
                buf@,
                offset,
                blen as int,
            ));
        }
        if complete {
            match snap.check_completion() {
                Some(c) => Ok(PatchOption::Completed(c)),
                None => {
                    proof {
                        assert(false);
                    }
                    Err(VaultError::WriteError(String::from_str("completion check failed")))
                },
            }
        } else {
            Ok(PatchOption::Patched(new_offset))
        }
    }

    fn terminate_file(&mut self, file_id: &str) -> (r: Result<FileInfo<Terminated>, VaultError>)
        ensures
            old(self).store().contains_key(file_id@) ==> r is Ok,
    {
        let i = match self.find_entry(file_id) {
            None => {
                return Err(VaultError::NotFound);
            },
            Some(i) => i,
        };
        proof {
            lemma_mem_store_props(self.entries@);
            lemma_mem_store_remove(self.entries@, i as int);
        }
        let ghost pre_entries = self.entries@;
        let entry = self.entries.remove(i);
        proof {
            assert(entries_wf(self.entries@)) by {
                assert(forall|a: int|
                    0 <= a < self.entries@.len() ==> #[trigger] self.entries@[a] == if a < i {
                        pre_entries[a]
                    } else {
                        pre_entries[a + 1]
                    });
            }
        }
        Ok(entry.info.terminate())
    }
}

} // verus!
