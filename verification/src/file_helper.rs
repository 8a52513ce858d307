//! Directory-entry helpers for files whose content lives as packed
//! chunks.
//!
//! A directory maps a name to a serialized file entry under a
//! monotonically increasing version.  The store that holds the entries,
//! and the per-directory entry encryption, are external; this module
//! decides what each operation writes — the entry bytes, the version to
//! claim, and which content to delete — under the optimistic-versioning
//! contract: a caller either asks for the next version or supplies one,
//! and a stale supplied version is rejected by the store.

use crate::chunk_map::push_bytes;
use crate::errors::CoreError;
use crate::record::{ChunkRecord, Visibility};
use crate::unpack::{extract_value, ExtractStep, ExtractStepModel,
    spec_extract_value};
use crate::pack::key_view;
use vstd::bytes::*;
use vstd::prelude::*;

verus! {

/// Which version an operation should claim for a directory entry.
#[derive(Copy, Clone, Debug, Eq, Ord, PartialEq, PartialOrd)]
pub enum Version {
    /// Query the store for the current version and use its successor.
    GetNext,
    /// Use the specified version.
    Custom(u64),
}

/// How writing affects a file's existing content.
#[derive(Copy, Clone, Debug, Eq, PartialEq)]
pub enum Mode {
    /// Replace the content.
    Overwrite,
    /// Keep the content and write after it.
    Append,
}

/// The version an operation claims, given the entry's current version.
pub open spec fn spec_resolve(v: Version, current: u64) -> u64 {
    match v {
        Version::GetNext => (current + 1) as u64,
        Version::Custom(c) => c,
    }
}

impl Version {
    /// Resolves this choice against the entry's current version.
    pub fn resolve(self, current: u64) -> (r: u64)
        requires
            self matches Version::GetNext ==> current < u64::MAX,
        ensures
            r == spec_resolve(self, current),
    {
        match self {
            Version::GetNext => current + 1,
            Version::Custom(c) => c,
        }
    }
}

/// A directory's file entry: where the packed content hangs and how to
/// fetch it.
#[derive(Debug)]
pub struct File {
    /// Address bytes of the chunk record that holds the content's packed
    /// descriptor.
    pub data_map_name: Vec<u8>,
    /// Whether the content's chunks live in the published namespace.
    pub published: bool,
    /// Length of the content in bytes.
    pub size: u64,
    /// Caller-owned metadata, carried verbatim.
    pub user_metadata: Vec<u8>,
}

/// Mathematical model of a `File`.
pub struct FileModel {
    pub data_map_name: Seq<u8>,
    pub published: bool,
    pub size: u64,
    pub user_metadata: Seq<u8>,
}

impl View for File {
    type V = FileModel;

    open spec fn view(&self) -> FileModel {
        FileModel {
            data_map_name: self.data_map_name@,
            published: self.published,
            size: self.size,
            user_metadata: self.user_metadata@,
        }
    }
}

/// A file model is well formed when its address could come from a real
/// in-memory value.
pub open spec fn file_wf(f: FileModel) -> bool {
    f.data_map_name.len() <= u64::MAX
}

/// Wire form of a file entry: namespace flag, size, length-prefixed
/// address, then the metadata to the end of the buffer.
pub open spec fn ser_file(f: FileModel) -> Seq<u8> {
    seq![if f.published { 1u8 } else { 0u8 }]
        + spec_u64_to_le_bytes(f.size)
        + spec_u64_to_le_bytes(f.data_map_name.len() as u64)
        + f.data_map_name + f.user_metadata
}

/// Strict parse of a file entry; `None` on malformed or truncated bytes.
pub open spec fn parse_file(b: Seq<u8>) -> Option<FileModel> {
    if b.len() < 17 {
        None
    } else if b[0] != 0u8 && b[0] != 1u8 {
        None
    } else {
        let nlen = spec_u64_from_le_bytes(b.subrange(9, 17)) as int;
        if 17 + nlen <= b.len() {
            Some(
                FileModel {
                    data_map_name: b.subrange(17, 17 + nlen),
                    published: b[0] == 1u8,
                    size: spec_u64_from_le_bytes(b.subrange(1, 9)),
                    user_metadata: b.skip(17 + nlen),
                },
            )
        } else {
            None
        }
    }
}

/// Parsing undoes serializing for file entries.
pub proof fn lemma_file_round_trip(f: FileModel)
    requires
        file_wf(f),
    ensures
        parse_file(ser_file(f)) == Some(f),
{
    lemma_auto_spec_u64_to_from_le_bytes();
    let b = ser_file(f);
    let nlen = f.data_map_name.len() as int;
    assert(b.subrange(1, 9) =~= spec_u64_to_le_bytes(f.size));
    assert(b.subrange(9, 17) =~= spec_u64_to_le_bytes(
        f.data_map_name.len() as u64,
    ));
    assert(b.subrange(17, 17 + nlen) =~= f.data_map_name);
    assert(b.skip(17 + nlen) =~= f.user_metadata);
}

/// Serializes a file entry into its strict wire form.
pub fn serialize_file(f: &File) -> (out: Vec<u8>)
    ensures
        out@ == ser_file(f@),
{
    let mut out: Vec<u8> = Vec::new();
    out.push(if f.published { 1u8 } else { 0u8 });
    let size_bytes = u64_to_le_bytes(f.size);
    push_bytes(&mut out, size_bytes.as_slice());
    let nlen_bytes = u64_to_le_bytes(f.data_map_name.len() as u64);
    push_bytes(&mut out, nlen_bytes.as_slice());
    push_bytes(&mut out, f.data_map_name.as_slice());
    push_bytes(&mut out, f.user_metadata.as_slice());
    assert(out@ =~= ser_file(f@));
    out
}

/// Parses a file entry from its strict wire form; fails closed with
/// `DecodeError`.
pub fn deserialize_file(b: &[u8]) -> (r: Result<File, CoreError>)
    ensures
        match r {
            Ok(f) => parse_file(b@) == Some(f@) && file_wf(f@),
            Err(e) => parse_file(b@) is None && e == CoreError::DecodeError,
        },
{
    if b.len() < 17 {
        return Err(CoreError::DecodeError);
    }
    let flag = b[0];
    if flag != 0u8 && flag != 1u8 {
        return Err(CoreError::DecodeError);
    }
    let size = u64_from_le_bytes(vstd::slice::slice_subrange(b, 1, 9));
    let nlen = u64_from_le_bytes(vstd::slice::slice_subrange(b, 9, 17));
    if nlen > (b.len() - 17) as u64 {
        return Err(CoreError::DecodeError);
    }
    let nlen_us = nlen as usize;
    let data_map_name = vstd::slice::slice_to_vec(
        vstd::slice::slice_subrange(b, 17, 17 + nlen_us),
    );
    let user_metadata = vstd::slice::slice_to_vec(
        vstd::slice::slice_subrange(b, 17 + nlen_us, b.len()),
    );
    assert(data_map_name@ =~= b@.subrange(17, 17 + nlen as int));
    assert(user_metadata@ =~= b@.skip(17 + nlen as int));
    Ok(File { data_map_name, published: flag == 1u8, size, user_metadata })
}

/// What a directory operation asks the entry store to do.  The store
/// resolves the entry's name to its (externally encrypted) key; the
/// action carries the value bytes and the claimed version.
#[derive(Debug)]
pub enum EntryAction {
    /// Insert a fresh entry; fresh entries start at version zero.
    Ins { value: Vec<u8>, version: u64 },
    /// Replace an entry's value under the claimed version.
    Update { value: Vec<u8>, version: u64 },
    /// Delete the entry under the claimed version.
    Del { version: u64 },
}

/// Mathematical model of an `EntryAction`.
pub enum EntryActionModel {
    Ins { value: Seq<u8>, version: u64 },
    Update { value: Seq<u8>, version: u64 },
    Del { version: u64 },
}

impl View for EntryAction {
    type V = EntryActionModel;

    open spec fn view(&self) -> EntryActionModel {
        match self {
            EntryAction::Ins { value, version } => EntryActionModel::Ins {
                value: value@,
                version: *version,
            },
            EntryAction::Update { value, version } => EntryActionModel::Update {
                value: value@,
                version: *version,
            },
            EntryAction::Del { version } => EntryActionModel::Del {
                version: *version,
            },
        }
    }
}

/// Insert the file into the directory: a fresh entry holding the
/// serialized file, at version zero.
pub fn insert(file: &File) -> (a: EntryAction)
    ensures
        a@ == (EntryActionModel::Ins { value: ser_file(file@), version: 0u64 }),
{
    EntryAction::Ins { value: serialize_file(file), version: 0 }
}

/// Get a file and its version from the directory, given the entry's
/// decrypted value bytes and its stored version.
pub fn fetch(plaintext: &[u8], version: u64) -> (r: Result<
    (u64, File),
    CoreError,
>)
    ensures
        match r {
            Ok(vf) => vf.0 == version && parse_file(plaintext@) == Some(vf.1@)
                && file_wf(vf.1@),
            Err(e) => parse_file(plaintext@) is None && e
                == CoreError::DecodeError,
        },
{
    match deserialize_file(plaintext) {
        Ok(f) => Ok((version, f)),
        Err(e) => Err(e),
    }
}

/// Update the file: replace the entry's value with the serialized file
/// under the resolved version.
pub fn update(file: &File, version: Version, current: u64) -> (a: EntryAction)
    requires
        version matches Version::GetNext ==> current < u64::MAX,
    ensures
        a@ == (EntryActionModel::Update {
            value: ser_file(file@),
            version: spec_resolve(version, current),
        }),
{
    EntryAction::Update {
        value: serialize_file(file),
        version: version.resolve(current),
    }
}

/// What deleting a directory entry involves.
#[derive(Debug)]
pub struct DeletePlan {
    /// For unpublished files, the address of the content record to
    /// delete from the chunk store; published content is not deletable
    /// by network policy.
    pub content_to_delete: Option<Vec<u8>>,
    /// The entry deletion to submit.
    pub action: EntryAction,
}

/// Delete a file from the directory: the entry goes under the resolved
/// version, and an unpublished file's content record goes with it.
pub fn delete(file: &File, published: bool, version: Version, current: u64)
    -> (p: DeletePlan)
    requires
        version matches Version::GetNext ==> current < u64::MAX,
    ensures
        p.action@ == (EntryActionModel::Del {
            version: spec_resolve(version, current),
        }),
        published ==> p.content_to_delete is None,
        !published ==> (p.content_to_delete matches Some(addr) && addr@
            == file@.data_map_name),
{
    let content_to_delete = if !published {
        Some(vstd::slice::slice_to_vec(file.data_map_name.as_slice()))
    } else {
        None
    };
    DeletePlan {
        content_to_delete,
        action: EntryAction::Del { version: version.resolve(current) },
    }
}

/// Return the first step of reading the file's content: the chunk record
/// fetched at the file's address must carry the file's namespace, and is
/// then opened under the caller's optional key.
pub fn read(
    file: &File,
    record: &ChunkRecord,
    encryption_key: Option<&Vec<u8>>,
) -> (r: Result<ExtractStep, CoreError>)
    requires
        crate::crypt::key_ok(key_view(encryption_key)),
    ensures
        match r {
            Ok(s) => record_matches_file(record@, file@)
                && spec_extract_value(record@, key_view(encryption_key))
                == Ok::<ExtractStepModel, CoreError>(s@),
            Err(e) => (!record_matches_file(record@, file@) && e
                == CoreError::VisibilityMismatch) || (record_matches_file(
                record@,
                file@,
            ) && spec_extract_value(record@, key_view(encryption_key))
                == Err::<ExtractStepModel, CoreError>(e)),
        },
{
    let is_pub = match &record.visibility {
        Visibility::Published => true,
        Visibility::Restricted(_) => false,
    };
    if is_pub != file.published {
        return Err(CoreError::VisibilityMismatch);
    }
    extract_value(record, encryption_key)
}

/// Whether a fetched record lives in the namespace the file claims.
pub open spec fn record_matches_file(
    r: crate::record::ChunkRecordModel,
    f: FileModel,
) -> bool {
    (r.visibility matches crate::record::VisibilityModel::Published)
        == f.published
}

/// An open write to a file: bytes accumulate here and are handed out for
/// chunking when the writer closes.
#[derive(Debug)]
pub struct Writer {
    /// The directory entry being rewritten.
    pub file: File,
    /// The content as written so far.
    pub buffer: Vec<u8>,
}

/// Open a writer for the file's content.  Overwriting starts empty;
/// appending starts from the file's current content, which the caller
/// fetches beforehand.
pub fn write(file: File, mode: Mode, current_content: Vec<u8>) -> (w: Writer)
    ensures
        w.file@ == file@,
        mode == Mode::Overwrite ==> w.buffer@ == Seq::<u8>::empty(),
        mode == Mode::Append ==> w.buffer@ == current_content@,
{
    let buffer = match mode {
        Mode::Overwrite => Vec::new(),
        Mode::Append => current_content,
    };
    Writer { file, buffer }
}

impl Writer {
    /// Appends bytes to the open write.
    pub fn write_bytes(&mut self, data: &[u8])
        ensures
            final(self).file@ == old(self).file@,
            final(self).buffer@ == old(self).buffer@ + data@,
    {
        push_bytes(&mut self.buffer, data);
    }

    /// Closes the write: the content bytes go to the content encryptor
    /// and `create`, and the entry is rewritten from the updated file.
    pub fn close(self) -> (r: (File, Vec<u8>))
        requires
            self.buffer@.len() <= u64::MAX,
        ensures
            r.0@.data_map_name == self.file@.data_map_name,
            r.0@.published == self.file@.published,
            r.0@.user_metadata == self.file@.user_metadata,
            r.0@.size == self.buffer@.len(),
            r.1@ == self.buffer@,
    {
        let size = self.buffer.len() as u64;
        let file = File {
            data_map_name: self.file.data_map_name,
            published: self.file.published,
            size,
            user_metadata: self.file.user_metadata,
        };
        (file, self.buffer)
    }
}

} // verus!
