//! Archives: a table of names, offsets and sizes in front of the payloads.
//!
//! Two counts open the file: the number of entries and the size of the name
//! table. Each entry takes three fields of four bytes, namely where its name
//! starts in the name table, where its payload starts and how long it is.

use vstd::prelude::*;

use crate::bytes;
use crate::digest::{Hash256, RunningDigest};
use crate::fault::{Fault, LegacyProviderError};
use crate::manifest::{LegacyPackManifest, LegacyVfsEntry, LegacyVfsSource, ManifestView, VfsEntryView, VfsSourceView};
use crate::nls::FvpNls;
use crate::source::{ByteRange, ByteSourceStat, RangeRead, ReadState};
use crate::text;

verus! {

#[derive(Debug, Clone)]
pub struct FvpArchiveEntry {
    pub name: String,
    pub offset: u64,
    pub size: u64,
}

#[verifier::ext_equal]
pub struct EntryView {
    pub name: Seq<char>,
    pub offset: u64,
    pub size: u64,
}

impl FvpArchiveEntry {
    pub open spec fn view(&self) -> EntryView {
        EntryView { name: self.name@, offset: self.offset, size: self.size }
    }
}

pub open spec fn entry_views(s: Seq<FvpArchiveEntry>) -> Seq<EntryView> {
    Seq::new(s.len(), |i: int| s[i]@)
}

// ------------------------------------------------------------------ the model

/// The name under which an entry is found: forward slashes, ASCII small
/// letters, no drive or stream separator, and a plain path.
pub open spec fn normalized_name(s: Seq<char>) -> Option<Seq<char>> {
    let v = text::lower(text::replaced(s, '\\', '/'));
    if text::plain_path(v) && !v.contains(':') {
        Some(v)
    } else {
        None
    }
}

/// The first NUL byte of `s` at or behind `from`.
pub open spec fn nul_from(s: Seq<u8>, from: int) -> Option<int>
    decreases s.len() - from,
{
    if from >= s.len() {
        None
    } else if s[from] == 0 {
        Some(from)
    } else {
        nul_from(s, from + 1)
    }
}

pub open spec fn has_entry(entries: Seq<EntryView>, name: Seq<char>) -> bool {
    exists|i: int| 0 <= i < entries.len() && (#[trigger] entries[i]).name == name
}

/// The entry whose name decodes to `name`, behind the entries `seen`, in an
/// archive of `source_len` bytes.
pub open spec fn admitted_entry(
    seen: Seq<EntryView>,
    name: (Seq<char>, bool),
    offset: u32,
    size: u32,
    source_len: u64,
) -> Result<EntryView, Fault> {
    if name.1 {
        Err(crate::fault::fault("ASTRA_FVP_ARCHIVE_NAME_ENCODING", "filename cannot be decoded"))
    } else {
        match normalized_name(name.0) {
            None => Err(crate::fault::fault("ASTRA_FVP_ARCHIVE_NAME", "archive name is unsafe")),
            Some(normal) => if has_entry(seen, normal) {
                Err(
                    crate::fault::fault(
                        "ASTRA_FVP_ARCHIVE_NAME_DUPLICATE",
                        "archive filename is duplicated",
                    ),
                )
            } else if offset + size > source_len {
                Err(
                    crate::fault::fault(
                        "ASTRA_FVP_ARCHIVE_ENTRY_BOUNDS",
                        "entry extends beyond the archive",
                    ),
                )
            } else {
                Ok(EntryView { name: normal, offset: offset as u64, size: size as u64 })
            },
        }
    }
}

/// The entry in row `seen.len()` of the table.
pub open spec fn entry_row(
    b: Seq<u8>,
    names: Seq<u8>,
    seen: Seq<EntryView>,
    source_len: u64,
    nls: FvpNls,
) -> Result<EntryView, Fault> {
    let base = 8 + 12 * seen.len() as int;
    let name_offset = bytes::u32_at(b, base) as int;
    if name_offset > names.len() {
        Err(
            crate::fault::fault(
                "ASTRA_FVP_ARCHIVE_NAME_OFFSET",
                "filename offset is outside the table",
            ),
        )
    } else {
        match nul_from(names, name_offset) {
            None => Err(
                crate::fault::fault(
                    "ASTRA_FVP_ARCHIVE_NAME_TERMINATOR",
                    "filename is not NUL-terminated",
                ),
            ),
            Some(end) => admitted_entry(
                seen,
                crate::nls::decoded(nls, names.subrange(name_offset, end)),
                bytes::u32_at(b, base + 4),
                bytes::u32_at(b, base + 8),
                source_len,
            ),
        }
    }
}

/// The table of `count` entries whose first rows are `seen`.
pub open spec fn entry_table(
    b: Seq<u8>,
    names: Seq<u8>,
    seen: Seq<EntryView>,
    count: int,
    source_len: u64,
    nls: FvpNls,
) -> Result<Seq<EntryView>, Fault>
    decreases count - seen.len(),
{
    if seen.len() >= count {
        Ok(seen)
    } else {
        match entry_row(b, names, seen, source_len, nls) {
            Err(f) => Err(f),
            Ok(entry) => entry_table(b, names, seen.push(entry), count, source_len, nls),
        }
    }
}

/// Where the name table of an archive lies: its start and its end.
pub open spec fn layout_of(b: Seq<u8>, max_entries: usize) -> Result<(int, int), Fault> {
    if b.len() < 8 {
        Err(crate::fault::fault("ASTRA_FVP_ARCHIVE_HEADER", "archive header is truncated"))
    } else {
        let count = bytes::u32_at(b, 0) as int;
        let start = 8 + 12 * count;
        let end = start + bytes::u32_at(b, 4);
        if count > max_entries {
            Err(
                crate::fault::fault(
                    "ASTRA_FVP_ARCHIVE_ENTRY_COUNT",
                    "archive entry count exceeds the configured bound",
                ),
            )
        } else if 12 * count > usize::MAX {
            Err(
                crate::fault::fault(
                    "ASTRA_FVP_ARCHIVE_TABLE_OVERFLOW",
                    "entry table size overflowed",
                ),
            )
        } else if start > usize::MAX {
            Err(
                crate::fault::fault(
                    "ASTRA_FVP_ARCHIVE_TABLE_OVERFLOW",
                    "entry table offset overflowed",
                ),
            )
        } else if end > usize::MAX {
            Err(
                crate::fault::fault(
                    "ASTRA_FVP_ARCHIVE_NAMES_OVERFLOW",
                    "filename table size overflowed",
                ),
            )
        } else if end > b.len() {
            Err(
                crate::fault::fault(
                    "ASTRA_FVP_ARCHIVE_NAMES_BOUNDS",
                    "filename table extends beyond the archive",
                ),
            )
        } else {
            Ok((start, end))
        }
    }
}

/// The entries that the metadata `b` of an archive of `source_len` bytes lists.
pub open spec fn entries_of(b: Seq<u8>, source_len: u64, nls: FvpNls, max_entries: usize) -> Result<
    Seq<EntryView>,
    Fault,
> {
    match layout_of(b, max_entries) {
        Err(f) => Err(f),
        Ok(names) => entry_table(
            b,
            b.subrange(names.0, names.1),
            Seq::empty(),
            bytes::u32_at(b, 0) as int,
            source_len,
            nls,
        ),
    }
}

/// The length of the metadata that the first eight bytes announce.
pub open spec fn metadata_of(header: Seq<u8>, max_range: u64) -> Result<u64, Fault> {
    if header.len() < 8 {
        Err(crate::fault::fault("ASTRA_FVP_ARCHIVE_HEADER", "archive header is truncated"))
    } else {
        let table = 12 * bytes::u32_at(header, 0);
        let total = 8 + table + bytes::u32_at(header, 4);
        if table > usize::MAX {
            Err(
                crate::fault::fault(
                    "ASTRA_FVP_ARCHIVE_TABLE_OVERFLOW",
                    "entry table size overflowed",
                ),
            )
        } else if total > usize::MAX {
            Err(
                crate::fault::fault(
                    "ASTRA_FVP_ARCHIVE_NAMES_OVERFLOW",
                    "archive metadata size overflowed",
                ),
            )
        } else if total > max_range {
            Err(
                crate::fault::fault(
                    "ASTRA_FVP_ARCHIVE_METADATA_BOUNDS",
                    "archive metadata exceeds the bounded range limit",
                ),
            )
        } else {
            Ok(total as u64)
        }
    }
}

/// Entries that stay inside a source of `len` bytes and have distinct names.
pub open spec fn entries_fit(entries: Seq<EntryView>, len: u64) -> bool {
    &&& forall|i: int| 0 <= i < entries.len() ==> (#[trigger] entries[i]).offset + entries[i].size <= len
    &&& forall|i: int, j: int|
        0 <= i < j < entries.len() ==> (#[trigger] entries[i]).name != (#[trigger] entries[j]).name
}

// -------------------------------------------------------------------- reading

/// The name under which an archive entry is found.
pub fn normalize_name(value: &str) -> (r: Result<String, LegacyProviderError>)
    ensures
        match r {
            Ok(t) => normalized_name(value@) == Some(t@),
            Err(e) => normalized_name(value@) is None && e@ == crate::fault::fault(
                "ASTRA_FVP_ARCHIVE_NAME",
                "archive name is unsafe",
            ),
        },
{
    let chars = text::chars_of(value);
    let slashed = text::replace_char(&chars, '\\', '/');
    let v = text::to_lower(&slashed);
    if !text::is_plain_path(&v) || text::has_char(&v, ':') {
        return Err(LegacyProviderError::invalid("ASTRA_FVP_ARCHIVE_NAME", "archive name is unsafe"));
    }
    Ok(text::string_of(&v))
}

fn find_nul(s: &[u8], from: usize) -> (r: Option<usize>)
    requires
        from <= s.len(),
    ensures
        match r {
            Some(i) => nul_from(s@, from as int) == Some(i as int) && from <= i < s.len(),
            None => nul_from(s@, from as int) is None,
        },
{
    let mut i: usize = from;
    while i < s.len()
        invariant
            from <= i <= s.len(),
            nul_from(s@, from as int) == nul_from(s@, i as int),
        decreases s.len() - i,
    {
        if s[i] == 0 {
            return Some(i);
        }
        i = i + 1;
    }
    None
}

/// The position of the entry called `name`.
fn position_of(entries: &Vec<FvpArchiveEntry>, name: &str) -> (r: Option<usize>)
    ensures
        match r {
            Some(i) => i < entries.len() && entries@[i as int].name@ == name@,
            None => !has_entry(entry_views(entries@), name@),
        },
{
    let ghost views = entry_views(entries@);
    let mut i: usize = 0;
    while i < entries.len()
        invariant
            i <= entries.len(),
            views == entry_views(entries@),
            forall|j: int| 0 <= j < i ==> (#[trigger] views[j]).name != name@,
        decreases entries.len() - i,
    {
        if text::same_text(entries[i].name.as_str(), name) {
            return Some(i);
        }
        assert(views[i as int].name != name@);
        i = i + 1;
    }
    None
}

/// Admits the entry whose name decoded to `name` behind the entries `seen`.
pub fn admit_entry(
    seen: &Vec<FvpArchiveEntry>,
    name: (String, bool),
    offset: u32,
    size: u32,
    source_len: u64,
) -> (r: Result<FvpArchiveEntry, LegacyProviderError>)
    ensures
        match r {
            Ok(entry) => admitted_entry(
                entry_views(seen@),
                (name.0@, name.1),
                offset,
                size,
                source_len,
            ) == Ok::<EntryView, Fault>(entry@),
            Err(e) => admitted_entry(
                entry_views(seen@),
                (name.0@, name.1),
                offset,
                size,
                source_len,
            ) == Err::<EntryView, Fault>(e@),
        },
{
    if name.1 {
        return Err(
            LegacyProviderError::invalid(
                "ASTRA_FVP_ARCHIVE_NAME_ENCODING",
                "filename cannot be decoded",
            ),
        );
    }
    let normal = match normalize_name(name.0.as_str()) {
        Ok(v) => v,
        Err(e) => return Err(e),
    };
    match position_of(seen, normal.as_str()) {
        Some(i) => {
            assert(entry_views(seen@)[i as int].name == normal@);
            return Err(
                LegacyProviderError::invalid(
                    "ASTRA_FVP_ARCHIVE_NAME_DUPLICATE",
                    "archive filename is duplicated",
                ),
            );
        },
        None => {},
    }
    let start: u64 = offset as u64;
    let len: u64 = size as u64;
    if start + len > source_len {
        return Err(
            LegacyProviderError::invalid(
                "ASTRA_FVP_ARCHIVE_ENTRY_BOUNDS",
                "entry extends beyond the archive",
            ),
        );
    }
    Ok(FvpArchiveEntry { name: normal, offset: start, size: len })
}

/// Checks the counts of an archive and gives the bounds of its name table.
fn read_layout(b: &[u8], max_entries: usize) -> (r: Result<(usize, usize), LegacyProviderError>)
    ensures
        match r {
            Ok(names) => layout_of(b@, max_entries) == Ok::<(int, int), Fault>(
                (names.0 as int, names.1 as int),
            ),
            Err(e) => layout_of(b@, max_entries) == Err::<(int, int), Fault>(e@),
        },
{
    if b.len() < 8 {
        return Err(
            LegacyProviderError::invalid("ASTRA_FVP_ARCHIVE_HEADER", "archive header is truncated"),
        );
    }
    let count: usize = bytes::read_u32(b, 0) as usize;
    let names_size: usize = bytes::read_u32(b, 4) as usize;
    if count > max_entries {
        return Err(
            LegacyProviderError::invalid(
                "ASTRA_FVP_ARCHIVE_ENTRY_COUNT",
                "archive entry count exceeds the configured bound",
            ),
        );
    }
    let table_size: usize = match count.checked_mul(12) {
        Some(v) => v,
        None => return Err(
            LegacyProviderError::invalid(
                "ASTRA_FVP_ARCHIVE_TABLE_OVERFLOW",
                "entry table size overflowed",
            ),
        ),
    };
    let names_start: usize = match table_size.checked_add(8) {
        Some(v) => v,
        None => return Err(
            LegacyProviderError::invalid(
                "ASTRA_FVP_ARCHIVE_TABLE_OVERFLOW",
                "entry table offset overflowed",
            ),
        ),
    };
    let names_end: usize = match names_start.checked_add(names_size) {
        Some(v) => v,
        None => return Err(
            LegacyProviderError::invalid(
                "ASTRA_FVP_ARCHIVE_NAMES_OVERFLOW",
                "filename table size overflowed",
            ),
        ),
    };
    if names_end > b.len() {
        return Err(
            LegacyProviderError::invalid(
                "ASTRA_FVP_ARCHIVE_NAMES_BOUNDS",
                "filename table extends beyond the archive",
            ),
        );
    }
    Ok((names_start, names_end))
}

/// The length of the metadata that the first eight bytes of an archive announce.
pub fn metadata_len(header: &[u8], max_range: u64) -> (r: Result<u64, LegacyProviderError>)
    ensures
        match r {
            Ok(v) => metadata_of(header@, max_range) == Ok::<u64, Fault>(v),
            Err(e) => metadata_of(header@, max_range) == Err::<u64, Fault>(e@),
        },
{
    if header.len() < 8 {
        return Err(
            LegacyProviderError::invalid("ASTRA_FVP_ARCHIVE_HEADER", "archive header is truncated"),
        );
    }
    let count: usize = bytes::read_u32(header, 0) as usize;
    let names_size: usize = bytes::read_u32(header, 4) as usize;
    let table: usize = match count.checked_mul(12) {
        Some(v) => v,
        None => return Err(
            LegacyProviderError::invalid(
                "ASTRA_FVP_ARCHIVE_TABLE_OVERFLOW",
                "entry table size overflowed",
            ),
        ),
    };
    let start: Option<usize> = table.checked_add(8);
    let total: Option<usize> = match start {
        Some(v) => v.checked_add(names_size),
        None => None,
    };
    match total {
        None => Err(
            LegacyProviderError::invalid(
                "ASTRA_FVP_ARCHIVE_NAMES_OVERFLOW",
                "archive metadata size overflowed",
            ),
        ),
        Some(v) => if v as u64 > max_range {
            Err(
                LegacyProviderError::invalid(
                    "ASTRA_FVP_ARCHIVE_METADATA_BOUNDS",
                    "archive metadata exceeds the bounded range limit",
                ),
            )
        } else {
            Ok(v as u64)
        },
    }
}


/// Where the bytes of an archive are.
#[derive(Debug)]
pub enum ArchiveStorage {
    Memory { bytes: Vec<u8> },
    Host { mount_set_id: String, uri: String, stat: ByteSourceStat },
    Source { stat: ByteSourceStat },
}

/// An archive with its entry table.
#[derive(Debug)]
pub struct FvpArchive {
    pub storage: ArchiveStorage,
    pub entries: Vec<FvpArchiveEntry>,
}

/// The kind of a payload, told by its first bytes.
pub open spec fn media_kind(b: Seq<u8>) -> Seq<char> {
    if b.len() >= 4 && b.subrange(0, 4) == seq![0x4fu8, 0x67, 0x67, 0x53] {
        "audio.ogg"@
    } else if b.len() >= 4 && b.subrange(0, 4) == seq![0x52u8, 0x49, 0x46, 0x46] {
        "audio.riff"@
    } else if b.len() >= 4 && b.subrange(0, 4) == seq![0x68u8, 0x7a, 0x63, 0x31] {
        "image.hzc1"@
    } else if b.len() >= 4 && b.subrange(0, 4) == seq![0x30u8, 0x26, 0xb2, 0x75] {
        "video.asf"@
    } else {
        "application.octet_stream"@
    }
}

fn starts_with_magic(b: &[u8], m0: u8, m1: u8, m2: u8, m3: u8) -> (r: bool)
    ensures
        r == (b@.len() >= 4 && b@.subrange(0, 4) == seq![m0, m1, m2, m3]),
{
    if b.len() < 4 {
        return false;
    }
    let r = b[0] == m0 && b[1] == m1 && b[2] == m2 && b[3] == m3;
    proof {
        let head = b@.subrange(0, 4);
        if r {
            assert(head =~= seq![m0, m1, m2, m3]);
        } else {
            assert(head[0] == b@[0] && head[1] == b@[1] && head[2] == b@[2] && head[3] == b@[3]);
            let m = seq![m0, m1, m2, m3];
            assert(m[0] == m0 && m[1] == m1 && m[2] == m2 && m[3] == m3);
        }
    }
    r
}

/// Tells the kind of a payload by its first bytes.
pub fn classify(b: &[u8]) -> (r: &'static str)
    ensures
        r@ == media_kind(b@),
{
    if starts_with_magic(b, 0x4f, 0x67, 0x67, 0x53) {
        "audio.ogg"
    } else if starts_with_magic(b, 0x52, 0x49, 0x46, 0x46) {
        "audio.riff"
    } else if starts_with_magic(b, 0x68, 0x7a, 0x63, 0x31) {
        "image.hzc1"
    } else if starts_with_magic(b, 0x30, 0x26, 0xb2, 0x75) {
        "video.asf"
    } else {
        "application.octet_stream"
    }
}

/// The manifest line of one entry with the content `content`.
pub open spec fn manifest_entry(folder: Seq<char>, entry: EntryView, content: Seq<u8>) -> VfsEntryView {
    VfsEntryView {
        uri: "fvp:/"@ + folder + "/"@ + entry.name,
        entry_id: folder + ":"@ + entry.name,
        source_id: folder,
        source_offset: entry.offset,
        stored_size: entry.size,
        decoded_size: entry.size,
        source_hash: crate::digest::sha256_of(content),
        content_hash: Some(crate::digest::sha256_of(content)),
        method: "raw"@,
        media_kind: media_kind(content),
    }
}

/// The manifest of an archive with the given entries and their contents.
pub open spec fn manifest_of(
    schema: Seq<char>,
    mount_id: Seq<char>,
    folder: Seq<char>,
    reader_hash: Seq<u8>,
    source: (u64, Seq<u8>),
    entries: Seq<EntryView>,
    contents: Seq<Seq<u8>>,
) -> ManifestView {
    ManifestView {
        schema,
        family_id: "fvp"@,
        mount_id,
        prefix: "fvp:/"@,
        reader_id: "astra.fvp.bin.v1"@,
        reader_hash,
        decrypt_provider_id: "astra.emu.fvp.raw.v1"@,
        private_profile_hash: crate::digest::sha256_of(crate::manifest::no_private_profile()),
        mount_profile_hash: reader_hash,
        sources: seq![
            VfsSourceView {
                source_id: folder,
                archive_role: Some(folder),
                byte_size: source.0,
                part_count: 1,
                source_hash: source.1,
            },
        ],
        entries: Seq::new(entries.len(), |i: int| manifest_entry(folder, entries[i], contents[i])),
    }
}

pub open spec fn content_views(s: Seq<Vec<u8>>) -> Seq<Seq<u8>> {
    Seq::new(s.len(), |i: int| s[i]@)
}

impl FvpArchive {
    pub open spec fn stat_view(&self) -> ByteSourceStat {
        match self.storage {
            ArchiveStorage::Memory { bytes } => ByteSourceStat {
                len: bytes@.len() as u64,
                revision: 1,
            },
            ArchiveStorage::Host { stat, .. } => stat,
            ArchiveStorage::Source { stat } => stat,
        }
    }

    pub open spec fn listing(&self) -> Seq<EntryView> {
        entry_views(self.entries@)
    }

    /// The bytes of an archive in memory.
    pub open spec fn image(&self) -> Seq<u8> {
        match self.storage {
            ArchiveStorage::Memory { bytes } => bytes@,
            _ => Seq::empty(),
        }
    }

    pub open spec fn wf(&self) -> bool {
        &&& entries_fit(self.listing(), self.stat_view().len)
        &&& self.storage is Memory ==> self.image().len() <= usize::MAX
    }

    /// Parses an archive that is in memory as a whole.
    pub fn parse(bytes: Vec<u8>, nls: FvpNls, max_entries: usize) -> (r: Result<
        Self,
        LegacyProviderError,
    >)
        requires
            crate::nls::decodable(bytes@.len() as int),
        ensures
            match r {
                Ok(archive) => {
                    &&& archive.wf()
                    &&& archive.storage is Memory
                    &&& archive.image() == bytes@
                    &&& entries_of(bytes@, bytes@.len() as u64, nls, max_entries) == Ok::<
                        Seq<EntryView>,
                        Fault,
                    >(archive.listing())
                },
                Err(e) => entries_of(bytes@, bytes@.len() as u64, nls, max_entries) == Err::<
                    Seq<EntryView>,
                    Fault,
                >(e@),
            },
    {
        let stat = ByteSourceStat { len: bytes.len() as u64, revision: 1 };
        match Self::parse_entries(bytes.as_slice(), stat, nls, max_entries) {
            Ok(entries) => Ok(FvpArchive { storage: ArchiveStorage::Memory { bytes }, entries }),
            Err(e) => Err(e),
        }
    }

    /// Reads the entry table out of the metadata `b` of an archive with the stat
    /// `stat`.
    pub fn parse_entries(b: &[u8], stat: ByteSourceStat, nls: FvpNls, max_entries: usize) -> (r: Result<
        Vec<FvpArchiveEntry>,
        LegacyProviderError,
    >)
        requires
            crate::nls::decodable(b@.len() as int),
        ensures
            match r {
                Ok(entries) => {
                    &&& entries_of(b@, stat.len, nls, max_entries) == Ok::<Seq<EntryView>, Fault>(
                        entry_views(entries@),
                    )
                    &&& entries_fit(entry_views(entries@), stat.len)
                },
                Err(e) => entries_of(b@, stat.len, nls, max_entries) == Err::<Seq<EntryView>, Fault>(e@),
            },
    {
        let (names_start, names_end): (usize, usize) = match read_layout(b, max_entries) {
            Ok(v) => v,
            Err(e) => return Err(e),
        };
        let count: usize = bytes::read_u32(b, 0) as usize;
        let names = vstd::slice::slice_subrange(b, names_start, names_end);
        let mut entries: Vec<FvpArchiveEntry> = Vec::new();
        let ghost expected = entries_of(b@, stat.len, nls, max_entries);
        assert(entry_views(entries@) =~= Seq::<EntryView>::empty());
        while entries.len() < count
            invariant
                entries.len() <= count,
                8 + 12 * count <= b.len(),
                names@.len() <= b@.len(),
                crate::nls::decodable(b@.len() as int),
                expected == entries_of(b@, stat.len, nls, max_entries),
                expected == entry_table(
                    b@,
                    names@,
                    entry_views(entries@),
                    count as int,
                    stat.len,
                    nls,
                ),
                entries_fit(entry_views(entries@), stat.len),
            decreases count - entries.len(),
        {
            let index: usize = entries.len();
            let base: usize = 8 + 12 * index;
            let name_offset: usize = bytes::read_u32(b, base) as usize;
            let offset: u32 = bytes::read_u32(b, base + 4);
            let size: u32 = bytes::read_u32(b, base + 8);
            if name_offset > names.len() {
                return Err(
                    LegacyProviderError::invalid(
                        "ASTRA_FVP_ARCHIVE_NAME_OFFSET",
                        "filename offset is outside the table",
                    ),
                );
            }
            let end: usize = match find_nul(names, name_offset) {
                Some(v) => v,
                None => return Err(
                    LegacyProviderError::invalid(
                        "ASTRA_FVP_ARCHIVE_NAME_TERMINATOR",
                        "filename is not NUL-terminated",
                    ),
                ),
            };
            let name = nls.decode(vstd::slice::slice_subrange(names, name_offset, end));
            match admit_entry(&entries, name, offset, size, stat.len) {
                Ok(entry) => {
                    let ghost before = entry_views(entries@);
                    entries.push(entry);
                    assert(entry_views(entries@) =~= before.push(entry@));
                    assert forall|i: int, j: int| 0 <= i < j < entry_views(entries@).len() implies (
                    #[trigger] entry_views(entries@)[i]).name != (#[trigger] entry_views(
                        entries@,
                    )[j]).name by {
                        if j == before.len() {
                            assert(before[i].name != entry@.name);
                        } else {
                            assert(before[i].name != before[j].name);
                        }
                    }
                    assert forall|i: int| 0 <= i < entry_views(entries@).len() implies (
                    #[trigger] entry_views(entries@)[i]).offset + entry_views(entries@)[i].size
                        <= stat.len by {
                        if i < before.len() {
                            assert(before[i].offset + before[i].size <= stat.len);
                        }
                    }
                },
                Err(e) => return Err(e),
            }
        }
        Ok(entries)
    }


    pub fn entries(&self) -> (r: &[FvpArchiveEntry])
        ensures
            r@ == self.entries@,
    {
        self.entries.as_slice()
    }

    pub fn entry(&self, index: usize) -> (r: Option<&FvpArchiveEntry>)
        ensures
            match r {
                Some(e) => index < self.entries.len() && *e == self.entries@[index as int],
                None => index >= self.entries.len(),
            },
    {
        if index < self.entries.len() {
            Some(&self.entries[index])
        } else {
            None
        }
    }

    pub fn stat(&self) -> (r: ByteSourceStat)
        ensures
            r == self.stat_view(),
    {
        match &self.storage {
            ArchiveStorage::Memory { bytes } => ByteSourceStat {
                len: bytes.len() as u64,
                revision: 1,
            },
            ArchiveStorage::Host { stat, .. } => *stat,
            ArchiveStorage::Source { stat } => *stat,
        }
    }

    /// Where the entry called `name` lies in the archive.
    pub fn locate(&self, name: &str) -> (r: Result<ByteRange, LegacyProviderError>)
        requires
            self.wf(),
        ensures
            match r {
                Ok(range) => exists|i: int|
                    {
                        &&& 0 <= i < self.listing().len()
                        &&& (#[trigger] self.listing()[i]).name == name@
                        &&& range.offset == self.listing()[i].offset
                        &&& range.len == self.listing()[i].size
                    },
                Err(e) => !has_entry(self.listing(), name@) && e@ == crate::fault::fault(
                    "ASTRA_EMU_VFS_NOT_FOUND",
                    "archive entry is not present",
                ),
            },
    {
        match position_of(&self.entries, name) {
            Some(i) => {
                let entry = &self.entries[i];
                assert(self.listing()[i as int].name == name@);
                Ok(ByteRange { offset: entry.offset, len: entry.size })
            },
            None => Err(
                LegacyProviderError::invalid(
                    "ASTRA_EMU_VFS_NOT_FOUND",
                    "archive entry is not present",
                ),
            ),
        }
    }

    /// The payload of the entry called `name`, for an archive in memory.
    pub fn read(&self, name: &str) -> (r: Result<Vec<u8>, LegacyProviderError>)
        requires
            self.wf(),
            self.storage is Memory,
        ensures
            match r {
                Ok(content) => exists|i: int|
                    {
                        &&& 0 <= i < self.listing().len()
                        &&& (#[trigger] self.listing()[i]).name == name@
                        &&& content@ == self.image().subrange(
                            self.listing()[i].offset as int,
                            self.listing()[i].offset + self.listing()[i].size,
                        )
                    },
                Err(e) => !has_entry(self.listing(), name@) && e@ == crate::fault::fault(
                    "ASTRA_EMU_VFS_NOT_FOUND",
                    "archive entry is not present",
                ),
            },
    {
        match position_of(&self.entries, name) {
            Some(i) => {
                assert(self.listing()[i as int].name == name@);
                Ok(self.payload(i))
            },
            None => Err(
                LegacyProviderError::invalid(
                    "ASTRA_EMU_VFS_NOT_FOUND",
                    "archive entry is not present",
                ),
            ),
        }
    }

    fn payload(&self, index: usize) -> (r: Vec<u8>)
        requires
            self.wf(),
            self.storage is Memory,
            index < self.entries.len(),
        ensures
            r@ == self.image().subrange(
                self.listing()[index as int].offset as int,
                self.listing()[index as int].offset + self.listing()[index as int].size,
            ),
    {
        let entry = &self.entries[index];
        assert(self.listing()[index as int].offset + self.listing()[index as int].size
            <= self.stat_view().len);
        match &self.storage {
            ArchiveStorage::Memory { bytes } => bytes::copy_range(
                bytes.as_slice(),
                entry.offset as usize,
                (entry.offset + entry.size) as usize,
            ),
            _ => Vec::new(),
        }
    }

    /// Starts the read of the entry called `name`, for an archive that is not in
    /// memory.
    pub fn read_remote(&self, name: &str, max_range: u64) -> (r: Result<RangeRead, LegacyProviderError>)
        requires
            self.wf(),
            max_range > 0,
        ensures
            match r {
                Ok(read) => read.wf() && exists|i: int|
                    {
                        &&& 0 <= i < self.listing().len()
                        &&& (#[trigger] self.listing()[i]).name == name@
                        &&& read@ == crate::source::fresh_read(
                            ByteRange {
                                offset: self.listing()[i].offset,
                                len: self.listing()[i].size,
                            },
                            max_range,
                        )
                    },
                Err(e) => {
                    ||| !has_entry(self.listing(), name@) && e@ == crate::fault::fault(
                        "ASTRA_EMU_VFS_NOT_FOUND",
                        "archive entry is not present",
                    )
                    ||| exists|i: int|
                        {
                            &&& 0 <= i < self.listing().len()
                            &&& (#[trigger] self.listing()[i]).name == name@
                            &&& self.listing()[i].size > usize::MAX
                            &&& e@ == crate::fault::fault(
                                "ASTRA_FVP_ARCHIVE_ENTRY_BOUNDS",
                                "archive range cannot fit in memory",
                            )
                        }
                },
            },
    {
        match self.locate(name) {
            Ok(range) => {
                proof {
                    let i = choose|i: int|
                        {
                            &&& 0 <= i < self.listing().len()
                            &&& (#[trigger] self.listing()[i]).name == name@
                            &&& range.offset == self.listing()[i].offset
                            &&& range.len == self.listing()[i].size
                        };
                    assert(self.listing()[i].offset + self.listing()[i].size <= self.stat_view().len);
                    assert(range == (ByteRange {
                        offset: self.listing()[i].offset,
                        len: self.listing()[i].size,
                    }));
                }
                RangeRead::begin(self.stat(), range, max_range)
            },
            Err(e) => Err(e),
        }
    }

    /// Length and digest of an archive in memory.
    pub fn audit_identity(&self) -> (r: (u64, Hash256))
        requires
            self.wf(),
            self.storage is Memory,
        ensures
            r.0 == self.image().len(),
            r.1@ == crate::digest::sha256_of(self.image()),
    {
        match &self.storage {
            ArchiveStorage::Memory { bytes } => (
                bytes.len() as u64,
                Hash256::from_sha256(bytes.as_slice()),
            ),
            _ => (0, Hash256::zero()),
        }
    }

    /// The manifest of an archive whose identity and contents have been read.
    pub fn manifest_with(
        &self,
        schema: &str,
        mount_id: &str,
        folder: &str,
        reader_hash: Hash256,
        source: (u64, Hash256),
        contents: &Vec<Vec<u8>>,
    ) -> (r: LegacyPackManifest)
        requires
            contents.len() == self.entries.len(),
        ensures
            r@ == manifest_of(
                schema@,
                mount_id@,
                folder@,
                reader_hash@,
                (source.0, source.1@),
                self.listing(),
                content_views(contents@),
            ),
    {
        let mut entries: Vec<LegacyVfsEntry> = Vec::new();
        let ghost expected = Seq::new(
            self.listing().len(),
            |i: int| manifest_entry(folder@, self.listing()[i], content_views(contents@)[i]),
        );
        let mut i: usize = 0;
        while i < self.entries.len()
            invariant
                i <= self.entries.len() == contents.len(),
                expected == Seq::new(
                    self.listing().len(),
                    |i: int| manifest_entry(folder@, self.listing()[i], content_views(contents@)[i]),
                ),
                crate::manifest::entry_views(entries@) =~= expected.subrange(0, i as int),
            decreases self.entries.len() - i,
        {
            let entry = &self.entries[i];
            let content = contents[i].as_slice();
            let hash = Hash256::from_sha256(content);
            let base = text::join3("fvp:/", folder, "/");
            let line = LegacyVfsEntry {
                uri: text::join2(base.as_str(), entry.name.as_str()),
                entry_id: text::join3(folder, ":", entry.name.as_str()),
                source_id: text::owned(folder),
                source_offset: entry.offset,
                stored_size: entry.size,
                decoded_size: entry.size,
                source_hash: hash,
                content_hash: Some(hash),
                method: text::owned("raw"),
                media_kind: text::owned(classify(content)),
            };
            assert(line@ =~= expected[i as int]);
            let ghost before = crate::manifest::entry_views(entries@);
            entries.push(line);
            assert(crate::manifest::entry_views(entries@) =~= before.push(line@));
            i = i + 1;
        }
        let mut sources: Vec<LegacyVfsSource> = Vec::new();
        sources.push(
            LegacyVfsSource {
                source_id: text::owned(folder),
                archive_role: Some(text::owned(folder)),
                byte_size: source.0,
                part_count: 1,
                source_hash: source.1,
            },
        );
        let r = LegacyPackManifest {
            schema: text::owned(schema),
            family_id: text::owned("fvp"),
            mount_id: text::owned(mount_id),
            prefix: text::owned("fvp:/"),
            reader_id: text::owned("astra.fvp.bin.v1"),
            reader_hash,
            decrypt_provider_id: text::owned("astra.emu.fvp.raw.v1"),
            private_profile_hash: crate::manifest::no_private_profile_hash(),
            mount_profile_hash: reader_hash,
            sources,
            entries,
        };
        assert(crate::manifest::entry_views(r.entries@) =~= expected);
        assert(r@ =~= manifest_of(
            schema@,
            mount_id@,
            folder@,
            reader_hash@,
            (source.0, source.1@),
            self.listing(),
            content_views(contents@),
        ));
        r
    }

    /// The contents of all entries of an archive in memory.
    pub open spec fn contents(&self) -> Seq<Seq<u8>> {
        Seq::new(
            self.listing().len(),
            |i: int|
                self.image().subrange(
                    self.listing()[i].offset as int,
                    self.listing()[i].offset + self.listing()[i].size,
                ),
        )
    }

    /// The manifest of an archive in memory.
    pub fn manifest(&self, schema: &str, mount_id: &str, folder: &str, reader_hash: Hash256) -> (r:
        LegacyPackManifest)
        requires
            self.wf(),
            self.storage is Memory,
        ensures
            r@ == manifest_of(
                schema@,
                mount_id@,
                folder@,
                reader_hash@,
                (self.image().len() as u64, crate::digest::sha256_of(self.image())),
                self.listing(),
                self.contents(),
            ),
    {
        let source = self.audit_identity();
        let mut contents: Vec<Vec<u8>> = Vec::new();
        let mut i: usize = 0;
        while i < self.entries.len()
            invariant
                i <= self.entries.len(),
                self.wf(),
                self.storage is Memory,
                content_views(contents@) =~= self.contents().subrange(0, i as int),
            decreases self.entries.len() - i,
        {
            let content = self.payload(i);
            let ghost before = content_views(contents@);
            contents.push(content);
            assert(content_views(contents@) =~= before.push(content@));
            i = i + 1;
        }
        assert(content_views(contents@) =~= self.contents());
        assert(contents.len() == content_views(contents@).len());
        self.manifest_with(schema, mount_id, folder, reader_hash, source, &contents)
    }
}

/// The manifest, once the core has judged it.
pub fn accept_manifest(manifest: LegacyPackManifest, core_accepts: bool) -> (r: Result<
    LegacyPackManifest,
    LegacyProviderError,
>)
    ensures
        match r {
            Ok(m) => core_accepts && m == manifest,
            Err(e) => !core_accepts && e@ == crate::fault::fault(
                "ASTRA_FVP_MANIFEST_CORE",
                "in-process VFS manifest failed core validation",
            ),
        },
{
    if core_accepts {
        Ok(manifest)
    } else {
        Err(
            LegacyProviderError::invalid(
                "ASTRA_FVP_MANIFEST_CORE",
                "in-process VFS manifest failed core validation",
            ),
        )
    }
}

// -------------------------------------------- opening an archive piece by piece

/// How far the opening of an archive has come: which part of it is being read.
#[verifier::ext_equal]
pub struct OpeningState {
    pub stat: ByteSourceStat,
    pub metadata: bool,
    pub read: ReadState,
}

/// The opening before anything has arrived: the first eight bytes come first.
pub open spec fn opening(stat: ByteSourceStat, max_range: u64) -> Result<OpeningState, Fault> {
    let range = ByteRange { offset: 0, len: 8 };
    match crate::source::range_fault(stat, range) {
        Some(f) => Err(f),
        None => Ok(
            OpeningState {
                stat,
                metadata: false,
                read: crate::source::fresh_read(range, max_range),
            },
        ),
    }
}

impl OpeningState {
    pub open spec fn done(self) -> bool {
        self.metadata && self.read.request() is None
    }

    /// The state after the caller delivered `reply`: once the header has arrived,
    /// the metadata that it announces is read.
    pub open spec fn after(self, reply: Seq<u8>) -> Result<OpeningState, Fault> {
        let read = self.read.after(reply);
        if !self.metadata && read.request() is None {
            match metadata_of(read.bytes, read.max_range) {
                Err(f) => Err(f),
                Ok(len) => match crate::source::range_fault(self.stat, ByteRange { offset: 0, len }) {
                    Some(f) => Err(f),
                    None => Ok(
                        OpeningState {
                            stat: self.stat,
                            metadata: true,
                            read: crate::source::fresh_read(
                                ByteRange { offset: 0, len },
                                read.max_range,
                            ),
                        },
                    ),
                },
            }
        } else {
            Ok(OpeningState { stat: self.stat, metadata: self.metadata, read })
        }
    }

    /// The metadata that the opening ends with when every reply is the requested
    /// part of `data`.
    pub open spec fn outcome(self, data: Seq<u8>) -> Result<Seq<u8>, Fault>
        decreases
            if self.metadata {
                0int
            } else {
                1int
            },
            self.read.end - self.read.offset,
        when self.read.max_range > 0
    {
        match self.read.request() {
            None => Ok(self.read.bytes),
            Some(range) => match self.after(
                data.subrange(range.offset as int, range.offset + range.len),
            ) {
                Err(f) => Err(f),
                Ok(next) => next.outcome(data),
            },
        }
    }
}

/// An archive that is being opened through bounded reads.
#[derive(Debug)]
pub struct ArchiveOpening {
    pub stat: ByteSourceStat,
    pub metadata: bool,
    pub read: RangeRead,
}

impl ArchiveOpening {
    pub open spec fn view(&self) -> OpeningState {
        OpeningState { stat: self.stat, metadata: self.metadata, read: self.read@ }
    }

    pub open spec fn wf(&self) -> bool {
        self.read.wf()
    }

    pub fn begin(stat: ByteSourceStat, max_range: u64) -> (r: Result<Self, LegacyProviderError>)
        requires
            max_range > 0,
        ensures
            match r {
                Ok(o) => o.wf() && opening(stat, max_range) == Ok::<OpeningState, Fault>(o@),
                Err(e) => opening(stat, max_range) == Err::<OpeningState, Fault>(e@),
            },
    {
        match RangeRead::begin(stat, ByteRange { offset: 0, len: 8 }, max_range) {
            Ok(read) => Ok(ArchiveOpening { stat, metadata: false, read }),
            Err(e) => Err(e),
        }
    }

    /// The range to fetch next; `None` when the metadata is complete.
    pub fn request(&self) -> (r: Option<ByteRange>)
        ensures
            r == self@.read.request(),
    {
        self.read.request()
    }

    /// Takes in the reply to the current request.
    pub fn accept(self, reply: &[u8]) -> (r: Result<Self, LegacyProviderError>)
        requires
            self.wf(),
        ensures
            match r {
                Ok(o) => o.wf() && self@.after(reply@) == Ok::<OpeningState, Fault>(o@),
                Err(e) => self@.after(reply@) == Err::<OpeningState, Fault>(e@),
            },
    {
        let mut read = self.read;
        read.accept(reply);
        if self.metadata || read.request().is_some() {
            return Ok(ArchiveOpening { stat: self.stat, metadata: self.metadata, read });
        }
        let len: u64 = match metadata_len(read.bytes.as_slice(), read.max_range) {
            Ok(v) => v,
            Err(e) => return Err(e),
        };
        match RangeRead::begin(self.stat, ByteRange { offset: 0, len }, read.max_range) {
            Ok(next) => Ok(ArchiveOpening { stat: self.stat, metadata: true, read: next }),
            Err(e) => Err(e),
        }
    }

    fn entries(&self, nls: FvpNls, max_entries: usize) -> (r: Result<
        Vec<FvpArchiveEntry>,
        LegacyProviderError,
    >)
        requires
            crate::nls::decodable(self@.read.bytes.len() as int),
        ensures
            match r {
                Ok(entries) => {
                    &&& entries_of(self@.read.bytes, self.stat.len, nls, max_entries) == Ok::<
                        Seq<EntryView>,
                        Fault,
                    >(entry_views(entries@))
                    &&& entries_fit(entry_views(entries@), self.stat.len)
                },
                Err(e) => entries_of(self@.read.bytes, self.stat.len, nls, max_entries) == Err::<
                    Seq<EntryView>,
                    Fault,
                >(e@),
            },
    {
        FvpArchive::parse_entries(self.read.bytes.as_slice(), self.stat, nls, max_entries)
    }

    /// The archive of a byte source, once its metadata is complete.
    pub fn open_source(self, nls: FvpNls, max_entries: usize) -> (r: Result<
        FvpArchive,
        LegacyProviderError,
    >)
        requires
            self@.done(),
            crate::nls::decodable(self@.read.bytes.len() as int),
        ensures
            match r {
                Ok(archive) => {
                    &&& archive.wf()
                    &&& archive.storage == (ArchiveStorage::Source { stat: self.stat })
                    &&& entries_of(self@.read.bytes, self.stat.len, nls, max_entries) == Ok::<
                        Seq<EntryView>,
                        Fault,
                    >(archive.listing())
                },
                Err(e) => entries_of(self@.read.bytes, self.stat.len, nls, max_entries) == Err::<
                    Seq<EntryView>,
                    Fault,
                >(e@),
            },
    {
        match self.entries(nls, max_entries) {
            Ok(entries) => Ok(
                FvpArchive { storage: ArchiveStorage::Source { stat: self.stat }, entries },
            ),
            Err(e) => Err(e),
        }
    }

    /// The archive of a file that the host serves, once its metadata is complete.
    pub fn open_host(self, mount_set_id: String, uri: String, nls: FvpNls, max_entries: usize) -> (r:
        Result<FvpArchive, LegacyProviderError>)
        requires
            self@.done(),
            crate::nls::decodable(self@.read.bytes.len() as int),
        ensures
            match r {
                Ok(archive) => {
                    &&& archive.wf()
                    &&& archive.storage == (ArchiveStorage::Host {
                        mount_set_id,
                        uri,
                        stat: self.stat,
                    })
                    &&& entries_of(self@.read.bytes, self.stat.len, nls, max_entries) == Ok::<
                        Seq<EntryView>,
                        Fault,
                    >(archive.listing())
                },
                Err(e) => entries_of(self@.read.bytes, self.stat.len, nls, max_entries) == Err::<
                    Seq<EntryView>,
                    Fault,
                >(e@),
            },
    {
        match self.entries(nls, max_entries) {
            Ok(entries) => Ok(
                FvpArchive {
                    storage: ArchiveStorage::Host { mount_set_id, uri, stat: self.stat },
                    entries,
                },
            ),
            Err(e) => Err(e),
        }
    }
}

// ------------------------------------------------- the digest of a host's file

/// How far the digest of a source has come.
#[verifier::ext_equal]
pub struct IdentityState {
    pub digested: Seq<u8>,
    pub len: u64,
    pub chunk: u64,
    pub read: ReadState,
}

/// The read of the next piece, which starts at `offset`.
pub open spec fn piece(offset: u64, len: u64, chunk: u64, max_range: u64) -> ReadState {
    crate::source::fresh_read(
        ByteRange {
            offset,
            len: if len - offset < chunk {
                (len - offset) as u64
            } else {
                chunk
            },
        },
        max_range,
    )
}

impl IdentityState {
    /// The state after the caller delivered `reply`: a complete piece is digested
    /// and the next one follows it.
    pub open spec fn after(self, reply: Seq<u8>) -> IdentityState {
        let read = self.read.after(reply);
        if self.read.request() is Some && read.request() is None {
            IdentityState {
                digested: self.digested + read.bytes,
                read: piece(read.end, self.len, self.chunk, read.max_range),
                ..self
            }
        } else {
            IdentityState { read, ..self }
        }
    }

    /// The bytes that end up in the digest when every reply is the requested part
    /// of `data`.
    pub open spec fn outcome(self, data: Seq<u8>) -> Seq<u8>
        decreases self.len - self.read.offset,
        when self.read.max_range > 0 && self.chunk > 0 && self.read.offset <= self.read.end <= self.len
    {
        match self.read.request() {
            None => self.digested,
            Some(range) => self.after(
                data.subrange(range.offset as int, range.offset + range.len),
            ).outcome(data),
        }
    }
}

/// The digest of a source before anything has arrived.
pub open spec fn identity_start(len: u64, chunk: u64, max_range: u64) -> IdentityState {
    IdentityState {
        digested: Seq::empty(),
        len,
        chunk,
        read: piece(0, len, chunk, max_range),
    }
}

/// The digest of a source in progress.
pub struct IdentityAudit {
    pub digest: RunningDigest,
    pub len: u64,
    pub chunk: u64,
    pub read: RangeRead,
}

impl IdentityAudit {
    pub open spec fn view(&self) -> IdentityState {
        IdentityState {
            digested: crate::digest::absorbed(self.digest),
            len: self.len,
            chunk: self.chunk,
            read: self.read@,
        }
    }

    pub open spec fn wf(&self) -> bool {
        &&& self.read.wf()
        &&& self.read.end <= self.len
        &&& 0 < self.chunk
    }

    fn next_piece(offset: u64, len: u64, chunk: u64, max_range: u64) -> (r: RangeRead)
        requires
            offset <= len,
            chunk > 0,
            max_range > 0,
        ensures
            r.wf(),
            r.end <= len,
            r@ == piece(offset, len, chunk, max_range),
    {
        let rest: u64 = len - offset;
        let step: u64 = if rest < chunk {
            rest
        } else {
            chunk
        };
        let r = RangeRead { bytes: Vec::new(), offset, end: offset + step, max_range };
        assert(r@ =~= piece(offset, len, chunk, max_range));
        r
    }

    pub fn begin(len: u64, chunk: usize, max_range: u64) -> (r: Self)
        requires
            chunk > 0,
            max_range > 0,
        ensures
            r.wf(),
            r@ == identity_start(len, chunk as u64, max_range),
    {
        IdentityAudit {
            digest: RunningDigest::new(),
            len,
            chunk: chunk as u64,
            read: Self::next_piece(0, len, chunk as u64, max_range),
        }
    }

    /// The range to fetch next; `None` when the whole source has been digested.
    pub fn request(&self) -> (r: Option<ByteRange>)
        ensures
            r == self@.read.request(),
    {
        self.read.request()
    }

    /// Takes in the reply to the current request.
    pub fn accept(&mut self, reply: &[u8])
        requires
            old(self).wf(),
        ensures
            final(self).wf(),
            final(self)@ == old(self)@.after(reply@),
    {
        let pending = self.read.request().is_some();
        self.read.accept(reply);
        if pending && self.read.request().is_none() {
            self.digest.update(self.read.bytes.as_slice());
            self.read = Self::next_piece(self.read.end, self.len, self.chunk, self.read.max_range);
        }
        assert(self@ =~= old(self)@.after(reply@));
    }

    /// Length and digest of the source.
    pub fn finish(self) -> (r: (u64, Hash256))
        requires
            self@.read.request() is None,
        ensures
            r.0 == self.len,
            r.1@ == crate::digest::sha256_of(self@.digested),
    {
        (self.len, Hash256::from_bytes(self.digest.finalize()))
    }
}

// ----------------------------------------------------------------------- laws

/// Normalizing a normalized name changes nothing.
pub proof fn law_normalized_name_is_stable(s: Seq<char>)
    requires
        normalized_name(s) is Some,
    ensures
        normalized_name(normalized_name(s)->0) == normalized_name(s),
{
    let v = normalized_name(s)->0;
    let once = text::replaced(s, '\\', '/');
    assert forall|i: int| 0 <= i < v.len() implies #[trigger] v[i] != '\\' by {
        text::lemma_lower_char(once[i]);
    }
    assert(text::replaced(v, '\\', '/') =~= v);
    text::lemma_lower_idempotent(once);
}

proof fn lemma_table_agrees(
    a: Seq<u8>,
    b: Seq<u8>,
    names: Seq<u8>,
    seen: Seq<EntryView>,
    count: int,
    source_len: u64,
    nls: FvpNls,
)
    requires
        8 + 12 * count <= a.len() <= b.len(),
        forall|i: int| 0 <= i < a.len() ==> a[i] == b[i],
        seen.len() <= count,
    ensures
        entry_table(a, names, seen, count, source_len, nls) == entry_table(
            b,
            names,
            seen,
            count,
            source_len,
            nls,
        ),
    decreases count - seen.len(),
{
    if seen.len() < count {
        let base = 8 + 12 * seen.len() as int;
        assert(bytes::u32_at(a, base) == bytes::u32_at(b, base));
        assert(bytes::u32_at(a, base + 4) == bytes::u32_at(b, base + 4));
        assert(bytes::u32_at(a, base + 8) == bytes::u32_at(b, base + 8));
        assert(entry_row(a, names, seen, source_len, nls) == entry_row(
            b,
            names,
            seen,
            source_len,
            nls,
        ));
        match entry_row(a, names, seen, source_len, nls) {
            Err(_) => {},
            Ok(entry) => {
                lemma_table_agrees(a, b, names, seen.push(entry), count, source_len, nls);
            },
        }
    }
}

/// The entry table depends on the metadata alone: reading it out of the announced
/// prefix gives what reading it out of the whole file gives.
pub proof fn law_entries_come_from_the_metadata(
    data: Seq<u8>,
    len: u64,
    nls: FvpNls,
    max_entries: usize,
    max_range: u64,
)
    requires
        metadata_of(data, max_range) is Ok,
        metadata_of(data, max_range)->Ok_0 <= data.len(),
    ensures
        entries_of(data.subrange(0, metadata_of(data, max_range)->Ok_0 as int), len, nls, max_entries)
            == entries_of(data, len, nls, max_entries),
{
    let n = metadata_of(data, max_range)->Ok_0 as int;
    let head = data.subrange(0, n);
    assert(bytes::u32_at(head, 0) == bytes::u32_at(data, 0));
    assert(bytes::u32_at(head, 4) == bytes::u32_at(data, 4));
    let count = bytes::u32_at(data, 0) as int;
    if layout_of(data, max_entries) is Ok {
        let names = layout_of(data, max_entries)->Ok_0;
        assert(head.subrange(names.0, names.1) =~= data.subrange(names.0, names.1));
        lemma_table_agrees(
            head,
            data,
            data.subrange(names.0, names.1),
            Seq::empty(),
            count,
            len,
            nls,
        );
    }
}

proof fn lemma_metadata_phase(s: OpeningState, data: Seq<u8>)
    requires
        s.metadata,
        s.read.max_range > 0,
        s.read.offset <= s.read.end,
    ensures
        s.outcome(data) == Ok::<Seq<u8>, Fault>(s.read.outcome(data)),
    decreases s.read.end - s.read.offset,
{
    match s.read.request() {
        None => {},
        Some(range) => {
            let reply = data.subrange(range.offset as int, range.offset + range.len);
            lemma_metadata_phase(s.after(reply)->Ok_0, data);
        },
    }
}

proof fn lemma_header_phase(s: OpeningState, data: Seq<u8>)
    requires
        !s.metadata,
        s.read.max_range > 0,
        s.read.offset < s.read.end,
    ensures
        ({
            let header = s.read.outcome(data);
            match metadata_of(header, s.read.max_range) {
                Err(f) => s.outcome(data) == Err::<Seq<u8>, Fault>(f),
                Ok(len) => match crate::source::range_fault(s.stat, ByteRange { offset: 0, len }) {
                    Some(f) => s.outcome(data) == Err::<Seq<u8>, Fault>(f),
                    None => s.outcome(data) == Ok::<Seq<u8>, Fault>(
                        crate::source::fresh_read(
                            ByteRange { offset: 0, len },
                            s.read.max_range,
                        ).outcome(data),
                    ),
                },
            }
        }),
    decreases s.read.end - s.read.offset,
{
    let range = s.read.request()->0;
    let reply = data.subrange(range.offset as int, range.offset + range.len);
    let read = s.read.after(reply);
    assert(s.read.outcome(data) == read.outcome(data));
    if read.request() is None {
        assert(read.outcome(data) == read.bytes);
        match s.after(reply) {
            Err(_) => {},
            Ok(next) => {
                lemma_metadata_phase(next, data);
            },
        }
    } else {
        lemma_header_phase(s.after(reply)->Ok_0, data);
    }
}

/// Opening an archive through bounded reads that a source answers truthfully
/// lists the entries that parsing the whole file lists.
pub proof fn law_opening_equals_parsing(
    data: Seq<u8>,
    stat: ByteSourceStat,
    nls: FvpNls,
    max_entries: usize,
    max_range: u64,
)
    requires
        stat.len == data.len(),
        max_range > 0,
        opening(stat, max_range) is Ok,
        opening(stat, max_range)->Ok_0.outcome(data) is Ok,
    ensures
        entries_of(opening(stat, max_range)->Ok_0.outcome(data)->Ok_0, stat.len, nls, max_entries)
            == entries_of(data, stat.len, nls, max_entries),
{
    let s = opening(stat, max_range)->Ok_0;
    lemma_header_phase(s, data);
    crate::source::law_bounded_read_is_exact(data, stat, ByteRange { offset: 0, len: 8 }, max_range);
    let header = data.subrange(0, 8);
    assert(s.read.outcome(data) == header);
    assert(bytes::u32_at(header, 0) == bytes::u32_at(data, 0));
    assert(bytes::u32_at(header, 4) == bytes::u32_at(data, 4));
    assert(metadata_of(header, max_range) == metadata_of(data, max_range));
    let len = metadata_of(data, max_range)->Ok_0;
    crate::source::law_bounded_read_is_exact(data, stat, ByteRange { offset: 0, len }, max_range);
    law_entries_come_from_the_metadata(data, stat.len, nls, max_entries, max_range);
}

proof fn lemma_identity(s: IdentityState, data: Seq<u8>)
    requires
        s.read.max_range > 0,
        s.chunk > 0,
        s.read.offset <= s.read.end <= s.len,
        s.len == data.len(),
        s.read.end < s.len ==> s.read.offset < s.read.end,
        s.digested + s.read.bytes == data.subrange(0, s.read.offset as int),
        s.read.offset == s.read.end ==> s.read.bytes.len() == 0,
    ensures
        s.outcome(data) == data,
    decreases s.len - s.read.offset,
{
    match s.read.request() {
        None => {
            assert(s.read.bytes =~= Seq::<u8>::empty());
            assert(s.digested + s.read.bytes =~= s.digested);
            assert(data.subrange(0, s.len as int) =~= data);
        },
        Some(range) => {
            let reply = data.subrange(range.offset as int, range.offset + range.len);
            let next = s.after(reply);
            let read = s.read.after(reply);
            assert(s.digested + (s.read.bytes + reply) =~= (s.digested + s.read.bytes) + reply);
            assert(data.subrange(0, s.read.offset as int) + reply =~= data.subrange(
                0,
                read.offset as int,
            ));
            if read.request() is None {
                assert(next.digested + next.read.bytes =~= next.digested);
            }
            lemma_identity(next, data);
        },
    }
}

/// The digest of a source that answers truthfully takes in every byte once, in
/// order, whatever the piece size and the limit on one request.
pub proof fn law_identity_covers_the_source(data: Seq<u8>, len: u64, chunk: u64, max_range: u64)
    requires
        len == data.len(),
        chunk > 0,
        max_range > 0,
    ensures
        identity_start(len, chunk, max_range).outcome(data) == data,
{
    let s = identity_start(len, chunk, max_range);
    assert(s.digested + s.read.bytes =~= data.subrange(0, 0));
    lemma_identity(s, data);
}

/// Whether a text is a name under which an entry is found as it stands: a plain path of
/// forward slashes, without ASCII capitals and without a colon.
pub open spec fn normal_name(s: Seq<char>) -> bool {
    &&& text::plain_path(s)
    &&& forall|i: int|
        0 <= i < s.len() ==> {
            let c = #[trigger] s[i];
            c != '\\' && c != ':' && !('A' <= c <= 'Z')
        }
}

/// A name is taken as it stands if it is a normal one, and every name that is taken becomes
/// a normal one that differs from it in the case of letters and the slant of slashes only.
pub proof fn law_names_become_normal(s: Seq<char>)
    ensures
        normal_name(s) ==> normalized_name(s) == Some(s),
        normalized_name(s) matches Some(t) ==> {
            &&& normal_name(t)
            &&& t.len() == s.len()
            &&& forall|i: int|
                0 <= i < s.len() ==> {
                    let (c, d) = (#[trigger] s[i], t[i]);
                    ||| c == d
                    ||| c == '\\' && d == '/'
                    ||| 'A' <= c <= 'Z' && d as int == c as int + 32
                }
        },
        s.contains(':') ==> normalized_name(s) is None,
{
    let v = text::lower(text::replaced(s, '\\', '/'));
    if normal_name(s) {
        assert(v =~= s);
        assert(!v.contains(':'));
    }
    if !v.contains(':') {
        assert forall|i: int| 0 <= i < v.len() implies {
            let c = #[trigger] v[i];
            c != '\\' && c != ':' && !('A' <= c <= 'Z')
        } by {
            assert(v.contains(v[i]));
        }
    }
    if s.contains(':') {
        let i = choose|i: int| 0 <= i < s.len() && s[i] == ':';
        assert(v[i] == ':');
    }
}

proof fn lemma_nul(s: Seq<u8>, from: int, end: int)
    requires
        0 <= from <= end < s.len(),
        s[end] == 0,
        forall|i: int| from <= i < end ==> s[i] != 0,
    ensures
        nul_from(s, from) == Some(end),
    decreases end - from,
{
    if from < end {
        lemma_nul(s, from + 1, end);
    }
}

/// Whether `b` holds the table of an archive: two counts, then for each entry where its
/// name starts among the names, where its payload starts and how long it is, then the
/// names, each with a NUL behind it. Offsets of names may overlap and come in any order.
pub open spec fn holds_table(
    b: Seq<u8>,
    names_len: u32,
    name_at: Seq<u32>,
    names: Seq<Seq<u8>>,
    offsets: Seq<u32>,
    sizes: Seq<u32>,
) -> bool {
    let start = 8 + 12 * names.len() as int;
    &&& names.len() == name_at.len() == offsets.len() == sizes.len()
    &&& names.len() <= u32::MAX
    &&& start + names_len <= b.len()
    &&& b.subrange(0, 4) == bytes::le32(names.len() as u32)
    &&& b.subrange(4, 8) == bytes::le32(names_len)
    &&& forall|i: int|
        #![trigger names[i]]
        0 <= i < names.len() ==> holds_entry(
            b,
            start,
            names_len,
            i,
            name_at[i],
            names[i],
            offsets[i],
            sizes[i],
        )
}

/// Whether the row `i` of the table in `b` has these fields and points to the name, which
/// stands among the names that start at `start` with a NUL behind it.
pub open spec fn holds_entry(
    b: Seq<u8>,
    start: int,
    names_len: u32,
    i: int,
    name_at: u32,
    name: Seq<u8>,
    offset: u32,
    size: u32,
) -> bool {
    holds_row(b, i, name_at, offset, size) && holds_name(b, start, names_len, name_at, name)
}

/// Whether the row `i` of the table in `b` has these three fields.
pub open spec fn holds_row(b: Seq<u8>, i: int, name_at: u32, offset: u32, size: u32) -> bool {
    let row = 8 + 12 * i;
    &&& b.subrange(row, row + 4) == bytes::le32(name_at)
    &&& b.subrange(row + 4, row + 8) == bytes::le32(offset)
    &&& b.subrange(row + 8, row + 12) == bytes::le32(size)
}

/// Whether a name with a NUL behind it stands at a place of the names of `b`, which start at
/// `start`.
pub open spec fn holds_name(b: Seq<u8>, start: int, names_len: u32, at: u32, name: Seq<u8>) -> bool {
    &&& at + name.len() < names_len
    &&& !name.contains(0u8)
    &&& b.subrange(start + at, start + at + name.len() + 1) == name.push(0u8)
}

spec fn written_entries(
    names: Seq<Seq<u8>>,
    offsets: Seq<u32>,
    sizes: Seq<u32>,
    n: int,
    nls: FvpNls,
) -> Seq<EntryView> {
    Seq::new(
        n as nat,
        |i: int|
            EntryView {
                name: crate::nls::decoded(nls, names[i]).0,
                offset: offsets[i] as u64,
                size: sizes[i] as u64,
            },
    )
}

proof fn lemma_written_rows(
    b: Seq<u8>,
    names_len: u32,
    name_at: Seq<u32>,
    names: Seq<Seq<u8>>,
    offsets: Seq<u32>,
    sizes: Seq<u32>,
    n: int,
    source_len: u64,
    nls: FvpNls,
)
    requires
        holds_table(b, names_len, name_at, names, offsets, sizes),
        0 <= n <= names.len(),
        forall|i: int|
            0 <= i < names.len() ==> {
                &&& !crate::nls::decoded(nls, #[trigger] names[i]).1
                &&& normal_name(crate::nls::decoded(nls, names[i]).0)
                &&& offsets[i] + sizes[i] <= source_len
            },
        forall|i: int, j: int|
            0 <= i < j < names.len() ==> crate::nls::decoded(nls, #[trigger] names[i]).0
                != crate::nls::decoded(nls, #[trigger] names[j]).0,
    ensures
        entry_table(
            b,
            b.subrange(8 + 12 * names.len() as int, 8 + 12 * names.len() + names_len),
            written_entries(names, offsets, sizes, n, nls),
            names.len() as int,
            source_len,
            nls,
        ) == Ok::<Seq<EntryView>, Fault>(
            written_entries(names, offsets, sizes, names.len() as int, nls),
        ),
    decreases names.len() - n,
{
    let seen = written_entries(names, offsets, sizes, n, nls);
    if n < names.len() {
        let start = 8 + 12 * names.len() as int;
        let field = b.subrange(start, start + names_len);
        let row = 8 + 12 * n;
        let name = names[n];
        let at = name_at[n] as int;
        bytes::lemma_read_at(b, row, 0, name_at[n]);
        bytes::lemma_read_at(b, row + 4, 0, offsets[n]);
        bytes::lemma_read_at(b, row + 8, 0, sizes[n]);
        let written = b.subrange(start + at, start + at + name.len() + 1);
        assert forall|i: int| at <= i <= at + name.len() implies field[i] == name.push(0u8)[i - at]
            && (i < at + name.len() ==> field[i] != 0) by {
            assert(field[i] == written[i - at]);
            if i < at + name.len() {
                assert(name.contains(name[i - at]));
            }
        }
        lemma_nul(field, at, at + name.len());
        assert(field.subrange(at, at + name.len()) =~= name);
        let read = crate::nls::decoded(nls, name);
        law_names_become_normal(read.0);
        if has_entry(seen, read.0) {
            let i = choose|i: int| 0 <= i < seen.len() && (#[trigger] seen[i]).name == read.0;
            assert(crate::nls::decoded(nls, names[i]).0 != crate::nls::decoded(nls, names[n]).0);
        }
        let entry = EntryView { name: read.0, offset: offsets[n] as u64, size: sizes[n] as u64 };
        assert(entry_row(b, field, seen, source_len, nls) == Ok::<EntryView, Fault>(entry));
        assert(seen.push(entry) =~= written_entries(names, offsets, sizes, n + 1, nls));
        lemma_written_rows(
            b,
            names_len,
            name_at,
            names,
            offsets,
            sizes,
            n + 1,
            source_len,
            nls,
        );
    }
}

/// An archive is read back as it was written: its entries come in the order of the table,
/// each with the name that its row points to and with the place and the size of its row.
pub proof fn law_written_archive_is_read_back(
    b: Seq<u8>,
    names_len: u32,
    name_at: Seq<u32>,
    names: Seq<Seq<u8>>,
    offsets: Seq<u32>,
    sizes: Seq<u32>,
    source_len: u64,
    nls: FvpNls,
    max_entries: usize,
)
    requires
        holds_table(b, names_len, name_at, names, offsets, sizes),
        b.len() <= usize::MAX,
        names.len() <= max_entries,
        forall|i: int|
            0 <= i < names.len() ==> {
                &&& !crate::nls::decoded(nls, #[trigger] names[i]).1
                &&& normal_name(crate::nls::decoded(nls, names[i]).0)
                &&& offsets[i] + sizes[i] <= source_len
            },
        forall|i: int, j: int|
            0 <= i < j < names.len() ==> crate::nls::decoded(nls, #[trigger] names[i]).0
                != crate::nls::decoded(nls, #[trigger] names[j]).0,
    ensures
        entries_of(b, source_len, nls, max_entries) matches Ok(entries) && {
            &&& entries.len() == names.len()
            &&& forall|i: int|
                #![trigger entries[i]]
                0 <= i < names.len() ==> {
                    &&& entries[i].name == crate::nls::decoded(nls, names[i]).0
                    &&& entries[i].offset == offsets[i]
                    &&& entries[i].size == sizes[i]
                }
        },
{
    bytes::lemma_read_at(b, 0, 0, names.len() as u32);
    bytes::lemma_read_at(b, 4, 0, names_len);
    assert(written_entries(names, offsets, sizes, 0, nls) =~= Seq::<EntryView>::empty());
    lemma_written_rows(b, names_len, name_at, names, offsets, sizes, 0, source_len, nls);
}

/// More entries than allowed are refused, whatever else the archive holds.
pub proof fn law_too_many_entries_are_refused(
    b: Seq<u8>,
    count: u32,
    source_len: u64,
    nls: FvpNls,
    max_entries: usize,
)
    requires
        b.len() >= 8,
        b.subrange(0, 4) == bytes::le32(count),
        count > max_entries,
    ensures
        entries_of(b, source_len, nls, max_entries) matches Err(f) && f.code
            == "ASTRA_FVP_ARCHIVE_ENTRY_COUNT"@,
{
    bytes::lemma_read_at(b, 0, 0, count);
}

/// The metadata of an archive with `count` entries and `names_len` bytes of names is eight
/// bytes, twelve for each entry and the names. It is refused only where that is more than
/// may be read or more than fits in memory.
pub proof fn law_metadata_is_counts_rows_and_names(
    count: u32,
    names_len: u32,
    rest: Seq<u8>,
    max_range: u64,
)
    ensures
        ({
            let header = bytes::le32(count) + bytes::le32(names_len) + rest;
            let total = 8 + 12 * count + names_len;
            if total <= max_range && total <= usize::MAX {
                metadata_of(header, max_range) == Ok::<u64, Fault>(total as u64)
            } else {
                metadata_of(header, max_range) is Err
            }
        }),
{
    let header = bytes::le32(count) + bytes::le32(names_len) + rest;
    assert(header.subrange(0, 4) =~= bytes::le32(count));
    assert(header.subrange(4, 8) =~= bytes::le32(names_len));
    bytes::lemma_read_at(header, 0, 0, count);
    bytes::lemma_read_at(header, 4, 0, names_len);
}

/// A payload is told by its first four bytes: those of an Ogg page, of a RIFF file, of a
/// picture of the engine, of an ASF file. Any other is a plain one.
pub proof fn law_kinds_are_told_by_the_first_bytes(rest: Seq<u8>, b: Seq<u8>)
    ensures
        media_kind(seq!['O' as u8, 'g' as u8, 'g' as u8, 'S' as u8] + rest) == "audio.ogg"@,
        media_kind(seq!['R' as u8, 'I' as u8, 'F' as u8, 'F' as u8] + rest) == "audio.riff"@,
        media_kind(seq!['h' as u8, 'z' as u8, 'c' as u8, '1' as u8] + rest) == "image.hzc1"@,
        media_kind(seq![0x30u8, 0x26, 0xb2, 0x75] + rest) == "video.asf"@,
        b.len() < 4 ==> media_kind(b) == "application.octet_stream"@,
        b.len() >= 4 && !(b[0] == 'O' as u8 && b[1] == 'g' as u8 && b[2] == 'g' as u8 && b[3]
            == 'S' as u8) && !(b[0] == 'R' as u8 && b[1] == 'I' as u8 && b[2] == 'F' as u8 && b[3]
            == 'F' as u8) && !(b[0] == 'h' as u8 && b[1] == 'z' as u8 && b[2] == 'c' as u8 && b[3]
            == '1' as u8) && !(b[0] == 0x30 && b[1] == 0x26 && b[2] == 0xb2 && b[3] == 0x75)
            ==> media_kind(b) == "application.octet_stream"@,
{
    let ogg = seq!['O' as u8, 'g' as u8, 'g' as u8, 'S' as u8];
    let riff = seq!['R' as u8, 'I' as u8, 'F' as u8, 'F' as u8];
    let hzc = seq!['h' as u8, 'z' as u8, 'c' as u8, '1' as u8];
    let asf = seq![0x30u8, 0x26, 0xb2, 0x75];
    assert((ogg + rest).subrange(0, 4) =~= ogg);
    assert((riff + rest).subrange(0, 4) =~= riff);
    assert((hzc + rest).subrange(0, 4) =~= hzc);
    assert((asf + rest).subrange(0, 4) =~= asf);
    assert(ogg[0] != riff[0] && ogg[0] != hzc[0] && ogg[0] != asf[0] && riff[0] != hzc[0] && riff[0]
        != asf[0] && hzc[0] != asf[0]);
    assert(ogg =~= seq![0x4fu8, 0x67, 0x67, 0x53]);
    assert(riff =~= seq![0x52u8, 0x49, 0x46, 0x46]);
    assert(hzc =~= seq![0x68u8, 0x7a, 0x63, 0x31]);
    if b.len() >= 4 {
        let head = b.subrange(0, 4);
        assert(head[0] == b[0] && head[1] == b[1] && head[2] == b[2] && head[3] == b[3]);
        assert(ogg[1] == 'g' as u8 && ogg[2] == 'g' as u8 && ogg[3] == 'S' as u8);
        assert(riff[1] == 'I' as u8 && riff[2] == 'F' as u8 && riff[3] == 'F' as u8);
        assert(hzc[1] == 'z' as u8 && hzc[2] == 'c' as u8 && hzc[3] == '1' as u8);
        assert(asf[1] == 0x26 && asf[2] == 0xb2 && asf[3] == 0x75);
    }
}

/// A manifest has one line for each entry, in order: its address and identity name the
/// folder and the entry, its place and sizes are the entry's, and its digests and kind are
/// those of the content. The one source is the archive itself.
pub proof fn law_manifest_lists_the_archive(
    schema: Seq<char>,
    mount_id: Seq<char>,
    folder: Seq<char>,
    reader_hash: Seq<u8>,
    source_len: u64,
    source_hash: Seq<u8>,
    entries: Seq<EntryView>,
    contents: Seq<Seq<u8>>,
    i: int,
)
    requires
        0 <= i < entries.len() == contents.len(),
    ensures
        ({
            let manifest = manifest_of(
                schema,
                mount_id,
                folder,
                reader_hash,
                (source_len, source_hash),
                entries,
                contents,
            );
            let line = manifest.entries[i];
            let source = manifest.sources[0];
            &&& manifest.schema == schema
            &&& manifest.mount_id == mount_id
            &&& manifest.reader_hash == reader_hash
            &&& manifest.mount_profile_hash == reader_hash
            &&& manifest.family_id == "fvp"@
            &&& manifest.prefix == "fvp:/"@
            &&& manifest.sources.len() == 1
            &&& source.source_id == folder
            &&& source.archive_role == Some(folder)
            &&& source.byte_size == source_len
            &&& source.part_count == 1
            &&& source.source_hash == source_hash
            &&& manifest.entries.len() == entries.len()
            &&& line.uri == manifest.prefix + folder + "/"@ + entries[i].name
            &&& line.entry_id == folder + ":"@ + entries[i].name
            &&& line.source_id == source.source_id
            &&& line.source_offset == entries[i].offset
            &&& line.stored_size == entries[i].size
            &&& line.decoded_size == entries[i].size
            &&& line.content_hash == Some(crate::digest::sha256_of(contents[i]))
            &&& line.source_hash == crate::digest::sha256_of(contents[i])
            &&& line.media_kind == media_kind(contents[i])
            &&& line.method == "raw"@
        }),
{
}

/// Whether the row behind the first `i` entries is read as the next one.
#[verifier::opaque]
spec fn row_is_read(
    b: Seq<u8>,
    names: Seq<u8>,
    all: Seq<EntryView>,
    i: int,
    source_len: u64,
    nls: FvpNls,
) -> bool {
    entry_row(b, names, all.take(i), source_len, nls) == Ok::<EntryView, Fault>(all[i])
}

proof fn lemma_rows_read(
    b: Seq<u8>,
    names: Seq<u8>,
    seen: Seq<EntryView>,
    count: int,
    source_len: u64,
    nls: FvpNls,
)
    requires
        seen.len() <= count,
        entry_table(b, names, seen, count, source_len, nls) is Ok,
    ensures
        ({
            let all = entry_table(b, names, seen, count, source_len, nls)->Ok_0;
            &&& all.len() == count
            &&& all.take(seen.len() as int) == seen
            &&& forall|i: int|
                seen.len() <= i < count ==> #[trigger] row_is_read(
                    b,
                    names,
                    all,
                    i,
                    source_len,
                    nls,
                )
        }),
    decreases count - seen.len(),
{
    reveal(row_is_read);
    let all = entry_table(b, names, seen, count, source_len, nls)->Ok_0;
    if seen.len() >= count {
        assert(all.take(seen.len() as int) =~= seen);
    } else {
        let entry = entry_row(b, names, seen, source_len, nls)->Ok_0;
        let more = seen.push(entry);
        lemma_rows_read(b, names, more, count, source_len, nls);
        assert(all.take(more.len() as int) == more);
        assert(all.take(seen.len() as int) =~= seen) by {
            assert forall|i: int| 0 <= i < seen.len() implies all[i] == seen[i] by {
                assert(all.take(more.len() as int)[i] == more[i]);
            }
        }
        assert(all[seen.len() as int] == entry) by {
            assert(all.take(more.len() as int)[seen.len() as int] == more[seen.len() as int]);
        }
    }
}

proof fn lemma_nul_found(s: Seq<u8>, from: int)
    requires
        0 <= from <= s.len(),
        nul_from(s, from) is Some,
    ensures
        from <= nul_from(s, from)->0 < s.len(),
        s[nul_from(s, from)->0] == 0,
        forall|i: int| from <= i < nul_from(s, from)->0 ==> s[i] != 0,
    decreases s.len() - from,
{
    if from < s.len() && s[from] != 0 {
        lemma_nul_found(s, from + 1);
    }
}

proof fn lemma_rows_distinct(
    b: Seq<u8>,
    field: Seq<u8>,
    entries: Seq<EntryView>,
    source_len: u64,
    nls: FvpNls,
)
    requires
        forall|i: int|
            0 <= i < entries.len() ==> #[trigger] row_is_read(
                b,
                field,
                entries,
                i,
                source_len,
                nls,
            ),
    ensures
        forall|i: int, j: int|
            0 <= i < j < entries.len() ==> (#[trigger] entries[i]).name != (
            #[trigger] entries[j]).name,
{
    assert forall|i: int, j: int| 0 <= i < j < entries.len() implies (#[trigger] entries[i]).name != (
    #[trigger] entries[j]).name by {
        let seen = entries.take(j);
        assert(row_is_read(b, field, entries, j, source_len, nls));
        reveal(row_is_read);
        if entries[i].name == entries[j].name {
            assert(seen[i].name == entries[j].name);
            assert(has_entry(seen, entries[j].name));
        }
    }
}

proof fn lemma_row_read(
    b: Seq<u8>,
    count: int,
    names_len: u32,
    entries: Seq<EntryView>,
    i: int,
    source_len: u64,
    nls: FvpNls,
)
    requires
        0 <= i < count == entries.len(),
        8 + 12 * count + names_len <= b.len(),
        ({
            let start = 8 + 12 * count;
            let field = b.subrange(start, start + names_len);
            row_is_read(b, field, entries, i, source_len, nls)
        }),
    ensures
        ({
            let start = 8 + 12 * count;
            let field = b.subrange(start, start + names_len);
            let row = 8 + 12 * i;
            let from = bytes::u32_at(b, row);
            let offset = bytes::u32_at(b, row + 4);
            let size = bytes::u32_at(b, row + 8);
            let name = field.subrange(from as int, nul_from(field, from as int)->0);
            &&& holds_row(b, i, from, offset, size)
            &&& holds_name(b, start, names_len, from, name)
            &&& means(entries[i], name, offset, size, source_len, nls)
        }),
{
    reveal(row_is_read);
    let start = 8 + 12 * count;
    let field = b.subrange(start, start + names_len);
    let row = 8 + 12 * i;
    bytes::lemma_write_back(b, row);
    bytes::lemma_write_back(b, row + 4);
    bytes::lemma_write_back(b, row + 8);
    let from = bytes::u32_at(b, row) as int;
    lemma_nul_found(field, from);
    let end = nul_from(field, from)->0;
    let name = field.subrange(from, end);
    assert(b.subrange(start + from, start + end + 1) =~= name.push(0u8));
    assert(!name.contains(0u8));
}

/// Only what holds the table of an archive is accepted as one. Each entry then has the place
/// and the size of its row and lies in the archive, and its name is the normal form of the
/// name that its row points to; no two have one name.
#[verifier::rlimit(60)]
pub proof fn law_accepted_archive_is_as_written(
    b: Seq<u8>,
    source_len: u64,
    nls: FvpNls,
    max_entries: usize,
)
    requires
        entries_of(b, source_len, nls, max_entries) is Ok,
    ensures
        ({
            let entries = entries_of(b, source_len, nls, max_entries)->Ok_0;
            &&& entries.len() <= max_entries
            &&& exists|names_len: u32, name_at: Seq<u32>, names: Seq<Seq<u8>>, offsets: Seq<u32>, sizes: Seq<u32>|
                {
                    &&& #[trigger] holds_table(b, names_len, name_at, names, offsets, sizes)
                    &&& stands_in(entries, names, offsets, sizes, source_len, nls)
                }
        }),
{
    let entries = entries_of(b, source_len, nls, max_entries)->Ok_0;
    let count = bytes::u32_at(b, 0);
    let names_len = bytes::u32_at(b, 4);
    let start = 8 + 12 * count as int;
    let field = b.subrange(start, start + names_len);
    lemma_rows_read(b, field, Seq::empty(), count as int, source_len, nls);
    let name_at = Seq::new(count as nat, |i: int| bytes::u32_at(b, 8 + 12 * i));
    let offsets = Seq::new(count as nat, |i: int| bytes::u32_at(b, 8 + 12 * i + 4));
    let sizes = Seq::new(count as nat, |i: int| bytes::u32_at(b, 8 + 12 * i + 8));
    let names = Seq::new(
        count as nat,
        |i: int|
            field.subrange(
                bytes::u32_at(b, 8 + 12 * i) as int,
                nul_from(field, bytes::u32_at(b, 8 + 12 * i) as int)->0,
            ),
    );
    bytes::lemma_write_back(b, 0);
    bytes::lemma_write_back(b, 4);
    assert forall|i: int| #![trigger names[i]] 0 <= i < count implies {
        &&& holds_entry(b, start, names_len, i, name_at[i], names[i], offsets[i], sizes[i])
        &&& means(entries[i], names[i], offsets[i], sizes[i], source_len, nls)
    } by {
        assert(row_is_read(b, field, entries, i, source_len, nls));
        lemma_row_read(b, count as int, names_len, entries, i, source_len, nls);
    }
    lemma_rows_distinct(b, field, entries, source_len, nls);
    assert(names.len() as u32 == count);
    assert(b.subrange(0, 4) == bytes::le32(count));
    assert(b.subrange(4, 8) == bytes::le32(names_len));
    assert(start == 8 + 12 * names.len() as int);
    assert(holds_table(b, names_len, name_at, names, offsets, sizes));
    assert(stands_in(entries, names, offsets, sizes, source_len, nls));
}

/// Whether an entry is what a row with this name, place and size stands for.
pub open spec fn means(
    entry: EntryView,
    name: Seq<u8>,
    offset: u32,
    size: u32,
    source_len: u64,
    nls: FvpNls,
) -> bool {
    &&& entry.offset == offset
    &&& entry.size == size
    &&& offset + size <= source_len
    &&& !crate::nls::decoded(nls, name).1
    &&& normalized_name(crate::nls::decoded(nls, name).0) == Some(entry.name)
}

/// Whether entries are those that a table with these rows stands for.
pub open spec fn stands_in(
    entries: Seq<EntryView>,
    names: Seq<Seq<u8>>,
    offsets: Seq<u32>,
    sizes: Seq<u32>,
    source_len: u64,
    nls: FvpNls,
) -> bool {
    &&& entries.len() == names.len()
    &&& forall|i: int|
        #![trigger names[i]]
        0 <= i < names.len() ==> {
            means(entries[i], names[i], offsets[i], sizes[i], source_len, nls)
        }
    &&& forall|i: int, j: int|
        0 <= i < j < entries.len() ==> (#[trigger] entries[i]).name != (#[trigger] entries[j]).name
}

/// What is said of an entry is said of its own fields.
pub proof fn law_entry_is_seen_as_it_is(entry: FvpArchiveEntry)
    ensures
        entry@.name == entry.name@,
        entry@.offset == entry.offset,
        entry@.size == entry.size,
{
}

/// Why an entry is refused: its name cannot be read, is no path, or is taken, or it does not
/// lie in the archive. Otherwise it is taken as its row says.
pub proof fn law_refused_entries_are_told_apart(
    seen: Seq<EntryView>,
    name: Seq<char>,
    malformed: bool,
    offset: u32,
    size: u32,
    source_len: u64,
)
    ensures
        ({
            let told = admitted_entry(seen, (name, malformed), offset, size, source_len);
            let normal = normalized_name(name);
            let taken = normal is Some && exists|i: int|
                0 <= i < seen.len() && (#[trigger] seen[i]).name == normal->0;
            &&& malformed ==> (told matches Err(f) && f.code == "ASTRA_FVP_ARCHIVE_NAME_ENCODING"@)
            &&& !malformed && normal is None ==> (told matches Err(f) && f.code
                == "ASTRA_FVP_ARCHIVE_NAME"@)
            &&& !malformed && normal is Some && taken ==> (told matches Err(f) && f.code
                == "ASTRA_FVP_ARCHIVE_NAME_DUPLICATE"@)
            &&& !malformed && normal is Some && !taken && offset + size > source_len ==> (
            told matches Err(f) && f.code == "ASTRA_FVP_ARCHIVE_ENTRY_BOUNDS"@)
            &&& !malformed && normal is Some && !taken && offset + size <= source_len ==> (
            told matches Ok(entry) && entry.name == normal->0 && entry.offset == offset
                && entry.size == size)
        }),
{
}

/// Why a row is refused before its entry is looked at: its name starts outside the names or
/// has no end there.
pub proof fn law_refused_rows_are_told_apart(
    b: Seq<u8>,
    names: Seq<u8>,
    seen: Seq<EntryView>,
    source_len: u64,
    nls: FvpNls,
    name_at: u32,
)
    requires
        8 + 12 * seen.len() + 12 <= b.len(),
        b.subrange(8 + 12 * seen.len() as int, 8 + 12 * seen.len() as int + 4) == bytes::le32(
            name_at,
        ),
    ensures
        name_at > names.len() ==> (entry_row(b, names, seen, source_len, nls) matches Err(f)
            && f.code == "ASTRA_FVP_ARCHIVE_NAME_OFFSET"@),
        name_at <= names.len() && !names.skip(name_at as int).contains(0u8) ==> (entry_row(
            b,
            names,
            seen,
            source_len,
            nls,
        ) matches Err(f) && f.code == "ASTRA_FVP_ARCHIVE_NAME_TERMINATOR"@),
{
    bytes::lemma_read_at(b, 8 + 12 * seen.len() as int, 0, name_at);
    if name_at <= names.len() && nul_from(names, name_at as int) is Some {
        lemma_nul_found(names, name_at as int);
        let end = nul_from(names, name_at as int)->0;
        assert(names.skip(name_at as int)[end - name_at] == 0);
    }
}

}
