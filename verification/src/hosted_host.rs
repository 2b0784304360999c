//! The bounded file port of a hosted session.
//!
//! Files come from a registered case in memory or from a virtual file system.
//! Saves go to a writable host. Requests to either are handed to the caller, and
//! the replies decide how an operation goes on.

use vstd::prelude::*;

use crate::bytes;
use crate::fault::LegacyProviderError;
use crate::float::Float32;
use crate::host_api::{
    AudioParams, AudioStreamDesc, AudioStreamId, ColorRgba, DrawSolidCommand, DrawSpriteCommand,
    EncodedAudioKind, PixelBuffer, RfvpError, RfvpFileInfo, RfvpFileKind, TextureDesc, TextureId,
    TextureRect,
};
use crate::names::NameMap;
use crate::paging::VfsFile;
use crate::source::ByteSourceStat;
use crate::text;

verus! {

pub const MAX_HOSTED_FILES: usize = 65_536;

/// Limit on the length of a file. Whole-file reads have limits of their own.
pub const MAX_HOSTED_FILE_BYTES: u64 = 8_589_934_592;

pub const MAX_HOSTED_WRITABLE_BYTES: u64 = 67_108_864;

// ----------------------------------------------------------------------- paths

/// `s` without one leading `./`.
pub open spec fn without_dot(s: Seq<char>) -> Seq<char> {
    if s.len() >= 2 && s[0] == '.' && s[1] == '/' {
        s.subrange(2, s.len() as int)
    } else {
        s
    }
}

/// The path under which a file is found: a plain path in ASCII small letters,
/// without backslashes.
pub open spec fn normal_path(s: Seq<char>) -> Option<Seq<char>> {
    let t = without_dot(s);
    if text::plain_path(t) && !t.contains('\\') {
        Some(text::lower(t))
    } else {
        None
    }
}

fn strip_dot(v: Vec<char>) -> (r: Vec<char>)
    ensures
        r@ == without_dot(v@),
{
    if v.len() >= 2 && v[0] == '.' && v[1] == '/' {
        text::slice_chars(&v, 2, v.len())
    } else {
        v
    }
}

/// The path under which a file is found.
pub fn normalize(path: &str) -> (r: Result<String, RfvpError>)
    ensures
        match r {
            Ok(t) => normal_path(path@) == Some(t@),
            Err(e) => normal_path(path@) is None && e == RfvpError::InvalidArgument,
        },
{
    let v = strip_dot(text::chars_of(path));
    if !text::is_plain_path(&v) || text::has_char(&v, '\\') {
        return Err(RfvpError::InvalidArgument);
    }
    Ok(text::string_of(&text::to_lower(&v)))
}

/// The last place of `c` in `s` before `end`.
pub open spec fn last_place(s: Seq<char>, c: char, end: int) -> Option<int>
    decreases end,
{
    if end <= 0 {
        None
    } else if s[end - 1] == c {
        Some(end - 1)
    } else {
        last_place(s, c, end - 1)
    }
}

pub fn find_last(v: &Vec<char>, c: char) -> (r: Option<usize>)
    ensures
        match r {
            Some(i) => last_place(v@, c, v@.len() as int) == Some(i as int) && i < v@.len() && v@[i as int]
                == c,
            None => last_place(v@, c, v@.len() as int) is None,
        },
{
    let mut end: usize = v.len();
    while end > 0
        invariant
            end <= v@.len(),
            last_place(v@, c, v@.len() as int) == last_place(v@, c, end as int),
        decreases end,
    {
        if v[end - 1] == c {
            return Some(end - 1);
        }
        end = end - 1;
    }
    None
}

/// Whether `path` lies below `root` and what follows its last dot is `extension`
/// up to ASCII case. Everything lies below the empty root.
pub open spec fn listed(path: Seq<char>, root: Seq<char>, extension: Seq<char>) -> bool {
    &&& root.len() == 0 || (text::has_prefix(path, root) && path.len() > root.len()
        && path[root.len() as int] == '/')
    &&& match last_place(path, '.', path.len() as int) {
        Some(dot) => text::same_ignoring_case(
            path.subrange(dot + 1, path.len() as int),
            extension,
        ),
        None => false,
    }
}

pub fn in_root_with_extension(path: &str, root: &str, extension: &str) -> (r: bool)
    ensures
        r == listed(path@, root@, extension@),
{
    let p = text::chars_of(path);
    let q = text::chars_of(root);
    if q.len() != 0 {
        if !text::starts_with(&p, root) || p.len() <= q.len() || p[q.len()] != '/' {
            return false;
        }
    }
    match find_last(&p, '.') {
        None => false,
        Some(dot) => {
            let suffix = text::to_lower(&text::slice_chars(&p, dot + 1, p.len()));
            let wanted = text::to_lower(&text::chars_of(extension));
            let a = text::string_of(&suffix);
            let b = text::string_of(&wanted);
            text::same_text(a.as_str(), b.as_str())
        },
    }
}

// ----------------------------------------------------------- the writable host

/// A request to the writable host.
#[derive(Debug)]
pub enum LegacyWritableFileRequestV1 {
    Stat { path: String },
    ReadRange { path: String, offset: u64, length: u64 },
    CreateDir { path: String },
    WriteRange { path: String, offset: u64, bytes: Vec<u8> },
    SetLength { path: String, length: u64 },
    AtomicReplace { temporary_path: String, destination_path: String },
    Remove { path: String },
    List { path: String },
}

/// What a request asks for.
#[verifier::ext_equal]
pub enum WriteRequest {
    Stat { path: Seq<char> },
    ReadRange { path: Seq<char>, offset: u64, length: u64 },
    CreateDir { path: Seq<char> },
    WriteRange { path: Seq<char>, offset: u64, bytes: Seq<u8> },
    SetLength { path: Seq<char>, length: u64 },
    AtomicReplace { temporary: Seq<char>, destination: Seq<char> },
    Remove { path: Seq<char> },
    List { path: Seq<char> },
}

impl LegacyWritableFileRequestV1 {
    pub open spec fn view(&self) -> WriteRequest {
        match *self {
            LegacyWritableFileRequestV1::Stat { path } => WriteRequest::Stat { path: path@ },
            LegacyWritableFileRequestV1::ReadRange { path, offset, length } => WriteRequest::ReadRange {
                path: path@,
                offset,
                length,
            },
            LegacyWritableFileRequestV1::CreateDir { path } => WriteRequest::CreateDir {
                path: path@,
            },
            LegacyWritableFileRequestV1::WriteRange { path, offset, bytes } => WriteRequest::WriteRange {
                path: path@,
                offset,
                bytes: bytes@,
            },
            LegacyWritableFileRequestV1::SetLength { path, length } => WriteRequest::SetLength {
                path: path@,
                length,
            },
            LegacyWritableFileRequestV1::AtomicReplace { temporary_path, destination_path } => WriteRequest::AtomicReplace {
                temporary: temporary_path@,
                destination: destination_path@,
            },
            LegacyWritableFileRequestV1::Remove { path } => WriteRequest::Remove { path: path@ },
            LegacyWritableFileRequestV1::List { path } => WriteRequest::List { path: path@ },
        }
    }
}

pub open spec fn request_views(s: Seq<LegacyWritableFileRequestV1>) -> Seq<WriteRequest> {
    Seq::new(s.len(), |i: int| s[i]@)
}

/// One line of a directory of the writable host.
#[derive(Debug)]
pub struct LegacyWritableFileEntryV1 {
    pub name: String,
    pub is_file: bool,
    pub length: u64,
}

/// What the writable host answers.
#[derive(Debug)]
pub struct LegacyWritableFileResultV1 {
    pub exists: bool,
    pub is_file: bool,
    pub length: u64,
    pub entries: Vec<LegacyWritableFileEntryV1>,
    pub bytes: Vec<u8>,
    pub written: u64,
}

/// The binding of a session to a writable host.
#[derive(Debug)]
pub struct HostedWritablePort {
    pub session_id: String,
    pub next_temporary_id: u64,
}

/// Where the files of a session come from.
#[derive(Debug)]
pub enum HostedFileSource {
    Memory { files: NameMap<Vec<u8>> },
    Vfs { mount_set_id: String, pack_paths: NameMap<()> },
}

/// An open file.
#[derive(Debug)]
pub enum HostedMemoryFile {
    Memory { bytes: Vec<u8> },
    Vfs { file: VfsFile },
}

impl HostedMemoryFile {
    pub fn len(&self) -> (r: u64)
        ensures
            r == match *self {
                HostedMemoryFile::Memory { bytes } => bytes@.len() as u64,
                HostedMemoryFile::Vfs { file } => file.len,
            },
    {
        match self {
            HostedMemoryFile::Memory { bytes } => bytes.len() as u64,
            HostedMemoryFile::Vfs { file } => file.len,
        }
    }

    /// Reads a file in memory: the bytes from `offset` on, as many as `out` takes
    /// and the file has. A file of a virtual file system is read in pages, see
    /// `VfsFile`.
    pub fn read_at(&self, offset: u64, out: &mut [u8]) -> (r: Result<usize, RfvpError>)
        requires
            self is Memory,
        ensures
            final(out)@.len() == old(out)@.len(),
            ({
                let bytes = self->bytes@;
                let len = old(out)@.len() as int;
                let stop = crate::paging::smaller(offset + len, bytes.len() as int);
                match r {
                    Ok(n) => {
                        &&& len <= crate::paging::MAX_HOSTED_RANGE_BYTES
                        &&& offset <= usize::MAX
                        &&& n == if offset < stop {
                            stop - offset
                        } else {
                            0
                        }
                        &&& final(out)@ == if offset < stop {
                            bytes.subrange(offset as int, stop) + old(out)@.subrange(stop - offset, len)
                        } else {
                            old(out)@
                        }
                    },
                    Err(e) => {
                        &&& final(out)@ == old(out)@
                        &&& if len > crate::paging::MAX_HOSTED_RANGE_BYTES {
                            e == RfvpError::CapacityExceeded
                        } else {
                            offset > usize::MAX && e == RfvpError::EndOfFile
                        }
                    },
                }
            }),
    {
        if out.len() > crate::paging::MAX_HOSTED_RANGE_BYTES {
            return Err(RfvpError::CapacityExceeded);
        }
        match self {
            HostedMemoryFile::Vfs { .. } => Err(RfvpError::Unsupported),
            HostedMemoryFile::Memory { bytes } => {
                if offset > usize::MAX as u64 {
                    return Err(RfvpError::EndOfFile);
                }
                let start: usize = offset as usize;
                if start >= bytes.len() {
                    return Ok(0);
                }
                let total: usize = bytes.len();
                let rest: usize = total - start;
                let count: usize = if out.len() < rest {
                    out.len()
                } else {
                    rest
                };
                let ghost before = out@;
                let mut i: usize = 0;
                while i < count
                    invariant
                        i <= count <= out@.len(),
                        out@.len() == before.len(),
                        start + count <= total == bytes@.len(),
                        forall|j: int| 0 <= j < i ==> out@[j] == bytes@[start + j],
                        forall|j: int| i <= j < out@.len() ==> out@[j] == before[j],
                    decreases count - i,
                {
                    out[i] = bytes[start + i];
                    i = i + 1;
                }
                assert(out@ =~= bytes@.subrange(offset as int, start + count) + before.subrange(
                    count as int,
                    before.len() as int,
                ));
                Ok(count)
            },
        }
    }
}


// -------------------------------------------------------------- the file system

/// The files of a session and where it may write.
#[derive(Debug)]
pub struct HostedMemoryFileSystem {
    pub source: HostedFileSource,
    pub writable: Option<HostedWritablePort>,
}

/// What opening a file needs next, or the file.
#[derive(Debug)]
pub enum OpenStep {
    StatWritable { path: String },
    ReadWritable { path: String, length: u64 },
    StatVfs { path: String },
    Opened { file: HostedMemoryFile },
}

/// What asking for the metadata of a file needs next, or the metadata.
#[derive(Debug)]
pub enum MetadataStep {
    StatWritable { path: String },
    StatVfs { path: String },
    Found { info: RfvpFileInfo },
}

/// What listing a directory needs next, or its lines.
#[derive(Debug)]
pub enum ListStep {
    ListWritable { root: String },
    Listed { lines: Vec<(String, RfvpFileInfo)> },
}

/// What an enumeration needs next, or the files.
#[derive(Debug)]
pub enum EnumerateStep {
    StatPacks { paths: Vec<String> },
    Enumerate { root: String, extension: String, limit: u32 },
    Listed { lines: Vec<(String, RfvpFileInfo)> },
}

pub open spec fn line_views(s: Seq<(String, RfvpFileInfo)>) -> Seq<(Seq<char>, RfvpFileInfo)> {
    Seq::new(s.len(), |i: int| (s[i].0@, s[i].1))
}

pub open spec fn path_views(s: Seq<String>) -> Seq<Seq<char>> {
    Seq::new(s.len(), |i: int| s[i]@)
}

pub open spec fn file_info(len: u64) -> RfvpFileInfo {
    RfvpFileInfo { len, kind: RfvpFileKind::File }
}

/// The listed files from `i` on, in order.
pub open spec fn listed_from(
    names: Seq<String>,
    values: Seq<Vec<u8>>,
    i: int,
    root: Seq<char>,
    extension: Seq<char>,
) -> Seq<(Seq<char>, RfvpFileInfo)>
    decreases names.len() - i,
{
    if i >= names.len() {
        Seq::empty()
    } else {
        let rest = listed_from(names, values, i + 1, root, extension);
        if listed(names[i]@, root, extension) {
            seq![(names[i]@, file_info(values[i]@.len() as u64))] + rest
        } else {
            rest
        }
    }
}

/// The listed names from `i` on, in order.
pub open spec fn names_from(names: Seq<String>, i: int, root: Seq<char>, extension: Seq<char>) -> Seq<
    Seq<char>,
>
    decreases names.len() - i,
{
    if i >= names.len() {
        Seq::empty()
    } else {
        let rest = names_from(names, i + 1, root, extension);
        if listed(names[i]@, root, extension) {
            seq![names[i]@] + rest
        } else {
            rest
        }
    }
}

/// The root that an enumeration searches; `None` when it is not a path.
pub open spec fn search_root(root: Seq<char>) -> Option<Seq<char>> {
    if root == "."@ {
        Some(Seq::empty())
    } else {
        normal_path(root)
    }
}

pub open spec fn extension_valid(extension: Seq<char>) -> bool {
    &&& extension.len() > 0
    &&& extension[0] != '.'
    &&& !extension.contains('/')
    &&& !extension.contains('\\')
}

/// The files that a virtual file system lists, from the `i`-th on.
pub open spec fn accepted_lines(
    entries: Seq<(Seq<char>, u64)>,
    i: int,
    root: Seq<char>,
    extension: Seq<char>,
) -> Result<Seq<(Seq<char>, RfvpFileInfo)>, RfvpError>
    decreases entries.len() - i,
{
    if i >= entries.len() {
        Ok(Seq::empty())
    } else {
        match normal_path(entries[i].0) {
            None => Err(RfvpError::InvalidArgument),
            Some(path) => if !listed(path, root, extension) {
                Err(RfvpError::InvalidData)
            } else {
                match accepted_lines(entries, i + 1, root, extension) {
                    Err(e) => Err(e),
                    Ok(rest) => Ok(seq![(path, file_info(entries[i].1))] + rest),
                }
            },
        }
    }
}

pub open spec fn uri_views(s: Seq<(String, u64)>) -> Seq<(Seq<char>, u64)> {
    Seq::new(s.len(), |i: int| (s[i].0@, s[i].1))
}

/// The directory that holds `path`, if `path` has more than one segment.
pub open spec fn parent_of(path: Seq<char>) -> Option<Seq<char>> {
    match last_place(path, '/', path.len() as int) {
        Some(i) => Some(path.subrange(0, i)),
        None => None,
    }
}

/// The name under which new content of `path` is staged.
pub open spec fn staging_name(id: u64, path: Seq<char>) -> Seq<char> {
    ".astra-tmp/write-"@ + text::decimal(id as nat) + "-"@ + text::replaced(path, '/', '_')
}

/// The requests that stage `bytes` and put them in the place of `path`.
pub open spec fn staging_requests(id: u64, path: Seq<char>, bytes: Seq<u8>) -> Seq<WriteRequest> {
    let temporary = staging_name(id, path);
    seq![
        WriteRequest::CreateDir { path: ".astra-tmp"@ },
        WriteRequest::WriteRange { path: temporary, offset: 0, bytes },
        WriteRequest::SetLength { path: temporary, length: bytes.len() as u64 },
        WriteRequest::AtomicReplace { temporary, destination: path },
    ]
}

/// A write whose parent directory is to be made first.
#[derive(Debug)]
pub struct WritePlan {
    pub path: String,
    pub parent: Option<String>,
}

fn text_at_root(v: &Vec<char>) -> (r: bool)
    ensures
        r == (v@ == "."@),
{
    proof {
        reveal_strlit(".");
    }
    let r = v.len() == 1 && v[0] == '.';
    assert(r ==> v@ =~= "."@);
    r
}

impl HostedMemoryFileSystem {
    pub open spec fn wf(&self) -> bool {
        match self.source {
            HostedFileSource::Memory { files } => files.wf(),
            HostedFileSource::Vfs { pack_paths, .. } => pack_paths.wf(),
        }
    }

    /// What opening the normal path `path` at the source gives.
    pub open spec fn source_open(&self, path: Seq<char>, r: Result<OpenStep, RfvpError>) -> bool {
        match self.source {
            HostedFileSource::Memory { files } => if files@.contains_key(path) {
                r matches Ok(OpenStep::Opened { file: HostedMemoryFile::Memory { bytes } }) && bytes@
                    == files@[path]@
            } else {
                r matches Err(e) && e == RfvpError::NotFound
            },
            HostedFileSource::Vfs { .. } => r matches Ok(OpenStep::StatVfs { path: p }) && p@ == path,
        }
    }

    fn open_source(&self, path: String) -> (r: Result<OpenStep, RfvpError>)
        requires
            self.wf(),
        ensures
            self.source_open(path@, r),
    {
        match &self.source {
            HostedFileSource::Memory { files } => match files.get(path.as_str()) {
                Some(bytes) => {
                    let copy = bytes::copy_range(bytes.as_slice(), 0, bytes.len());
                    assert(copy@ =~= bytes@);
                    Ok(OpenStep::Opened { file: HostedMemoryFile::Memory { bytes: copy } })
                },
                None => Err(RfvpError::NotFound),
            },
            HostedFileSource::Vfs { .. } => Ok(OpenStep::StatVfs { path }),
        }
    }

    /// Opens a file: a committed save comes before the source.
    pub fn open(&self, path: &str) -> (r: Result<OpenStep, RfvpError>)
        requires
            self.wf(),
        ensures
            match normal_path(path@) {
                None => r matches Err(e) && e == RfvpError::InvalidArgument,
                Some(p) => if self.writable is Some {
                    r matches Ok(OpenStep::StatWritable { path: q }) && q@ == p
                } else {
                    self.source_open(p, r)
                },
            },
    {
        let path = match normalize(path) {
            Ok(v) => v,
            Err(e) => return Err(e),
        };
        if self.writable.is_some() {
            Ok(OpenStep::StatWritable { path })
        } else {
            self.open_source(path)
        }
    }

    /// Goes on after the writable host answered the stat of `path`.
    pub fn open_after_stat(
        &self,
        path: String,
        reply: Result<LegacyWritableFileResultV1, LegacyProviderError>,
    ) -> (r: Result<OpenStep, RfvpError>)
        requires
            self.wf(),
        ensures
            match reply {
                Err(_) => r matches Err(e) && e == RfvpError::Io,
                Ok(stat) => if !stat.exists {
                    self.source_open(path@, r)
                } else if !stat.is_file || stat.length > MAX_HOSTED_WRITABLE_BYTES {
                    r matches Err(e) && e == RfvpError::InvalidData
                } else {
                    r matches Ok(OpenStep::ReadWritable { path: p, length }) && p@ == path@ && length
                        == stat.length
                },
            },
    {
        match reply {
            Err(_) => Err(RfvpError::Io),
            Ok(stat) => if !stat.exists {
                self.open_source(path)
            } else if !stat.is_file || stat.length > MAX_HOSTED_WRITABLE_BYTES {
                Err(RfvpError::InvalidData)
            } else {
                Ok(OpenStep::ReadWritable { path, length: stat.length })
            },
        }
    }

    /// The file once the writable host has delivered its `length` bytes.
    pub fn open_after_read(
        length: u64,
        reply: Result<LegacyWritableFileResultV1, LegacyProviderError>,
    ) -> (r: Result<HostedMemoryFile, RfvpError>)
        ensures
            match reply {
                Err(_) => r matches Err(e) && e == RfvpError::Io,
                Ok(result) => if result.bytes@.len() != length {
                    r matches Err(e) && e == RfvpError::InvalidData
                } else {
                    r matches Ok(HostedMemoryFile::Memory { bytes }) && bytes@ == result.bytes@
                },
            },
    {
        match reply {
            Err(_) => Err(RfvpError::Io),
            Ok(result) => if result.bytes.len() as u64 != length {
                Err(RfvpError::InvalidData)
            } else {
                Ok(HostedMemoryFile::Memory { bytes: result.bytes })
            },
        }
    }

    /// The file once the virtual file system has answered the stat of `path`.
    pub fn open_after_vfs_stat(
        &self,
        path: String,
        reply: Result<ByteSourceStat, LegacyProviderError>,
    ) -> (r: Result<HostedMemoryFile, RfvpError>)
        requires
            self.wf(),
            self.source is Vfs,
        ensures
            match reply {
                Err(e) => r is Err && r->Err_0 == crate::paging::vfs_error(e@.code),
                Ok(stat) => if stat.len > MAX_HOSTED_FILE_BYTES {
                    r matches Err(e) && e == RfvpError::CapacityExceeded
                } else {
                    &&& r matches Ok(HostedMemoryFile::Vfs { file })
                    &&& file.wf()
                    &&& file.mount_set_id@ == self.source->mount_set_id@
                    &&& file.uri@ == path@
                    &&& file.len == stat.len
                    &&& file.revision == stat.revision
                    &&& file.cache_offset == 0
                    &&& file.cache@.len() == 0
                },
            },
    {
        match reply {
            Err(e) => Err(crate::paging::map_vfs_error(&e)),
            Ok(stat) => if stat.len > MAX_HOSTED_FILE_BYTES {
                Err(RfvpError::CapacityExceeded)
            } else {
                let mount_set_id = match &self.source {
                    HostedFileSource::Vfs { mount_set_id, .. } => text::owned(mount_set_id.as_str()),
                    HostedFileSource::Memory { .. } => String::new(),
                };
                Ok(
                    HostedMemoryFile::Vfs {
                        file: VfsFile {
                            mount_set_id,
                            uri: path,
                            len: stat.len,
                            revision: stat.revision,
                            cache_offset: 0,
                            cache: Vec::new(),
                        },
                    },
                )
            },
        }
    }

    /// Plans a write of `len` bytes: which path, and which directory has to exist.
    pub fn write_all(&self, path: &str, len: u64) -> (r: Result<WritePlan, RfvpError>)
        ensures
            if len > MAX_HOSTED_FILE_BYTES {
                r matches Err(e) && e == RfvpError::CapacityExceeded
            } else {
                match normal_path(path@) {
                    None => r matches Err(e) && e == RfvpError::InvalidArgument,
                    Some(p) => if self.writable is None {
                        r matches Err(e) && e == RfvpError::Unsupported
                    } else {
                        &&& r matches Ok(plan)
                        &&& plan.path@ == p
                        &&& match plan.parent {
                            Some(d) => parent_of(p) == Some(d@),
                            None => parent_of(p) is None,
                        }
                    },
                }
            },
    {
        if len > MAX_HOSTED_FILE_BYTES {
            return Err(RfvpError::CapacityExceeded);
        }
        let path = match normalize(path) {
            Ok(v) => v,
            Err(e) => return Err(e),
        };
        if self.writable.is_none() {
            return Err(RfvpError::Unsupported);
        }
        let v = text::chars_of(path.as_str());
        let parent = match find_last(&v, '/') {
            Some(i) => Some(text::string_of_range(&v, 0, i)),
            None => None,
        };
        Ok(WritePlan { path, parent })
    }

    /// The requests that stage `bytes` and put them in the place of the planned
    /// path. Each write takes a fresh staging name.
    pub fn stage_write(&mut self, plan: WritePlan, bytes: Vec<u8>) -> (r: Result<
        Vec<LegacyWritableFileRequestV1>,
        RfvpError,
    >)
        requires
            old(self).writable is Some,
        ensures
            final(self).source == old(self).source,
            final(self).writable is Some,
            final(self).writable->0.session_id == old(self).writable->0.session_id,
            ({
                let id = old(self).writable->0.next_temporary_id;
                match r {
                    Ok(requests) => {
                        &&& request_views(requests@) == staging_requests(id, plan.path@, bytes@)
                        &&& final(self).writable->0.next_temporary_id == id + 1
                    },
                    Err(e) => {
                        &&& id == u64::MAX && e == RfvpError::CapacityExceeded
                        &&& final(self).writable->0.next_temporary_id == id
                    },
                }
            }),
    {
        let port = match self.writable.take() {
            Some(p) => p,
            None => return Err(RfvpError::Unsupported),
        };
        let id: u64 = port.next_temporary_id;
        if id == u64::MAX {
            self.writable = Some(port);
            return Err(RfvpError::CapacityExceeded);
        }
        self.writable = Some(
            HostedWritablePort { session_id: port.session_id, next_temporary_id: id + 1 },
        );
        let number = text::decimal_string(id);
        let v = text::chars_of(plan.path.as_str());
        let flat = text::string_of(&text::replace_char(&v, '/', '_'));
        let head = text::join3(".astra-tmp/write-", number.as_str(), "-");
        let temporary = text::join2(head.as_str(), flat.as_str());
        let length: u64 = bytes.len() as u64;
        let mut requests: Vec<LegacyWritableFileRequestV1> = Vec::new();
        requests.push(LegacyWritableFileRequestV1::CreateDir { path: text::owned(".astra-tmp") });
        requests.push(
            LegacyWritableFileRequestV1::WriteRange {
                path: text::owned(temporary.as_str()),
                offset: 0,
                bytes,
            },
        );
        requests.push(
            LegacyWritableFileRequestV1::SetLength { path: text::owned(temporary.as_str()), length },
        );
        requests.push(
            LegacyWritableFileRequestV1::AtomicReplace {
                temporary_path: temporary,
                destination_path: plan.path,
            },
        );
        assert(request_views(requests@) =~= staging_requests(id, plan.path@, bytes@));
        Ok(requests)
    }

    /// The request that removes a save.
    pub fn remove(&self, path: &str) -> (r: Result<LegacyWritableFileRequestV1, RfvpError>)
        ensures
            match normal_path(path@) {
                None => r matches Err(e) && e == RfvpError::InvalidArgument,
                Some(p) => if self.writable is None {
                    r matches Err(e) && e == RfvpError::Unsupported
                } else {
                    r is Ok && r->Ok_0@ == (WriteRequest::Remove { path: p })
                },
            },
    {
        let path = match normalize(path) {
            Ok(v) => v,
            Err(e) => return Err(e),
        };
        if self.writable.is_none() {
            return Err(RfvpError::Unsupported);
        }
        Ok(LegacyWritableFileRequestV1::Remove { path })
    }

    /// The two paths of a copy: the file `source` is opened and read, then written
    /// to `destination`.
    pub fn copy(&self, source: &str, destination: &str) -> (r: Result<(String, String), RfvpError>)
        ensures
            match r {
                Ok(paths) => {
                    &&& normal_path(source@) == Some(paths.0@)
                    &&& normal_path(destination@) == Some(paths.1@)
                },
                Err(e) => {
                    &&& normal_path(source@) is None || normal_path(destination@) is None
                    &&& e == RfvpError::InvalidArgument
                },
            },
    {
        let from = match normalize(source) {
            Ok(v) => v,
            Err(e) => return Err(e),
        };
        let to = match normalize(destination) {
            Ok(v) => v,
            Err(e) => return Err(e),
        };
        Ok((from, to))
    }

    /// The directory whose stat starts a listing.
    pub fn list(&self, root: &str) -> (r: Result<String, RfvpError>)
        ensures
            match normal_path(root@) {
                None => r matches Err(e) && e == RfvpError::InvalidArgument,
                Some(p) => if self.writable is None {
                    r matches Err(e) && e == RfvpError::Unsupported
                } else {
                    r is Ok && r->Ok_0@ == p
                },
            },
    {
        let root = match normalize(root) {
            Ok(v) => v,
            Err(e) => return Err(e),
        };
        if self.writable.is_none() {
            return Err(RfvpError::Unsupported);
        }
        Ok(root)
    }

    /// Goes on with a listing after the writable host answered the stat of `root`.
    pub fn list_after_stat(
        root: String,
        reply: Result<LegacyWritableFileResultV1, LegacyProviderError>,
    ) -> (r: Result<ListStep, RfvpError>)
        ensures
            match reply {
                Err(_) => r matches Err(e) && e == RfvpError::Io,
                Ok(stat) => if !stat.exists {
                    r matches Ok(ListStep::Listed { lines }) && lines@.len() == 0
                } else if stat.is_file {
                    r matches Err(e) && e == RfvpError::InvalidData
                } else {
                    r matches Ok(ListStep::ListWritable { root: q }) && q@ == root@
                },
            },
    {
        match reply {
            Err(_) => Err(RfvpError::Io),
            Ok(stat) => if !stat.exists {
                Ok(ListStep::Listed { lines: Vec::new() })
            } else if stat.is_file {
                Err(RfvpError::InvalidData)
            } else {
                Ok(ListStep::ListWritable { root })
            },
        }
    }

    /// The lines of a directory, each under its full path.
    pub fn list_after_entries(
        root: &str,
        reply: Result<LegacyWritableFileResultV1, LegacyProviderError>,
    ) -> (r: Result<Vec<(String, RfvpFileInfo)>, RfvpError>)
        ensures
            match reply {
                Err(_) => r matches Err(e) && e == RfvpError::Io,
                Ok(result) => r is Ok && line_views(r->Ok_0@) == Seq::new(
                    result.entries@.len(),
                    |i: int|
                        (
                            root@ + "/"@ + result.entries@[i].name@,
                            RfvpFileInfo {
                                len: result.entries@[i].length,
                                kind: if result.entries@[i].is_file {
                                    RfvpFileKind::File
                                } else {
                                    RfvpFileKind::Directory
                                },
                            },
                        ),
                ),
            },
    {
        let result = match reply {
            Ok(v) => v,
            Err(_) => return Err(RfvpError::Io),
        };
        let mut lines: Vec<(String, RfvpFileInfo)> = Vec::new();
        let ghost expected = Seq::new(
            result.entries@.len(),
            |i: int|
                (
                    root@ + "/"@ + result.entries@[i].name@,
                    RfvpFileInfo {
                        len: result.entries@[i].length,
                        kind: if result.entries@[i].is_file {
                            RfvpFileKind::File
                        } else {
                            RfvpFileKind::Directory
                        },
                    },
                ),
        );
        let mut i: usize = 0;
        while i < result.entries.len()
            invariant
                i <= result.entries@.len(),
                expected.len() == result.entries@.len(),
                forall|j: int|
                    0 <= j < expected.len() ==> #[trigger] expected[j] == (
                        root@ + "/"@ + result.entries@[j].name@,
                        RfvpFileInfo {
                            len: result.entries@[j].length,
                            kind: if result.entries@[j].is_file {
                                RfvpFileKind::File
                            } else {
                                RfvpFileKind::Directory
                            },
                        },
                    ),
                line_views(lines@) =~= expected.subrange(0, i as int),
            decreases result.entries@.len() - i,
        {
            let entry = &result.entries[i];
            let path = text::join3(root, "/", entry.name.as_str());
            let info = RfvpFileInfo {
                len: entry.length,
                kind: if entry.is_file {
                    RfvpFileKind::File
                } else {
                    RfvpFileKind::Directory
                },
            };
            let ghost before = line_views(lines@);
            lines.push((path, info));
            assert(line_views(lines@) =~= before.push((path@, info)));
            i = i + 1;
        }
        assert(line_views(lines@) =~= expected);
        Ok(lines)
    }

    /// What asking the source for the metadata of the normal path `path` gives.
    pub open spec fn source_metadata(&self, path: Seq<char>, r: Result<MetadataStep, RfvpError>) -> bool {
        match self.source {
            HostedFileSource::Memory { files } => if files@.contains_key(path) {
                r matches Ok(MetadataStep::Found { info }) && info == file_info(
                    files@[path]@.len() as u64,
                )
            } else {
                r matches Err(e) && e == RfvpError::NotFound
            },
            HostedFileSource::Vfs { .. } => r matches Ok(MetadataStep::StatVfs { path: p }) && p@
                == path,
        }
    }

    fn metadata_source(&self, path: String) -> (r: Result<MetadataStep, RfvpError>)
        requires
            self.wf(),
        ensures
            self.source_metadata(path@, r),
    {
        match &self.source {
            HostedFileSource::Memory { files } => match files.get(path.as_str()) {
                Some(bytes) => Ok(
                    MetadataStep::Found { info: RfvpFileInfo::file(bytes.len() as u64) },
                ),
                None => Err(RfvpError::NotFound),
            },
            HostedFileSource::Vfs { .. } => Ok(MetadataStep::StatVfs { path }),
        }
    }

    /// Asks for the metadata of a file: a committed save comes before the source.
    pub fn metadata(&self, path: &str) -> (r: Result<MetadataStep, RfvpError>)
        requires
            self.wf(),
        ensures
            match normal_path(path@) {
                None => r matches Err(e) && e == RfvpError::InvalidArgument,
                Some(p) => if self.writable is Some {
                    r matches Ok(MetadataStep::StatWritable { path: q }) && q@ == p
                } else {
                    self.source_metadata(p, r)
                },
            },
    {
        let path = match normalize(path) {
            Ok(v) => v,
            Err(e) => return Err(e),
        };
        if self.writable.is_some() {
            Ok(MetadataStep::StatWritable { path })
        } else {
            self.metadata_source(path)
        }
    }

    /// Goes on after the writable host answered the stat of `path`.
    pub fn metadata_after_stat(
        &self,
        path: String,
        reply: Result<LegacyWritableFileResultV1, LegacyProviderError>,
    ) -> (r: Result<MetadataStep, RfvpError>)
        requires
            self.wf(),
        ensures
            match reply {
                Err(_) => r matches Err(e) && e == RfvpError::Io,
                Ok(stat) => if stat.exists {
                    r matches Ok(MetadataStep::Found { info }) && info == file_info(stat.length)
                } else {
                    self.source_metadata(path@, r)
                },
            },
    {
        match reply {
            Err(_) => Err(RfvpError::Io),
            Ok(stat) => if stat.exists {
                Ok(MetadataStep::Found { info: RfvpFileInfo::file(stat.length) })
            } else {
                self.metadata_source(path)
            },
        }
    }

    /// The metadata once the virtual file system has answered.
    pub fn metadata_after_vfs_stat(reply: Result<ByteSourceStat, LegacyProviderError>) -> (r: Result<
        RfvpFileInfo,
        RfvpError,
    >)
        ensures
            match reply {
                Err(e) => r is Err && r->Err_0 == crate::paging::vfs_error(e@.code),
                Ok(stat) => r is Ok && r->Ok_0 == file_info(stat.len),
            },
    {
        match reply {
            Err(e) => Err(crate::paging::map_vfs_error(&e)),
            Ok(stat) => Ok(RfvpFileInfo::file(stat.len)),
        }
    }

    /// Lists the files with an extension below a root, in the order of their names.
    /// Archives of a virtual file system come from the declared pack paths, other
    /// files from an enumeration that the file system performs.
    pub fn enumerate_by_extension(&self, root: &str, ext: &str) -> (r: Result<EnumerateStep, RfvpError>)
        requires
            self.wf(),
        ensures
            match search_root(root@) {
                None => r matches Err(e) && e == RfvpError::InvalidArgument,
                Some(base) => if !extension_valid(ext@) {
                    r matches Err(e) && e == RfvpError::InvalidArgument
                } else {
                    match self.source {
                        HostedFileSource::Memory { files } => {
                            &&& r matches Ok(EnumerateStep::Listed { lines })
                            &&& line_views(lines@) == listed_from(
                                files.names@,
                                files.values@,
                                0,
                                base,
                                ext@,
                            )
                        },
                        HostedFileSource::Vfs { pack_paths, .. } => if text::same_ignoring_case(
                            ext@,
                            "bin"@,
                        ) {
                            &&& r matches Ok(EnumerateStep::StatPacks { paths })
                            &&& path_views(paths@) == names_from(pack_paths.names@, 0, base, ext@)
                        } else {
                            &&& r matches Ok(EnumerateStep::Enumerate { root: q, extension, limit })
                            &&& q@ == base
                            &&& extension@ == ext@
                            &&& limit == MAX_HOSTED_FILES
                        },
                    }
                },
            },
    {
        let v = text::chars_of(root);
        let base = if text_at_root(&v) {
            let empty = String::new();
            assert(empty@ =~= Seq::<char>::empty());
            empty
        } else {
            match normalize(root) {
                Ok(p) => p,
                Err(e) => return Err(e),
            }
        };
        let e = text::chars_of(ext);
        if e.len() == 0 || e[0] == '.' || text::has_char(&e, '/') || text::has_char(&e, '\\') {
            return Err(RfvpError::InvalidArgument);
        }
        match &self.source {
            HostedFileSource::Memory { files } => {
                let mut lines: Vec<(String, RfvpFileInfo)> = Vec::new();
                let mut i: usize = 0;
                let ghost all = listed_from(files.names@, files.values@, 0, base@, ext@);
                assert(line_views(lines@) + all =~= all);
                while i < files.names.len()
                    invariant
                        files.wf(),
                        i <= files.names@.len(),
                        all == line_views(lines@) + listed_from(
                            files.names@,
                            files.values@,
                            i as int,
                            base@,
                            ext@,
                        ),
                    decreases files.names@.len() - i,
                {
                    let name = &files.names[i];
                    let ghost before = line_views(lines@);
                    let ghost rest = listed_from(
                        files.names@,
                        files.values@,
                        i + 1,
                        base@,
                        ext@,
                    );
                    if in_root_with_extension(name.as_str(), base.as_str(), ext) {
                        let info = RfvpFileInfo::file(files.values[i].len() as u64);
                        lines.push((text::owned(name.as_str()), info));
                        assert(line_views(lines@) =~= before.push((name@, info)));
                        assert(before + (seq![(name@, info)] + rest) =~= before.push((name@, info))
                            + rest);
                    }
                    i = i + 1;
                }
                assert(all =~= line_views(lines@));
                Ok(EnumerateStep::Listed { lines })
            },
            HostedFileSource::Vfs { pack_paths, .. } => {
                let lowered = text::string_of(&text::to_lower(&e));
                proof {
                    reveal_strlit("bin");
                    assert(text::lower("bin"@) =~= "bin"@);
                }
                if !text::same_text(lowered.as_str(), "bin") {
                    return Ok(
                        EnumerateStep::Enumerate {
                            root: base,
                            extension: text::owned(ext),
                            limit: MAX_HOSTED_FILES as u32,
                        },
                    );
                }
                let mut paths: Vec<String> = Vec::new();
                let mut i: usize = 0;
                let ghost all = names_from(pack_paths.names@, 0, base@, ext@);
                assert(path_views(paths@) + all =~= all);
                while i < pack_paths.names.len()
                    invariant
                        i <= pack_paths.names@.len(),
                        all == path_views(paths@) + names_from(
                            pack_paths.names@,
                            i as int,
                            base@,
                            ext@,
                        ),
                    decreases pack_paths.names@.len() - i,
                {
                    let name = &pack_paths.names[i];
                    let ghost before = path_views(paths@);
                    let ghost rest = names_from(pack_paths.names@, i + 1, base@, ext@);
                    if in_root_with_extension(name.as_str(), base.as_str(), ext) {
                        paths.push(text::owned(name.as_str()));
                        assert(path_views(paths@) =~= before.push(name@));
                        assert(before + (seq![name@] + rest) =~= before.push(name@) + rest);
                    }
                    i = i + 1;
                }
                assert(all =~= path_views(paths@));
                Ok(EnumerateStep::StatPacks { paths })
            },
        }
    }

    /// The line of one archive once the virtual file system has answered its stat.
    pub fn pack_line(path: String, reply: Result<ByteSourceStat, LegacyProviderError>) -> (r: Result<
        (String, RfvpFileInfo),
        RfvpError,
    >)
        ensures
            match reply {
                Err(e) => r is Err && r->Err_0 == crate::paging::vfs_error(e@.code),
                Ok(stat) => {
                    &&& r is Ok
                    &&& r->Ok_0.0@ == path@
                    &&& r->Ok_0.1 == file_info(stat.len)
                },
            },
    {
        match reply {
            Err(e) => Err(crate::paging::map_vfs_error(&e)),
            Ok(stat) => Ok((path, RfvpFileInfo::file(stat.len))),
        }
    }

    /// The lines of an enumeration that the virtual file system performed. Every
    /// entry has to lie below the root and carry the extension.
    pub fn enumerated(
        root: &str,
        ext: &str,
        reply: Result<Vec<(String, u64)>, LegacyProviderError>,
    ) -> (r: Result<Vec<(String, RfvpFileInfo)>, RfvpError>)
        ensures
            match reply {
                Err(e) => r is Err && r->Err_0 == crate::paging::vfs_error(e@.code),
                Ok(entries) => if entries@.len() > MAX_HOSTED_FILES {
                    r matches Err(e) && e == RfvpError::CapacityExceeded
                } else {
                    match accepted_lines(uri_views(entries@), 0, root@, ext@) {
                        Ok(lines) => r is Ok && line_views(r->Ok_0@) == lines,
                        Err(e) => r is Err && r->Err_0 == e,
                    }
                },
            },
    {
        let entries = match reply {
            Ok(v) => v,
            Err(e) => return Err(crate::paging::map_vfs_error(&e)),
        };
        if entries.len() > MAX_HOSTED_FILES {
            return Err(RfvpError::CapacityExceeded);
        }
        let ghost views = uri_views(entries@);
        let ghost expected = accepted_lines(views, 0, root@, ext@);
        let mut lines: Vec<(String, RfvpFileInfo)> = Vec::new();
        let mut i: usize = 0;
        proof {
            if expected is Ok {
                assert(line_views(lines@) + expected->Ok_0 =~= expected->Ok_0);
            }
        }
        while i < entries.len()
            invariant
                i <= entries@.len() <= MAX_HOSTED_FILES,
                reply is Ok,
                reply->Ok_0 == entries,
                views == uri_views(entries@),
                expected == accepted_lines(views, 0, root@, ext@),
                match accepted_lines(views, i as int, root@, ext@) {
                    Ok(rest) => expected == Ok::<Seq<(Seq<char>, RfvpFileInfo)>, RfvpError>(
                        line_views(lines@) + rest,
                    ),
                    Err(e) => expected == Err::<Seq<(Seq<char>, RfvpFileInfo)>, RfvpError>(e),
                },
            decreases entries@.len() - i,
        {
            let ghost before = line_views(lines@);
            assert(views[i as int] == (entries@[i as int].0@, entries@[i as int].1));
            let path = match normalize(entries[i].0.as_str()) {
                Ok(p) => p,
                Err(e) => return Err(e),
            };
            if !in_root_with_extension(path.as_str(), root, ext) {
                return Err(RfvpError::InvalidData);
            }
            let info = RfvpFileInfo::file(entries[i].1);
            lines.push((path, info));
            proof {
                assert(line_views(lines@) =~= before.push((path@, info)));
                match accepted_lines(views, i + 1, root@, ext@) {
                    Ok(rest) => {
                        assert(before + (seq![(path@, info)] + rest) =~= before.push((path@, info))
                            + rest);
                    },
                    Err(_) => {},
                }
            }
            i = i + 1;
        }
        assert(line_views(lines@) + Seq::<(Seq<char>, RfvpFileInfo)>::empty() =~= line_views(lines@));
        Ok(lines)
    }
}

// --------------------------------------------------------------------- the host

/// The clock of a session; it moves only when the session is stepped.
#[derive(Debug)]
pub struct StepClock {
    pub now_us: u64,
}

impl Default for StepClock {
    fn default() -> (r: Self)
        ensures
            r.now_us == 0,
    {
        StepClock { now_us: 0 }
    }
}

impl StepClock {
    pub fn ticks_us(&self) -> (r: u64)
        ensures
            r == self.now_us,
    {
        self.now_us
    }
}

/// A renderer for phases in which nothing may be drawn.
#[derive(Debug)]
pub struct RejectingRenderer;

impl RejectingRenderer {
    pub fn create_texture(&mut self, _id: TextureId, _desc: TextureDesc, _pixels: Option<PixelBuffer<'_>>) -> (r:
        Result<(), RfvpError>)
        ensures
            r == Err::<(), RfvpError>(RfvpError::Backend),
    {
        Err(RfvpError::Backend)
    }

    pub fn update_texture(&mut self, _id: TextureId, _rect: TextureRect, _pixels: PixelBuffer<'_>) -> (r:
        Result<(), RfvpError>)
        ensures
            r == Err::<(), RfvpError>(RfvpError::Backend),
    {
        Err(RfvpError::Backend)
    }

    pub fn destroy_texture(&mut self, _id: TextureId)
        ensures
            *final(self) == *old(self),
    {
    }

    pub fn begin_frame(&mut self, _width: u32, _height: u32, _clear: Option<ColorRgba>) -> (r: Result<
        (),
        RfvpError,
    >)
        ensures
            r == Err::<(), RfvpError>(RfvpError::Backend),
    {
        Err(RfvpError::Backend)
    }

    pub fn draw_sprite(&mut self, _command: &DrawSpriteCommand) -> (r: Result<(), RfvpError>)
        ensures
            r == Err::<(), RfvpError>(RfvpError::Backend),
    {
        Err(RfvpError::Backend)
    }

    pub fn draw_solid(&mut self, _command: &DrawSolidCommand) -> (r: Result<(), RfvpError>)
        ensures
            r == Err::<(), RfvpError>(RfvpError::Backend),
    {
        Err(RfvpError::Backend)
    }

    pub fn end_frame(&mut self) -> (r: Result<(), RfvpError>)
        ensures
            r == Err::<(), RfvpError>(RfvpError::Backend),
    {
        Err(RfvpError::Backend)
    }

    pub fn present(&mut self) -> (r: Result<(), RfvpError>)
        ensures
            r == Err::<(), RfvpError>(RfvpError::Backend),
    {
        Err(RfvpError::Backend)
    }
}

/// An audio port for phases in which nothing may sound.
#[derive(Debug)]
pub struct RejectingAudio;

impl RejectingAudio {
    pub fn load_encoded(&mut self, _id: AudioStreamId, _kind: EncodedAudioKind, _bytes: &[u8]) -> (r:
        Result<(), RfvpError>)
        ensures
            r == Err::<(), RfvpError>(RfvpError::Backend),
    {
        Err(RfvpError::Backend)
    }

    pub fn create_stream(&mut self, _id: AudioStreamId, _desc: AudioStreamDesc) -> (r: Result<
        (),
        RfvpError,
    >)
        ensures
            r == Err::<(), RfvpError>(RfvpError::Backend),
    {
        Err(RfvpError::Backend)
    }

    pub fn submit_i16(&mut self, _id: AudioStreamId, _samples: &[i16]) -> (r: Result<(), RfvpError>)
        ensures
            r == Err::<(), RfvpError>(RfvpError::Backend),
    {
        Err(RfvpError::Backend)
    }

    pub fn submit_f32(&mut self, _id: AudioStreamId, _samples: &[Float32]) -> (r: Result<
        (),
        RfvpError,
    >)
        ensures
            r == Err::<(), RfvpError>(RfvpError::Backend),
    {
        Err(RfvpError::Backend)
    }

    pub fn play(&mut self, _id: AudioStreamId, _params: AudioParams, _fade_in_ms: u32) -> (r: Result<
        (),
        RfvpError,
    >)
        ensures
            r == Err::<(), RfvpError>(RfvpError::Backend),
    {
        Err(RfvpError::Backend)
    }

    pub fn stop(&mut self, _id: AudioStreamId, _fade_ms: u32) -> (r: Result<(), RfvpError>)
        ensures
            r == Err::<(), RfvpError>(RfvpError::Backend),
    {
        Err(RfvpError::Backend)
    }

    pub fn pause(&mut self, _id: AudioStreamId) -> (r: Result<(), RfvpError>)
        ensures
            r == Err::<(), RfvpError>(RfvpError::Backend),
    {
        Err(RfvpError::Backend)
    }

    pub fn resume(&mut self, _id: AudioStreamId) -> (r: Result<(), RfvpError>)
        ensures
            r == Err::<(), RfvpError>(RfvpError::Backend),
    {
        Err(RfvpError::Backend)
    }

    pub fn set_params(&mut self, _id: AudioStreamId, _params: AudioParams) -> (r: Result<
        (),
        RfvpError,
    >)
        ensures
            r == Err::<(), RfvpError>(RfvpError::Backend),
    {
        Err(RfvpError::Backend)
    }

    pub fn set_master_volume(&mut self, _volume: Float32) -> (r: Result<(), RfvpError>)
        ensures
            r == Err::<(), RfvpError>(RfvpError::Backend),
    {
        Err(RfvpError::Backend)
    }

    pub fn destroy_stream(&mut self, _id: AudioStreamId)
        ensures
            *final(self) == *old(self),
    {
    }

    pub fn tick(&mut self, _elapsed_us: u64) -> (r: Result<(), RfvpError>)
        ensures
            r == Err::<(), RfvpError>(RfvpError::Backend),
    {
        Err(RfvpError::Backend)
    }
}

/// The host side of a session.
#[derive(Debug)]
pub struct HostedMemoryHost {
    pub fs: HostedMemoryFileSystem,
    pub renderer: RejectingRenderer,
    pub audio: RejectingAudio,
    pub clock: StepClock,
}

/// The host of a session whose files a virtual file system serves.
pub type HostedVfsHost = HostedMemoryHost;

/// Whether a file of `files` is too long.
pub open spec fn has_oversized(files: Seq<Vec<u8>>) -> bool {
    exists|i: int| 0 <= i < files.len() && (#[trigger] files[i])@.len() > MAX_HOSTED_FILE_BYTES
}

/// The files from `i` on under their normal paths, on top of `seen`.
pub open spec fn collected_files(
    names: Seq<String>,
    values: Seq<Vec<u8>>,
    i: int,
    seen: Map<Seq<char>, Vec<u8>>,
) -> Result<Map<Seq<char>, Vec<u8>>, RfvpError>
    decreases names.len() - i,
{
    if i >= names.len() {
        Ok(seen)
    } else {
        match normal_path(names[i]@) {
            None => Err(RfvpError::InvalidArgument),
            Some(path) => if seen.contains_key(path) {
                Err(RfvpError::InvalidData)
            } else {
                collected_files(names, values, i + 1, seen.insert(path, values[i]))
            },
        }
    }
}

/// Whether the archives from `i` on are distinct normal paths of archives, none of
/// them in `seen`; with them, the archives.
pub open spec fn collected_packs(paths: Seq<String>, i: int, seen: Map<Seq<char>, ()>) -> Option<
    Map<Seq<char>, ()>,
>
    decreases paths.len() - i,
{
    if i >= paths.len() {
        Some(seen)
    } else {
        match normal_path(paths[i]@) {
            None => None,
            Some(path) => if !text::has_suffix(path, ".bin"@) || seen.contains_key(path) {
                None
            } else {
                collected_packs(paths, i + 1, seen.insert(path, ()))
            },
        }
    }
}

impl HostedMemoryHost {
    pub open spec fn wf(&self) -> bool {
        self.fs.wf()
    }

    /// A host for files in memory. Their names are brought to normal form, and no
    /// two of them may become the same.
    pub fn new(files: NameMap<Vec<u8>>) -> (r: Result<Self, RfvpError>)
        requires
            files.wf(),
        ensures
            if files.names@.len() > MAX_HOSTED_FILES || has_oversized(files.values@) {
                r matches Err(e) && e == RfvpError::CapacityExceeded
            } else {
                match collected_files(files.names@, files.values@, 0, Map::empty()) {
                    Err(f) => r matches Err(e) && e == f,
                    Ok(map) => {
                        &&& r matches Ok(host)
                        &&& host.wf()
                        &&& host.fs.source is Memory
                        &&& host.fs.source->files@ == map
                        &&& host.fs.writable is None
                        &&& host.clock.now_us == 0
                    },
                }
            },
    {
        if files.names.len() > MAX_HOSTED_FILES {
            return Err(RfvpError::CapacityExceeded);
        }
        let mut k: usize = 0;
        while k < files.values.len()
            invariant
                files.wf(),
                k <= files.values@.len(),
                forall|j: int| 0 <= j < k ==> (#[trigger] files.values@[j])@.len() <= MAX_HOSTED_FILE_BYTES,
            decreases files.values@.len() - k,
        {
            if files.values[k].len() as u64 > MAX_HOSTED_FILE_BYTES {
                return Err(RfvpError::CapacityExceeded);
            }
            k = k + 1;
        }
        assert(!has_oversized(files.values@));
        let ghost values = files.values@;
        let names = files.names;
        let mut rest = files.values;
        let mut normalized: NameMap<Vec<u8>> = NameMap::new();
        let mut i: usize = 0;
        while i < names.len()
            invariant
                normalized.wf(),
                names == files.names,
                values == files.values@,
                i <= names@.len() == rest@.len(),
                values.len() == names@.len(),
                forall|j: int| i <= j < rest@.len() ==> rest@[j] == values[j],
                collected_files(names@, values, 0, Map::empty()) == collected_files(
                    names@,
                    values,
                    i as int,
                    normalized@,
                ),
                names@.len() <= MAX_HOSTED_FILES,
                !has_oversized(values),
            decreases names@.len() - i,
        {
            let path = match normalize(names[i].as_str()) {
                Ok(p) => p,
                Err(e) => return Err(e),
            };
            let mut bytes: Vec<u8> = Vec::new();
            core::mem::swap(&mut bytes, &mut rest[i]);
            if !normalized.insert_new(path, bytes) {
                return Err(RfvpError::InvalidData);
            }
            i = i + 1;
        }
        Ok(
            HostedMemoryHost {
                fs: HostedMemoryFileSystem {
                    source: HostedFileSource::Memory { files: normalized },
                    writable: None,
                },
                renderer: RejectingRenderer,
                audio: RejectingAudio,
                clock: StepClock { now_us: 0 },
            },
        )
    }

    /// A host for the files of a virtual file system, with its declared archives.
    pub fn from_vfs(mount_set_id: String, pack_paths: Vec<String>) -> (r: Result<Self, RfvpError>)
        ensures
            if mount_set_id@.len() == 0 {
                r matches Err(e) && e == RfvpError::InvalidArgument
            } else if pack_paths@.len() > MAX_HOSTED_FILES {
                r matches Err(e) && e == RfvpError::CapacityExceeded
            } else {
                match collected_packs(pack_paths@, 0, Map::empty()) {
                    None => r matches Err(e) && e == RfvpError::InvalidArgument,
                    Some(map) => {
                        &&& r matches Ok(host)
                        &&& host.wf()
                        &&& host.fs.source is Vfs
                        &&& host.fs.source->mount_set_id@ == mount_set_id@
                        &&& host.fs.source->pack_paths@ == map
                        &&& host.fs.writable is None
                        &&& host.clock.now_us == 0
                    },
                }
            },
    {
        let id = text::chars_of(mount_set_id.as_str());
        if id.len() == 0 {
            return Err(RfvpError::InvalidArgument);
        }
        if pack_paths.len() > MAX_HOSTED_FILES {
            return Err(RfvpError::CapacityExceeded);
        }
        let mut normalized: NameMap<()> = NameMap::new();
        let mut i: usize = 0;
        while i < pack_paths.len()
            invariant
                normalized.wf(),
                i <= pack_paths@.len() <= MAX_HOSTED_FILES,
                mount_set_id@.len() > 0,
                collected_packs(pack_paths@, 0, Map::empty()) == collected_packs(
                    pack_paths@,
                    i as int,
                    normalized@,
                ),
            decreases pack_paths@.len() - i,
        {
            let path = match normalize(pack_paths[i].as_str()) {
                Ok(p) => p,
                Err(e) => return Err(e),
            };
            let v = text::chars_of(path.as_str());
            if !text::ends_with(&v, ".bin") {
                return Err(RfvpError::InvalidArgument);
            }
            if !normalized.insert_new(path, ()) {
                return Err(RfvpError::InvalidArgument);
            }
            i = i + 1;
        }
        Ok(
            HostedMemoryHost {
                fs: HostedMemoryFileSystem {
                    source: HostedFileSource::Vfs { mount_set_id, pack_paths: normalized },
                    writable: None,
                },
                renderer: RejectingRenderer,
                audio: RejectingAudio,
                clock: StepClock { now_us: 0 },
            },
        )
    }

    /// Binds the session to its writable host, once.
    pub fn bind_writable(&mut self, session_id: String) -> (r: Result<(), RfvpError>)
        ensures
            final(self).fs.source == old(self).fs.source,
            final(self).clock == old(self).clock,
            if session_id@.len() == 0 || old(self).fs.writable is Some {
                &&& r matches Err(e) && e == RfvpError::InvalidArgument
                &&& *final(self) == *old(self)
            } else {
                &&& r is Ok
                &&& final(self).fs.writable is Some
                &&& final(self).fs.writable->0.session_id == session_id
                &&& final(self).fs.writable->0.next_temporary_id == 1
            },
    {
        let id = text::chars_of(session_id.as_str());
        if id.len() == 0 || self.fs.writable.is_some() {
            return Err(RfvpError::InvalidArgument);
        }
        self.fs.writable = Some(HostedWritablePort { session_id, next_temporary_id: 1 });
        Ok(())
    }

    /// Moves the clock by whole microseconds; less than one is refused.
    pub fn advance(&mut self, delta_ns: u64) -> (r: Result<(), RfvpError>)
        ensures
            final(self).fs == old(self).fs,
            ({
                let delta_us = delta_ns as int / 1_000;
                let now = old(self).clock.now_us;
                if delta_us == 0 {
                    &&& r matches Err(e) && e == RfvpError::InvalidArgument
                    &&& final(self).clock == old(self).clock
                } else if now + delta_us > u64::MAX {
                    &&& r matches Err(e) && e == RfvpError::CapacityExceeded
                    &&& final(self).clock == old(self).clock
                } else {
                    &&& r is Ok
                    &&& final(self).clock.now_us == now + delta_us
                }
            }),
    {
        let delta_us: u64 = delta_ns / 1_000;
        if delta_us == 0 {
            return Err(RfvpError::InvalidArgument);
        }
        match self.clock.now_us.checked_add(delta_us) {
            None => Err(RfvpError::CapacityExceeded),
            Some(now) => {
                self.clock = StepClock { now_us: now };
                Ok(())
            },
        }
    }

    /// The time of the session.
    pub fn elapsed_us(&self) -> (r: u64)
        ensures
            r == self.clock.now_us,
    {
        self.clock.now_us
    }
}

// ----------------------------------------------------------------------- laws

/// Bringing a normal path to normal form changes nothing.
pub proof fn law_normal_path_is_stable(s: Seq<char>)
    requires
        normal_path(s) is Some,
    ensures
        normal_path(normal_path(s)->0) == normal_path(s),
{
    let t = without_dot(s);
    let p = text::lower(t);
    text::lemma_lower_plain_path(t);
    text::lemma_plain_path_start(p);
    text::lemma_lower_idempotent(t);
    assert forall|i: int| 0 <= i < p.len() implies #[trigger] p[i] != '\\' by {
        text::lemma_lower_char(t[i]);
        assert(t.contains(t[i]));
    }
    assert(!p.contains('\\'));
}

/// `n` bytes made of the start of `content`, filled up with zeros.
pub open spec fn resized(content: Seq<u8>, n: int) -> Seq<u8> {
    Seq::new(
        n as nat,
        |i: int|
            if i < content.len() {
                content[i]
            } else {
                0u8
            },
    )
}

/// `content` with `bytes` at `offset`; a gap is filled with zeros.
pub open spec fn overwritten(content: Seq<u8>, offset: u64, bytes: Seq<u8>) -> Seq<u8> {
    let n = if offset + bytes.len() > content.len() {
        offset + bytes.len()
    } else {
        content.len() as int
    };
    Seq::new(
        n as nat,
        |i: int|
            if offset <= i < offset + bytes.len() {
                bytes[i - offset]
            } else {
                resized(content, n)[i]
            },
    )
}

/// What a request does to the files of a writable host.
pub open spec fn performed(files: Map<Seq<char>, Seq<u8>>, request: WriteRequest) -> Map<
    Seq<char>,
    Seq<u8>,
> {
    match request {
        WriteRequest::WriteRange { path, offset, bytes } => files.insert(
            path,
            overwritten(
                if files.contains_key(path) {
                    files[path]
                } else {
                    Seq::empty()
                },
                offset,
                bytes,
            ),
        ),
        WriteRequest::SetLength { path, length } => files.insert(
            path,
            resized(
                if files.contains_key(path) {
                    files[path]
                } else {
                    Seq::empty()
                },
                length as int,
            ),
        ),
        WriteRequest::AtomicReplace { temporary, destination } => files.remove(temporary).insert(
            destination,
            files[temporary],
        ),
        WriteRequest::Remove { path } => files.remove(path),
        _ => files,
    }
}

/// A write reaches its file in one step: before the last request the file is as
/// it was, after it the file holds exactly the written bytes. No other file but
/// the staging name changes, whatever was left there before.
pub proof fn law_write_is_atomic(
    files: Map<Seq<char>, Seq<u8>>,
    id: u64,
    path: Seq<char>,
    bytes: Seq<u8>,
)
    requires
        bytes.len() <= u64::MAX,
    ensures
        ({
            let requests = staging_requests(id, path, bytes);
            let temporary = staging_name(id, path);
            let staged = performed(
                performed(performed(files, requests[0]), requests[1]),
                requests[2],
            );
            let committed = performed(staged, requests[3]);
            &&& requests.len() == 4
            &&& temporary != path
            &&& staged.contains_key(path) == files.contains_key(path)
            &&& files.contains_key(path) ==> staged[path] == files[path]
            &&& committed.contains_key(path) && committed[path] == bytes
            &&& !committed.contains_key(temporary)
            &&& forall|other: Seq<char>|
                other != path && other != temporary ==> {
                    &&& #[trigger] committed.contains_key(other) == files.contains_key(other)
                    &&& files.contains_key(other) ==> committed[other] == files[other]
                }
        }),
{
    reveal_strlit(".astra-tmp/write-");
    let temporary = staging_name(id, path);
    assert(temporary.len() > path.len());
    let before = if files.contains_key(temporary) {
        files[temporary]
    } else {
        Seq::empty()
    };
    let requests = staging_requests(id, path, bytes);
    assert(resized(overwritten(before, 0, bytes), bytes.len() as int) =~= bytes);
}

/// The last place of a character before some place holds the character, and no place between
/// holds it; there is none if no place before holds it.
pub proof fn law_last_place_is_the_last(s: Seq<char>, c: char, end: int)
    requires
        0 <= end <= s.len(),
    ensures
        match last_place(s, c, end) {
            Some(at) => 0 <= at < end && s[at] == c && forall|i: int| at < i < end ==> s[i] != c,
            None => forall|i: int| 0 <= i < end ==> s[i] != c,
        },
    decreases end,
{
    if end > 0 && s[end - 1] != c {
        law_last_place_is_the_last(s, c, end - 1);
    }
}

/// A path is found in small letters, with or without `./` in front of it. A path with a
/// backslash, or with a segment that names no child, is none.
pub proof fn law_paths_are_found_in_small_letters(s: Seq<char>)
    ensures
        text::plain_path(s) && !s.contains('\\') ==> {
            &&& normal_path(s) == Some(text::lower(s))
            &&& normal_path(seq!['.', '/'] + s) == Some(text::lower(s))
        },
        s.contains('\\') ==> normal_path(s) is None,
        !text::plain_path(s) && !(s.len() >= 2 && s[0] == '.' && s[1] == '/') ==> normal_path(
            s,
        ) is None,
        normal_path(s) matches Some(t) ==> text::plain_path(t) && text::lower(t) == t,
{
    let dotted = seq!['.', '/'] + s;
    assert(dotted.subrange(2, dotted.len() as int) =~= s);
    if text::plain_path(s) {
        text::lemma_plain_path_start(s);
    }
    if s.contains('\\') {
        let i = choose|i: int| 0 <= i < s.len() && s[i] == '\\';
        let t = without_dot(s);
        if s.len() >= 2 && s[0] == '.' && s[1] == '/' {
            assert(t[i - 2] == s[i]);
        }
        assert(t.contains('\\'));
    }
    if normal_path(s) is Some {
        text::lemma_lower_plain_path(without_dot(s));
        text::lemma_lower_idempotent(without_dot(s));
    }
}

proof fn lemma_behind(head: Seq<char>, c: char, tail: Seq<char>)
    requires
        !tail.contains(c),
    ensures
        ({
            let s = head + seq![c] + tail;
            &&& last_place(s, c, s.len() as int) == Some(head.len() as int)
            &&& s.subrange(head.len() as int + 1, s.len() as int) == tail
            &&& s.subrange(0, head.len() as int) == head
        }),
{
    let s = head + seq![c] + tail;
    law_last_place_is_the_last(s, c, s.len() as int);
    assert(s[head.len() as int] == c);
    assert(s.subrange(head.len() as int + 1, s.len() as int) =~= tail);
    assert(s.subrange(0, head.len() as int) =~= head);
    match last_place(s, c, s.len() as int) {
        Some(at) => {
            if at > head.len() {
                assert(tail.contains(s[at]));
            }
        },
        None => {},
    }
}

/// A search below a root lists the files there, at whatever depth, that have the extension in
/// any case of letters, and no others; below the empty root it lists them all.
pub proof fn law_search_lists_by_extension(
    root: Seq<char>,
    inner: Seq<char>,
    ending: Seq<char>,
    extension: Seq<char>,
    other: Seq<char>,
)
    requires
        !ending.contains('.'),
        root.len() > 0,
    ensures
        listed(root + seq!['/'] + inner + seq!['.'] + ending, root, extension)
            <==> text::same_ignoring_case(ending, extension),
        listed(inner + seq!['.'] + ending, Seq::empty(), extension) <==> text::same_ignoring_case(
            ending,
            extension,
        ),
        !other.contains('.') ==> !listed(other, root, extension) && !listed(
            other,
            Seq::empty(),
            extension,
        ),
        !text::has_prefix(other, root + seq!['/']) ==> !listed(other, root, extension),
{
    let path = root + seq!['/'] + inner + seq!['.'] + ending;
    let head = root + seq!['/'] + inner;
    lemma_behind(head, '.', ending);
    lemma_behind(inner, '.', ending);
    assert(path.subrange(0, root.len() as int) =~= root);
    assert(path[root.len() as int] == '/');
    if !other.contains('.') {
        law_last_place_is_the_last(other, '.', other.len() as int);
    }
    if listed(other, root, extension) {
        let start = root + seq!['/'];
        assert(other.subrange(0, root.len() as int) == root);
        assert(other.subrange(0, start.len() as int) =~= start) by {
            assert forall|i: int| 0 <= i < start.len() implies other[i] == start[i] by {
                if i < root.len() {
                    assert(other.subrange(0, root.len() as int)[i] == root[i]);
                }
            }
        }
    }
}

/// The files of a title that a search lists are those that lie in its root and have its
/// extension, each with its length.
pub proof fn law_search_lists_files_of_memory(
    names: Seq<String>,
    values: Seq<Vec<u8>>,
    i: int,
    root: Seq<char>,
    extension: Seq<char>,
)
    requires
        0 <= i <= names.len() == values.len(),
        forall|k: int| 0 <= k < values.len() ==> (#[trigger] values[k])@.len() <= u64::MAX,
    ensures
        ({
            let lines = listed_from(names, values, i, root, extension);
            &&& forall|k: int|
                #![trigger names[k]]
                i <= k < names.len() && listed(names[k]@, root, extension) ==> exists|n: int|
                    0 <= n < lines.len() && (#[trigger] lines[n]).0 == names[k]@ && lines[n].1.len
                        == values[k]@.len() && lines[n].1.kind is File
            &&& forall|n: int|
                0 <= n < lines.len() ==> exists|k: int|
                    i <= k < names.len() && (#[trigger] names[k])@ == (#[trigger] lines[n]).0
                        && listed(names[k]@, root, extension) && lines[n].1.len == values[k]@.len()
        }),
    decreases names.len() - i,
{
    if i < names.len() {
        law_search_lists_files_of_memory(names, values, i + 1, root, extension);
        let rest = listed_from(names, values, i + 1, root, extension);
        let lines = listed_from(names, values, i, root, extension);
        let shift: int = if listed(names[i]@, root, extension) {
            1
        } else {
            0
        };
        assert(forall|n: int| 0 <= n < rest.len() ==> lines[n + shift] == rest[n]);
        assert(shift == 1 ==> lines[0] == (names[i]@, file_info(values[i]@.len() as u64)));
        assert forall|k: int|
            #![trigger names[k]]
            i <= k < names.len() && listed(names[k]@, root, extension) implies exists|n: int|
            0 <= n < lines.len() && (#[trigger] lines[n]).0 == names[k]@ && lines[n].1.len
                == values[k]@.len() && lines[n].1.kind is File by {
            if k > i {
                let n = choose|n: int|
                    0 <= n < rest.len() && (#[trigger] rest[n]).0 == names[k]@ && rest[n].1.len
                        == values[k]@.len() && rest[n].1.kind is File;
                assert(lines[n + shift] == rest[n]);
            } else {
                assert(lines[0].0 == names[k]@);
            }
        }
        assert forall|n: int| 0 <= n < lines.len() implies exists|k: int|
            i <= k < names.len() && (#[trigger] names[k])@ == (#[trigger] lines[n]).0 && listed(
                names[k]@,
                root,
                extension,
            ) && lines[n].1.len == values[k]@.len() by {
            if n >= shift {
                assert(rest[n - shift] == lines[n]);
                let k = choose|k: int|
                    i + 1 <= k < names.len() && (#[trigger] names[k])@ == rest[n - shift].0
                        && listed(names[k]@, root, extension) && rest[n - shift].1.len
                        == values[k]@.len();
                assert(names[k]@ == lines[n].0);
            } else {
                assert(names[i]@ == lines[n].0);
            }
        }
    }
}

/// The archives that a search lists are those that lie in its root and have its extension.
pub proof fn law_search_lists_archives(
    names: Seq<String>,
    i: int,
    root: Seq<char>,
    extension: Seq<char>,
)
    requires
        0 <= i <= names.len(),
    ensures
        ({
            let found = names_from(names, i, root, extension);
            &&& forall|k: int|
                i <= k < names.len() && listed((#[trigger] names[k])@, root, extension)
                    ==> found.contains(names[k]@)
            &&& forall|n: int|
                0 <= n < found.len() ==> listed(#[trigger] found[n], root, extension) && exists|k: int|
                    i <= k < names.len() && (#[trigger] names[k])@ == found[n]
        }),
    decreases names.len() - i,
{
    if i < names.len() {
        law_search_lists_archives(names, i + 1, root, extension);
        let rest = names_from(names, i + 1, root, extension);
        let found = names_from(names, i, root, extension);
        let shift: int = if listed(names[i]@, root, extension) {
            1
        } else {
            0
        };
        assert(forall|n: int| 0 <= n < rest.len() ==> found[n + shift] == rest[n]);
        assert(shift == 1 ==> found[0] == names[i]@);
        assert forall|k: int|
            i <= k < names.len() && listed((#[trigger] names[k])@, root, extension) implies found.contains(
            names[k]@,
        ) by {
            if k > i {
                assert(rest.contains(names[k]@));
                let n = choose|n: int| 0 <= n < rest.len() && rest[n] == names[k]@;
                assert(found[n + shift] == names[k]@);
            }
        }
        assert forall|n: int| 0 <= n < found.len() implies listed(#[trigger] found[n], root, extension)
            && exists|k: int| i <= k < names.len() && (#[trigger] names[k])@ == found[n] by {
            if n >= shift {
                assert(found[n] == rest[n - shift]);
                let k = choose|k: int|
                    i + 1 <= k < names.len() && (#[trigger] names[k])@ == rest[n - shift];
                assert(names[k]@ == found[n]);
            } else {
                assert(names[i]@ == found[n]);
            }
        }
    }
}

/// What a virtual file system lists is accepted if and only if each address is a path that the
/// search was for; then there is one line for each, in order, with its length.
pub proof fn law_listing_is_accepted_line_by_line(
    entries: Seq<(Seq<char>, u64)>,
    i: int,
    root: Seq<char>,
    extension: Seq<char>,
)
    requires
        0 <= i <= entries.len(),
    ensures
        ({
            let lines = accepted_lines(entries, i, root, extension);
            &&& lines is Ok <==> forall|k: int|
                i <= k < entries.len() ==> normal_path((#[trigger] entries[k]).0) is Some && listed(
                    normal_path(entries[k].0)->0,
                    root,
                    extension,
                )
            &&& lines is Ok ==> {
                &&& lines->Ok_0.len() == entries.len() - i
                &&& forall|k: int|
                    #![trigger entries[k]]
                    i <= k < entries.len() ==> {
                        &&& Some(lines->Ok_0[k - i].0) == normal_path(entries[k].0)
                        &&& lines->Ok_0[k - i].1.len == entries[k].1
                        &&& lines->Ok_0[k - i].1.kind is File
                    }
            }
        }),
    decreases entries.len() - i,
{
    if i < entries.len() {
        law_listing_is_accepted_line_by_line(entries, i + 1, root, extension);
        let path = normal_path(entries[i].0);
        let lines = accepted_lines(entries, i, root, extension);
        let rest = accepted_lines(entries, i + 1, root, extension);
        if lines is Ok {
            assert(forall|k: int|
                0 <= k < rest->Ok_0.len() ==> lines->Ok_0[k + 1] == rest->Ok_0[k]);
            assert forall|k: int| #![trigger entries[k]] i <= k < entries.len() implies {
                &&& Some(lines->Ok_0[k - i].0) == normal_path(entries[k].0)
                &&& lines->Ok_0[k - i].1.len == entries[k].1
                &&& lines->Ok_0[k - i].1.kind is File
            } by {
                if k > i {
                    assert(lines->Ok_0[(k - i - 1) + 1] == rest->Ok_0[k - i - 1]);
                }
            }
        } else if path is Some && listed(path->0, root, extension) {
            assert(rest is Err);
        } else {
            assert(entries[i] == entries[i]);
        }
    }
}

/// The directory of a file is what stands before the last slash; a file without a slash has
/// none.
pub proof fn law_parent_is_before_the_last_slash(dir: Seq<char>, name: Seq<char>)
    requires
        !name.contains('/'),
    ensures
        parent_of(dir + seq!['/'] + name) == Some(dir),
        parent_of(name) is None,
{
    lemma_behind(dir, '/', name);
    law_last_place_is_the_last(name, '/', name.len() as int);
    match last_place(name, '/', name.len() as int) {
        Some(at) => {
            assert(name.contains(name[at]));
        },
        None => {},
    }
}

/// The search starts where it is told; a dot stands for everything. An extension has
/// characters, no dot in front and no slashes.
pub proof fn law_search_starts_at_its_root(root: Seq<char>, extension: Seq<char>)
    ensures
        search_root("."@) == Some(Seq::<char>::empty()),
        root != "."@ ==> search_root(root) == normal_path(root),
        extension_valid(extension) <==> extension.len() > 0 && extension[0] != '.'
            && !extension.contains('/') && !extension.contains('\\'),
{
}

/// Files are kept under their normal paths: each of them, under no other path, and never two
/// under one.
pub proof fn law_files_are_kept_under_their_paths(
    names: Seq<String>,
    values: Seq<Vec<u8>>,
    i: int,
    seen: Map<Seq<char>, Vec<u8>>,
)
    requires
        0 <= i <= names.len() == values.len(),
        collected_files(names, values, i, seen) is Ok,
    ensures
        ({
            let all = collected_files(names, values, i, seen)->Ok_0;
            &&& forall|k: int|
                i <= k < names.len() ==> normal_path((#[trigger] names[k])@) is Some
                    && !seen.contains_key(normal_path(names[k]@)->0) && all.contains_key(
                    normal_path(names[k]@)->0,
                ) && all[normal_path(names[k]@)->0] == values[k]
            &&& forall|path: Seq<char>| #[trigger]
                seen.contains_key(path) ==> all.contains_key(path) && all[path] == seen[path]
            &&& forall|path: Seq<char>| #[trigger]
                all.contains_key(path) ==> seen.contains_key(path) || exists|k: int|
                    i <= k < names.len() && normal_path((#[trigger] names[k])@) == Some(path)
        }),
    decreases names.len() - i,
{
    if i < names.len() {
        let path = normal_path(names[i]@)->0;
        let more = seen.insert(path, values[i]);
        law_files_are_kept_under_their_paths(names, values, i + 1, more);
        let all = collected_files(names, values, i, seen)->Ok_0;
        assert(more.contains_key(path));
        assert forall|k: int| i <= k < names.len() implies normal_path((#[trigger] names[k])@) is Some
            && !seen.contains_key(normal_path(names[k]@)->0) && all.contains_key(
            normal_path(names[k]@)->0,
        ) && all[normal_path(names[k]@)->0] == values[k] by {
            if k > i {
                let other = normal_path(names[k]@)->0;
                assert(!more.contains_key(other));
            }
        }
        assert forall|other: Seq<char>| #[trigger] seen.contains_key(other) implies all.contains_key(
            other,
        ) && all[other] == seen[other] by {
            assert(more.contains_key(other));
        }
        assert forall|other: Seq<char>| #[trigger] all.contains_key(other) implies seen.contains_key(
            other,
        ) || exists|k: int|
            i <= k < names.len() && normal_path((#[trigger] names[k])@) == Some(other) by {
            if other == path {
                assert(normal_path(names[i]@) == Some(other));
            }
        }
    }
}

/// The archives of a title are accepted if and only if each is a path that ends in `.bin` and
/// no two are the same; they are then kept under their paths.
pub proof fn law_packs_are_distinct_archives(paths: Seq<String>, more: String, i: int, seen: Map<Seq<char>, ()>)
    requires
        0 <= i <= paths.len(),
    ensures
        collected_packs(Seq::empty(), 0, seen) == Some(seen),
        ({
            let before = collected_packs(paths, i, seen);
            let after = collected_packs(paths.push(more), i, seen);
            let path = normal_path(more@);
            &&& before is None ==> after is None
            &&& before is Some ==> {
                &&& after is Some <==> path is Some && text::has_suffix(path->0, ".bin"@)
                    && !before->0.contains_key(path->0)
                &&& after is Some ==> after->0 == before->0.insert(path->0, ())
            }
        }),
    decreases paths.len() - i,
{
    let all = paths.push(more);
    if i < paths.len() {
        assert(all[i] == paths[i]);
        if normal_path(paths[i]@) is Some {
            law_packs_are_distinct_archives(
                paths,
                more,
                i + 1,
                seen.insert(normal_path(paths[i]@)->0, ()),
            );
        }
    } else {
        assert(all[i] == more);
        if normal_path(more@) is Some {
            let next = seen.insert(normal_path(more@)->0, ());
            assert(collected_packs(all, i + 1, next) == Some(next));
        }
    }
}

/// A title in memory opens a file with its own content and tells its length; a file that it
/// does not have is not found. A title in a virtual file system asks there, for the same path.
pub proof fn law_sources_answer_for_their_files(
    fs: HostedMemoryFileSystem,
    path: Seq<char>,
    opened: Result<OpenStep, RfvpError>,
    told: Result<MetadataStep, RfvpError>,
)
    requires
        fs.source_open(path, opened),
        fs.source_metadata(path, told),
    ensures
        fs.source matches HostedFileSource::Memory { files } ==> {
            &&& files@.contains_key(path) ==> {
                &&& opened matches Ok(OpenStep::Opened { file: HostedMemoryFile::Memory { bytes } })
                    && bytes@ == files@[path]@
                &&& files@[path]@.len() <= u64::MAX ==> (told matches Ok(MetadataStep::Found { info })
                    && info.len == files@[path]@.len() && info.kind is File)
            }
            &&& !files@.contains_key(path) ==> {
                &&& opened == Err::<OpenStep, RfvpError>(RfvpError::NotFound)
                &&& told == Err::<MetadataStep, RfvpError>(RfvpError::NotFound)
            }
        },
        fs.source is Vfs ==> {
            &&& opened matches Ok(OpenStep::StatVfs { path: p }) && p@ == path
            &&& told matches Ok(MetadataStep::StatVfs { path: p }) && p@ == path
        },
{
}

}
