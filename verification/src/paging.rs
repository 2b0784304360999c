//! Paged reads of a file that lives in a virtual file system.
//!
//! Short reads go through one cached page of the file, long reads go to the
//! file system directly. The caller performs the requests.

use vstd::prelude::*;

use crate::fault::LegacyProviderError;
use crate::host_api::RfvpError;
use crate::source::ByteRange;
use crate::text;

verus! {

/// The longest single range that a file hands out.
pub const MAX_HOSTED_RANGE_BYTES: usize = 16_777_216;

/// The size of a cached page.
pub const HOSTED_VFS_PAGE_BYTES: usize = 1_048_576;

/// The core's name for a failure of the file system, told by its code.
pub open spec fn vfs_error(code: Seq<char>) -> RfvpError {
    if code == "ASTRA_EMU_VFS_NOT_FOUND"@ {
        RfvpError::NotFound
    } else if code == "ASTRA_EMU_VFS_BOUNDS"@ {
        RfvpError::CapacityExceeded
    } else {
        RfvpError::Io
    }
}

pub fn map_vfs_error(error: &LegacyProviderError) -> (r: RfvpError)
    ensures
        r == vfs_error(error@.code),
{
    if text::same_text(error.code(), "ASTRA_EMU_VFS_NOT_FOUND") {
        RfvpError::NotFound
    } else if text::same_text(error.code(), "ASTRA_EMU_VFS_BOUNDS") {
        RfvpError::CapacityExceeded
    } else {
        RfvpError::Io
    }
}

// ------------------------------------------------------------------ the model

pub open spec fn smaller(a: int, b: int) -> int {
    if a < b {
        a
    } else {
        b
    }
}

/// Where a read stands: the file's length and cached page, the range that is
/// wanted and the part of it that has been copied.
#[verifier::ext_equal]
pub struct PageState {
    pub len: u64,
    pub cache_offset: u64,
    pub cache: Seq<u8>,
    pub offset: u64,
    pub total: usize,
    pub direct: bool,
    pub copied: Seq<u8>,
}

/// The page that holds the byte `at`.
pub open spec fn page_range(at: int, len: u64) -> ByteRange {
    let start = at / HOSTED_VFS_PAGE_BYTES as int * HOSTED_VFS_PAGE_BYTES as int;
    ByteRange {
        offset: start as u64,
        len: smaller(HOSTED_VFS_PAGE_BYTES as int, len - start) as u64,
    }
}

impl PageState {
    pub open spec fn valid(self) -> bool {
        &&& self.cache_offset + self.cache.len() <= self.len
        &&& self.offset + self.total <= self.len
        &&& self.copied.len() <= self.total
        &&& self.direct ==> self.copied.len() == 0 || self.copied.len() == self.total
    }

    /// The next byte that is missing.
    pub open spec fn cursor(self) -> int {
        self.offset + self.copied.len()
    }

    pub open spec fn cursor_cached(self) -> bool {
        self.cache_offset <= self.cursor() < self.cache_offset + self.cache.len()
    }

    /// The state after copying what the cached page holds of the missing bytes.
    pub open spec fn settled(self) -> PageState {
        if self.copied.len() < self.total && self.cursor_cached() {
            let start = self.cursor() - self.cache_offset;
            let count = smaller(self.cache.len() - start, self.total - self.copied.len());
            PageState { copied: self.copied + self.cache.subrange(start, start + count), ..self }
        } else {
            self
        }
    }

    /// The range to fetch next: all of it in a direct read, else the page of the
    /// next missing byte.
    pub open spec fn request(self) -> Option<ByteRange> {
        if self.copied.len() >= self.total {
            None
        } else if self.direct {
            Some(ByteRange { offset: self.offset, len: self.total as u64 })
        } else {
            Some(page_range(self.cursor(), self.len))
        }
    }

    /// The state after the reply to the current request.
    pub open spec fn after(self, reply: Seq<u8>) -> PageState {
        match self.request() {
            None => self,
            Some(range) => if self.direct {
                PageState { copied: reply, ..self }
            } else {
                PageState { cache_offset: range.offset, cache: reply, ..self }.settled()
            },
        }
    }

    /// The cached page holds what the file `data` holds there.
    pub open spec fn caches(self, data: Seq<u8>) -> bool {
        self.cache == data.subrange(
            self.cache_offset as int,
            self.cache_offset + self.cache.len(),
        )
    }

    /// What has been copied is the start of the wanted range of `data`.
    pub open spec fn follows(self, data: Seq<u8>) -> bool {
        self.copied == data.subrange(self.offset as int, self.cursor())
    }

    /// The state that the read ends in when every reply is the requested part of
    /// `data`.
    pub open spec fn outcome(self, data: Seq<u8>) -> PageState
        decreases self.total - self.copied.len(),
        when self.valid() && self.len == data.len()
    {
        proof {
            if self.request() is Some {
                let range = self.request()->0;
                lemma_progress(self, data.subrange(range.offset as int, range.offset + range.len));
            }
        }
        match self.request() {
            None => self,
            Some(range) => self.after(
                data.subrange(range.offset as int, range.offset + range.len),
            ).outcome(data),
        }
    }
}

/// A request lies inside the file, and its page holds the next missing byte.
proof fn lemma_request(s: PageState)
    requires
        s.valid(),
        s.request() is Some,
    ensures
        ({
            let range = s.request()->0;
            &&& range.offset + range.len <= s.len
            &&& range.offset <= s.cursor() < range.offset + range.len
            &&& range.len <= HOSTED_VFS_PAGE_BYTES || s.direct && range.len == s.total
        }),
{
    if !s.direct {
        let at = s.cursor();
        let page = HOSTED_VFS_PAGE_BYTES as int;
        let start = at / page * page;
        assert(start <= at < start + page) by (nonlinear_arith)
            requires
                page > 0,
                0 <= at,
                start == at / page * page,
        ;
    }
}

/// A reply of the requested length brings the read forward.
pub proof fn lemma_progress(s: PageState, reply: Seq<u8>)
    requires
        s.valid(),
        s.request() is Some,
        reply.len() == s.request()->0.len,
    ensures
        s.after(reply).valid(),
        s.after(reply).len == s.len,
        s.after(reply).total == s.total,
        s.after(reply).offset == s.offset,
        s.after(reply).copied.len() > s.copied.len(),
{
    lemma_request(s);
}

/// The state in which a read of `wanted` bytes at `offset` starts.
pub open spec fn page_start(
    len: u64,
    cache_offset: u64,
    cache: Seq<u8>,
    offset: u64,
    wanted: usize,
) -> PageState {
    let total = if offset >= len {
        0
    } else {
        smaller(wanted as int, len - offset)
    };
    let hit = cache_offset <= offset && offset + total <= cache_offset + cache.len();
    let s = PageState {
        len,
        cache_offset,
        cache,
        offset: if total == 0 {
            0
        } else {
            offset
        },
        total: total as usize,
        direct: total > 0 && !hit && wanted >= HOSTED_VFS_PAGE_BYTES,
        copied: Seq::empty(),
    };
    if s.direct {
        s
    } else {
        s.settled()
    }
}

// -------------------------------------------------------------------- the code

/// A file of a virtual file system with its cached page.
#[derive(Debug)]
pub struct VfsFile {
    pub mount_set_id: String,
    pub uri: String,
    pub len: u64,
    pub revision: u64,
    pub cache_offset: u64,
    pub cache: Vec<u8>,
}

/// A read in progress.
#[derive(Debug)]
pub struct PagedRead {
    pub offset: u64,
    pub total: usize,
    pub direct: bool,
    pub copied: Vec<u8>,
}

impl VfsFile {
    pub open spec fn wf(&self) -> bool {
        self.cache_offset + self.cache@.len() <= self.len
    }

    pub open spec fn state(&self, read: PagedRead) -> PageState {
        PageState {
            len: self.len,
            cache_offset: self.cache_offset,
            cache: self.cache@,
            offset: read.offset,
            total: read.total,
            direct: read.direct,
            copied: read.copied@,
        }
    }

    fn settle(&self, read: &mut PagedRead)
        requires
            self.state(*old(read)).valid(),
            !old(read).direct,
        ensures
            self.state(*final(read)) == self.state(*old(read)).settled(),
            self.state(*final(read)).valid(),
    {
        let ghost before = self.state(*read);
        let done: usize = read.copied.len();
        let cursor: u64 = read.offset + done as u64;
        let cache_end: u64 = self.cache_offset + self.cache.len() as u64;
        if done < read.total && self.cache_offset <= cursor && cursor < cache_end {
            let start: usize = (cursor - self.cache_offset) as usize;
            let available: usize = self.cache.len() - start;
            let missing: usize = read.total - done;
            let count: usize = if available < missing {
                available
            } else {
                missing
            };
            let part = vstd::slice::slice_subrange(self.cache.as_slice(), start, start + count);
            read.copied.extend_from_slice(part);
            assert(self.state(*read) =~= before.settled());
        }
    }

    /// Starts a read of `wanted` bytes at `offset`.
    pub fn begin_read(&self, offset: u64, wanted: usize) -> (r: Result<PagedRead, RfvpError>)
        requires
            self.wf(),
        ensures
            match r {
                Ok(read) => {
                    &&& wanted <= MAX_HOSTED_RANGE_BYTES
                    &&& self.state(read) == page_start(
                        self.len,
                        self.cache_offset,
                        self.cache@,
                        offset,
                        wanted,
                    )
                    &&& self.state(read).valid()
                },
                Err(e) => wanted > MAX_HOSTED_RANGE_BYTES && e == RfvpError::CapacityExceeded,
            },
    {
        if wanted > MAX_HOSTED_RANGE_BYTES {
            return Err(RfvpError::CapacityExceeded);
        }
        if offset >= self.len || wanted == 0 {
            let read = PagedRead { offset: 0, total: 0, direct: false, copied: Vec::new() };
            assert(self.state(read) =~= page_start(
                self.len,
                self.cache_offset,
                self.cache@,
                offset,
                wanted,
            ));
            return Ok(read);
        }
        let rest: u64 = self.len - offset;
        let total: usize = if (wanted as u64) < rest {
            wanted
        } else {
            rest as usize
        };
        let cache_end: u64 = self.cache_offset + self.cache.len() as u64;
        let hit = self.cache_offset <= offset && offset + total as u64 <= cache_end;
        let mut read = PagedRead {
            offset,
            total,
            direct: !hit && wanted >= HOSTED_VFS_PAGE_BYTES,
            copied: Vec::new(),
        };
        assert(read.copied@ =~= Seq::<u8>::empty());
        if !read.direct {
            self.settle(&mut read);
        }
        Ok(read)
    }

    /// The range to fetch next; `None` when the read is complete.
    pub fn request(&self, read: &PagedRead) -> (r: Option<ByteRange>)
        requires
            self.state(*read).valid(),
        ensures
            r == self.state(*read).request(),
    {
        if read.copied.len() >= read.total {
            return None;
        }
        if read.direct {
            return Some(ByteRange { offset: read.offset, len: read.total as u64 });
        }
        let cursor: u64 = read.offset + read.copied.len() as u64;
        let page: u64 = HOSTED_VFS_PAGE_BYTES as u64;
        assert(cursor / page * page <= cursor) by (nonlinear_arith)
            requires
                page > 0,
        ;
        let start: u64 = cursor / page * page;
        let rest: u64 = self.len - start;
        Some(
            ByteRange {
                offset: start,
                len: if page < rest {
                    page
                } else {
                    rest
                },
            },
        )
    }

    /// Takes in the reply to the current request. A reply of another length than
    /// the requested one is an I/O failure; a failure leaves the file as it was.
    pub fn accept(&mut self, read: PagedRead, reply: Result<Vec<u8>, LegacyProviderError>) -> (r: Result<
        PagedRead,
        RfvpError,
    >)
        requires
            old(self).wf(),
            old(self).state(read).valid(),
            old(self).state(read).request() is Some,
        ensures
            final(self).wf(),
            final(self).len == old(self).len,
            final(self).revision == old(self).revision,
            final(self).uri == old(self).uri,
            final(self).mount_set_id == old(self).mount_set_id,
            match reply {
                Err(e) => r is Err && r->Err_0 == vfs_error(e@.code) && *final(self) == *old(self),
                Ok(bytes) => if bytes@.len() != (old(self).state(read).request()->0).len {
                    r is Err && r->Err_0 == RfvpError::Io && *final(self) == *old(self)
                } else {
                    &&& r is Ok
                    &&& final(self).state(r->Ok_0) == old(self).state(read).after(bytes@)
                    &&& final(self).state(r->Ok_0).valid()
                },
            },
    {
        let ghost s = self.state(read);
        proof {
            lemma_request(s);
        }
        let range = match self.request(&read) {
            Some(v) => v,
            None => return Err(RfvpError::Io),
        };
        let bytes = match reply {
            Ok(v) => v,
            Err(e) => return Err(map_vfs_error(&e)),
        };
        if bytes.len() as u64 != range.len {
            return Err(RfvpError::Io);
        }
        proof {
            lemma_progress(s, bytes@);
        }
        let mut next = read;
        if next.direct {
            next.copied = bytes;
            assert(self.state(next) =~= s.after(next.copied@));
            return Ok(next);
        }
        self.cache_offset = range.offset;
        self.cache = bytes;
        assert(self.state(next) =~= (PageState {
            cache_offset: range.offset,
            cache: self.cache@,
            ..s
        }));
        self.settle(&mut next);
        Ok(next)
    }
}

// ----------------------------------------------------------------------- laws

proof fn lemma_outcome(s: PageState, data: Seq<u8>)
    requires
        s.valid(),
        s.len == data.len(),
        s.caches(data),
        s.follows(data),
    ensures
        ({
            let end = s.outcome(data);
            &&& end.copied == data.subrange(s.offset as int, s.offset + s.total)
            &&& end.caches(data)
            &&& end.valid()
            &&& end.len == s.len
        }),
    decreases s.total - s.copied.len(),
{
    match s.request() {
        None => {},
        Some(range) => {
            lemma_request(s);
            let reply = data.subrange(range.offset as int, range.offset + range.len);
            lemma_progress(s, reply);
            let next = s.after(reply);
            if s.direct {
                assert(next.follows(data));
            } else {
                let start = s.cursor() - range.offset;
                let count = smaller(reply.len() - start, s.total - s.copied.len());
                assert(next.copied =~= s.copied + reply.subrange(start, start + count));
                assert(next.copied =~= data.subrange(s.offset as int, next.cursor()));
                assert(next.caches(data));
            }
            lemma_outcome(next, data);
        },
    }
}

/// A read of a file that the file system serves truthfully delivers the wanted
/// bytes as far as the file goes, however the pages fall and whatever page was
/// cached before. The cached page stays true to the file.
pub proof fn law_paged_read_is_exact(
    data: Seq<u8>,
    cache_offset: u64,
    cache: Seq<u8>,
    offset: u64,
    wanted: usize,
)
    requires
        data.len() <= u64::MAX,
        cache_offset + cache.len() <= data.len(),
        cache == data.subrange(cache_offset as int, cache_offset + cache.len()),
    ensures
        ({
            let end = page_start(data.len() as u64, cache_offset, cache, offset, wanted).outcome(data);
            let stop = smaller(offset + wanted, data.len() as int);
            &&& end.copied == if offset < stop {
                data.subrange(offset as int, stop)
            } else {
                Seq::empty()
            }
            &&& end.caches(data)
        }),
{
    let s = page_start(data.len() as u64, cache_offset, cache, offset, wanted);
    assert(s.valid());
    if s.copied.len() > 0 {
        let start = offset - cache_offset;
        assert(s.copied =~= cache.subrange(start, start + s.copied.len()));
    }
    assert(s.copied =~= data.subrange(s.offset as int, s.cursor()));
    lemma_outcome(s, data);
    if offset >= smaller(offset + wanted, data.len() as int) {
        assert(data.subrange(s.offset as int, s.offset + s.total) =~= Seq::<u8>::empty());
    }
}

/// A read copies as many bytes as are wanted and the file has from its place on. It asks for
/// pages of a mebibyte that begin at multiples of it, or for all at once where that much is
/// wanted and the cached page does not hold it, and asks for nothing that lies outside the
/// file.
pub proof fn law_pages_hold_what_is_missing(
    data: Seq<u8>,
    cache_offset: u64,
    cache: Seq<u8>,
    offset: u64,
    wanted: usize,
)
    requires
        data.len() <= u64::MAX,
        cache_offset + cache.len() <= data.len(),
        cache == data.subrange(cache_offset as int, cache_offset + cache.len()),
    ensures
        ({
            let start = page_start(data.len() as u64, cache_offset, cache, offset, wanted);
            let end = start.outcome(data);
            &&& offset >= data.len() ==> end.copied.len() == 0
            &&& offset < data.len() && offset + wanted <= data.len() ==> end.copied == data.subrange(
                offset as int,
                offset + wanted,
            )
            &&& offset < data.len() && offset + wanted > data.len() ==> end.copied == data.skip(
                offset as int,
            )
            &&& start.request() matches Some(range) ==> {
                &&& range.offset + range.len <= data.len()
                &&& range.offset <= offset + start.copied.len() < range.offset + range.len
                &&& wanted < 0x10_0000 ==> range.offset % 0x10_0000 == 0 && range.len <= 0x10_0000
                    && (range.len == 0x10_0000 || range.offset + range.len == data.len())
            }
        }),
{
    law_paged_read_is_exact(data, cache_offset, cache, offset, wanted);
    let start = page_start(data.len() as u64, cache_offset, cache, offset, wanted);
    let end = start.outcome(data);
    if offset < data.len() && offset + wanted > data.len() {
        assert(data.subrange(offset as int, data.len() as int) =~= data.skip(offset as int));
    }
    if wanted == 0 && offset < data.len() {
        assert(data.subrange(offset as int, offset + wanted) =~= Seq::<u8>::empty());
    }
    if start.request() is Some {
        assert(start.valid());
        lemma_request(start);
        let at = start.cursor();
        assert((at / 0x10_0000 * 0x10_0000) % 0x10_0000 == 0);
    }
}

/// The core tells a missing file and one out of bounds from any other failure.
pub proof fn law_failures_of_files_are_told_apart(code: Seq<char>)
    ensures
        vfs_error(code) is NotFound <==> code == "ASTRA_EMU_VFS_NOT_FOUND"@,
        vfs_error(code) is CapacityExceeded <==> code == "ASTRA_EMU_VFS_BOUNDS"@,
        code != "ASTRA_EMU_VFS_NOT_FOUND"@ && code != "ASTRA_EMU_VFS_BOUNDS"@ ==> vfs_error(
            code,
        ) is Io,
{
    reveal_strlit("ASTRA_EMU_VFS_NOT_FOUND");
    reveal_strlit("ASTRA_EMU_VFS_BOUNDS");
    assert("ASTRA_EMU_VFS_NOT_FOUND"@.len() == 23 && "ASTRA_EMU_VFS_BOUNDS"@.len() == 20);
}

}
