//! Bounded reads of a byte source that lives outside the library.
//!
//! A read is a conversation: the library names the next range, the caller
//! fetches it and hands the bytes back, until the whole range has arrived.

use vstd::prelude::*;

use crate::fault::{Fault, LegacyCoreError, LegacyProviderError};

verus! {

/// Length and revision of a source.
#[derive(Debug, Clone, Copy, PartialEq, Eq, Structural)]
pub struct ByteSourceStat {
    pub len: u64,
    pub revision: u64,
}

#[derive(Debug, Clone, Copy, PartialEq, Eq, Structural)]
pub struct ByteRange {
    pub offset: u64,
    pub len: u64,
}

/// Why a source did not deliver a range.
#[derive(Debug, Clone, Copy, PartialEq, Eq, Structural)]
pub enum ByteSourceError {
    RangeLimit,
    RangeOverflow,
    RangeBounds,
    RevisionMismatch,
    ShortRead,
    Poisoned,
    Io,
}

/// The code under which a source failure is reported.
pub open spec fn source_error_code(error: ByteSourceError) -> Seq<char> {
    match error {
        ByteSourceError::RangeLimit => "ASTRA_EMU_VFS_READ_LIMIT"@,
        ByteSourceError::RangeOverflow => "ASTRA_EMU_VFS_READ_OVERFLOW"@,
        ByteSourceError::RangeBounds => "ASTRA_EMU_VFS_READ_BOUNDS"@,
        ByteSourceError::RevisionMismatch => "ASTRA_EMU_VFS_SOURCE_CHANGED"@,
        ByteSourceError::ShortRead => "ASTRA_EMU_VFS_SHORT_READ"@,
        ByteSourceError::Poisoned => "ASTRA_EMU_VFS_SOURCE_POISONED"@,
        ByteSourceError::Io => "ASTRA_EMU_VFS_SOURCE_IO"@,
    }
}

fn error_code(error: ByteSourceError) -> (r: &'static str)
    ensures
        r@ == source_error_code(error),
{
    match error {
        ByteSourceError::RangeLimit => "ASTRA_EMU_VFS_READ_LIMIT",
        ByteSourceError::RangeOverflow => "ASTRA_EMU_VFS_READ_OVERFLOW",
        ByteSourceError::RangeBounds => "ASTRA_EMU_VFS_READ_BOUNDS",
        ByteSourceError::RevisionMismatch => "ASTRA_EMU_VFS_SOURCE_CHANGED",
        ByteSourceError::ShortRead => "ASTRA_EMU_VFS_SHORT_READ",
        ByteSourceError::Poisoned => "ASTRA_EMU_VFS_SOURCE_POISONED",
        ByteSourceError::Io => "ASTRA_EMU_VFS_SOURCE_IO",
    }
}

/// The failure of a read of an archive entry.
pub fn archive_source_error(error: ByteSourceError) -> (r: LegacyProviderError)
    ensures
        r@ == (Fault {
            code: source_error_code(error),
            message: "bounded archive source read failed"@,
        }),
{
    LegacyProviderError::invalid(error_code(error), "bounded archive source read failed")
}

/// The failure of a read during an audit.
pub fn audit_source_error(error: ByteSourceError) -> (r: LegacyCoreError)
    ensures
        r@ == (Fault {
            code: source_error_code(error),
            message: "FVP bounded archive audit failed"@,
        }),
{
    LegacyCoreError::invalid(error_code(error), "FVP bounded archive audit failed")
}

/// The failure of a read of a mounted file.
pub fn vfs_source_error(error: ByteSourceError) -> (r: LegacyCoreError)
    ensures
        r@ == (Fault {
            code: source_error_code(error),
            message: "FVP bounded archive source operation failed"@,
        }),
{
    LegacyCoreError::invalid(error_code(error), "FVP bounded archive source operation failed")
}

/// The next range to fetch when `offset..end` is still missing and one request
/// may not exceed `max_range` bytes.
pub open spec fn next_request(offset: u64, end: u64, max_range: u64) -> Option<ByteRange> {
    if offset < end {
        Some(
            ByteRange {
                offset,
                len: if end - offset < max_range {
                    (end - offset) as u64
                } else {
                    max_range
                },
            },
        )
    } else {
        None
    }
}

/// Where a read stands: what has arrived and which range is still missing.
#[verifier::ext_equal]
pub struct ReadState {
    pub bytes: Seq<u8>,
    pub offset: u64,
    pub end: u64,
    pub max_range: u64,
}

impl ReadState {
    pub open spec fn request(self) -> Option<ByteRange> {
        next_request(self.offset, self.end, self.max_range)
    }

    /// The state after the caller delivered `reply` for the current request.
    pub open spec fn after(self, reply: Seq<u8>) -> ReadState {
        match self.request() {
            Some(range) => ReadState {
                bytes: self.bytes + reply,
                offset: (self.offset + range.len) as u64,
                ..self
            },
            None => self,
        }
    }

    /// The bytes that the read ends with when every reply is the requested part
    /// of `data`.
    pub open spec fn outcome(self, data: Seq<u8>) -> Seq<u8>
        decreases self.end - self.offset,
        when self.max_range > 0
    {
        match self.request() {
            Some(range) => self.after(
                data.subrange(range.offset as int, range.offset + range.len),
            ).outcome(data),
            None => self.bytes,
        }
    }
}

/// What is wrong with the range, if anything is.
pub open spec fn range_fault(stat: ByteSourceStat, range: ByteRange) -> Option<Fault> {
    if range.offset + range.len > u64::MAX {
        Some(crate::fault::fault("ASTRA_FVP_ARCHIVE_ENTRY_OVERFLOW", "archive range overflowed"))
    } else if range.offset + range.len > stat.len {
        Some(
            crate::fault::fault("ASTRA_FVP_ARCHIVE_ENTRY_BOUNDS", "archive range is out of bounds"),
        )
    } else if range.len > usize::MAX {
        Some(
            crate::fault::fault(
                "ASTRA_FVP_ARCHIVE_ENTRY_BOUNDS",
                "archive range cannot fit in memory",
            ),
        )
    } else {
        None
    }
}

/// The read of `range` before anything has arrived.
pub open spec fn fresh_read(range: ByteRange, max_range: u64) -> ReadState {
    ReadState {
        bytes: Seq::empty(),
        offset: range.offset,
        end: (range.offset + range.len) as u64,
        max_range,
    }
}

/// A read of one range in progress.
#[derive(Debug)]
pub struct RangeRead {
    pub bytes: Vec<u8>,
    pub offset: u64,
    pub end: u64,
    pub max_range: u64,
}

impl RangeRead {
    pub open spec fn view(&self) -> ReadState {
        ReadState {
            bytes: self.bytes@,
            offset: self.offset,
            end: self.end,
            max_range: self.max_range,
        }
    }

    pub open spec fn wf(&self) -> bool {
        self.offset <= self.end && self.max_range > 0
    }

    /// Starts a read of `range`, which has to lie inside the source and fit in
    /// memory.
    pub fn begin(stat: ByteSourceStat, range: ByteRange, max_range: u64) -> (r: Result<
        Self,
        LegacyProviderError,
    >)
        requires
            max_range > 0,
        ensures
            match r {
                Ok(read) => {
                    &&& range_fault(stat, range) is None
                    &&& read.wf()
                    &&& read@ == fresh_read(range, max_range)
                },
                Err(e) => range_fault(stat, range) == Some(e@),
            },
    {
        let end: u64 = match range.offset.checked_add(range.len) {
            Some(v) => v,
            None => return Err(
                LegacyProviderError::invalid(
                    "ASTRA_FVP_ARCHIVE_ENTRY_OVERFLOW",
                    "archive range overflowed",
                ),
            ),
        };
        if end > stat.len {
            return Err(
                LegacyProviderError::invalid(
                    "ASTRA_FVP_ARCHIVE_ENTRY_BOUNDS",
                    "archive range is out of bounds",
                ),
            );
        }
        if range.len > usize::MAX as u64 {
            return Err(
                LegacyProviderError::invalid(
                    "ASTRA_FVP_ARCHIVE_ENTRY_BOUNDS",
                    "archive range cannot fit in memory",
                ),
            );
        }
        let bytes: Vec<u8> = Vec::new();
        assert(bytes@ =~= Seq::<u8>::empty());
        Ok(RangeRead { bytes, offset: range.offset, end, max_range })
    }

    /// The range to fetch next; `None` when everything has arrived.
    pub fn request(&self) -> (r: Option<ByteRange>)
        ensures
            r == self@.request(),
    {
        if self.offset < self.end {
            let rest: u64 = self.end - self.offset;
            Some(
                ByteRange {
                    offset: self.offset,
                    len: if rest < self.max_range {
                        rest
                    } else {
                        self.max_range
                    },
                },
            )
        } else {
            None
        }
    }

    /// Takes in the reply to the current request.
    pub fn accept(&mut self, reply: &[u8])
        requires
            old(self).wf(),
        ensures
            final(self).wf(),
            final(self)@ == old(self)@.after(reply@),
    {
        match self.request() {
            Some(range) => {
                self.bytes.extend_from_slice(reply);
                self.offset = self.offset + range.len;
            },
            None => {},
        }
        assert(self@ =~= old(self)@.after(reply@));
    }
}

proof fn lemma_outcome(s: ReadState, data: Seq<u8>)
    requires
        s.max_range > 0,
        s.offset <= s.end <= data.len(),
    ensures
        s.outcome(data) == s.bytes + data.subrange(s.offset as int, s.end as int),
    decreases s.end - s.offset,
{
    match s.request() {
        Some(range) => {
            let part = data.subrange(range.offset as int, range.offset + range.len);
            let t = s.after(part);
            lemma_outcome(t, data);
            assert(part + data.subrange(t.offset as int, t.end as int) =~= data.subrange(
                s.offset as int,
                s.end as int,
            ));
            assert(s.bytes + part + data.subrange(t.offset as int, t.end as int) =~= s.bytes + (part
                + data.subrange(t.offset as int, t.end as int)));
        },
        None => {
            assert(s.bytes + data.subrange(s.offset as int, s.end as int) =~= s.bytes);
        },
    }
}

/// A read that the source answers truthfully delivers exactly the bytes of its
/// range, whatever the limit on one request.
pub proof fn law_bounded_read_is_exact(
    data: Seq<u8>,
    stat: ByteSourceStat,
    range: ByteRange,
    max_range: u64,
)
    requires
        max_range > 0,
        stat.len == data.len(),
        range_fault(stat, range) is None,
    ensures
        fresh_read(range, max_range).outcome(data) == data.subrange(
            range.offset as int,
            range.offset + range.len,
        ),
{
    lemma_outcome(fresh_read(range, max_range), data);
    assert(Seq::<u8>::empty() + data.subrange(range.offset as int, range.offset + range.len)
        =~= data.subrange(range.offset as int, range.offset + range.len));
}

/// A request asks for something, for no more than one request may, and for nothing outside
/// the missing part, from its start on; a read asks until nothing is missing.
pub proof fn law_requests_are_bounded(read: ReadState)
    requires
        read.max_range > 0,
    ensures
        read.request() is None <==> read.offset >= read.end,
        read.request() matches Some(range) ==> {
            &&& range.offset == read.offset
            &&& 0 < range.len <= read.max_range
            &&& range.offset + range.len <= read.end
            &&& range.len < read.max_range ==> range.offset + range.len == read.end
        },
{
}

/// A range is read if and only if it lies in the source and fits in memory.
pub proof fn law_ranges_lie_in_the_source(stat: ByteSourceStat, range: ByteRange)
    ensures
        range_fault(stat, range) is None <==> range.offset + range.len <= stat.len && range.len
            <= usize::MAX,
{
}

/// Each failure of a source has a code of its own: a range that is too long, that overflows
/// or that leaves the source, a source that changed, broke off, is unusable or failed.
pub proof fn law_source_failures_have_their_codes()
    ensures
        source_error_code(ByteSourceError::RangeLimit) == "ASTRA_EMU_VFS_READ_LIMIT"@,
        source_error_code(ByteSourceError::RangeOverflow) == "ASTRA_EMU_VFS_READ_OVERFLOW"@,
        source_error_code(ByteSourceError::RangeBounds) == "ASTRA_EMU_VFS_READ_BOUNDS"@,
        source_error_code(ByteSourceError::RevisionMismatch) == "ASTRA_EMU_VFS_SOURCE_CHANGED"@,
        source_error_code(ByteSourceError::ShortRead) == "ASTRA_EMU_VFS_SHORT_READ"@,
        source_error_code(ByteSourceError::Poisoned) == "ASTRA_EMU_VFS_SOURCE_POISONED"@,
        source_error_code(ByteSourceError::Io) == "ASTRA_EMU_VFS_SOURCE_IO"@,
{
}

}
