//! The single-pass audit of an archive: one sweep over the source gives the
//! digest of the whole file, and the digest and the first bytes of every entry.

use vstd::prelude::*;

use crate::archive::{ArchiveStorage, EntryView, FvpArchive, FvpArchiveEntry};
use crate::digest::{Hash256, RunningDigest};
use crate::fault::{Fault, LegacyCoreError};
use crate::source::{ByteRange, ReadState};

verus! {

/// How many bytes of each entry are kept to tell its kind.
pub const MAGIC_BYTES: usize = 16;

/// The bytes `start..end` of an archive belong to the entry `index`.
#[derive(Debug, Clone, Copy, PartialEq, Eq, Structural)]
pub struct EntrySpan {
    pub start: u64,
    pub end: u64,
    pub index: usize,
}

/// Order by start, then by end, then by entry.
pub open spec fn span_le(a: EntrySpan, b: EntrySpan) -> bool {
    ||| a.start < b.start
    ||| a.start == b.start && a.end < b.end
    ||| a.start == b.start && a.end == b.end && a.index <= b.index
}

pub open spec fn spans_sorted(s: Seq<EntrySpan>) -> bool {
    forall|i: int, j: int| 0 <= i < j < s.len() ==> span_le(#[trigger] s[i], #[trigger] s[j])
}

fn not_after(a: EntrySpan, b: EntrySpan) -> (r: bool)
    ensures
        r == span_le(a, b),
{
    a.start < b.start || (a.start == b.start && (a.end < b.end || (a.end == b.end && a.index
        <= b.index)))
}

/// Merges two sorted lists of spans.
fn merge_spans(a: &Vec<EntrySpan>, b: &Vec<EntrySpan>) -> (r: Vec<EntrySpan>)
    requires
        spans_sorted(a@),
        spans_sorted(b@),
    ensures
        spans_sorted(r@),
        r@.to_multiset() == a@.to_multiset().add(b@.to_multiset()),
{
    broadcast use vstd::seq_lib::group_to_multiset_ensures;

    let mut r: Vec<EntrySpan> = Vec::new();
    let mut i: usize = 0;
    let mut j: usize = 0;
    proof {
        assert(a@.subrange(0, 0) =~= Seq::<EntrySpan>::empty());
        assert(b@.subrange(0, 0) =~= Seq::<EntrySpan>::empty());
        assert(r@ =~= Seq::<EntrySpan>::empty());
        assert(r@.to_multiset() =~= a@.subrange(0, 0).to_multiset().add(
            b@.subrange(0, 0).to_multiset(),
        ));
    }
    while i < a.len() || j < b.len()
        invariant
            i <= a.len(),
            j <= b.len(),
            spans_sorted(a@),
            spans_sorted(b@),
            spans_sorted(r@),
            r@.to_multiset() =~= a@.subrange(0, i as int).to_multiset().add(
                b@.subrange(0, j as int).to_multiset(),
            ),
            forall|k: int| 0 <= k < r@.len() && i < a.len() ==> span_le(#[trigger] r@[k], a@[i as int]),
            forall|k: int| 0 <= k < r@.len() && j < b.len() ==> span_le(#[trigger] r@[k], b@[j as int]),
        decreases a.len() - i + b.len() - j,
    {
        broadcast use vstd::seq_lib::group_to_multiset_ensures;

        if j == b.len() || (i < a.len() && not_after(a[i], b[j])) {
            r.push(a[i]);
            assert(a@.subrange(0, i + 1) =~= a@.subrange(0, i as int).push(a@[i as int]));
            i = i + 1;
        } else {
            r.push(b[j]);
            assert(b@.subrange(0, j + 1) =~= b@.subrange(0, j as int).push(b@[j as int]));
            j = j + 1;
        }
    }
    assert(a@.subrange(0, a@.len() as int) =~= a@);
    assert(b@.subrange(0, b@.len() as int) =~= b@);
    r
}

/// Sorts spans by start, end and entry.
fn sort_spans(v: &Vec<EntrySpan>) -> (r: Vec<EntrySpan>)
    ensures
        spans_sorted(r@),
        r@.to_multiset() == v@.to_multiset(),
    decreases v.len(),
{
    broadcast use vstd::seq_lib::group_to_multiset_ensures;

    let mut a: Vec<EntrySpan> = Vec::new();
    let mut b: Vec<EntrySpan> = Vec::new();
    if v.len() <= 1 {
        if v.len() == 1 {
            a.push(v[0]);
        }
        assert(a@ =~= v@);
        return a;
    }
    let half: usize = v.len() / 2;
    let mut i: usize = 0;
    while i < v.len()
        invariant
            i <= v.len(),
            half < v.len(),
            a@ =~= v@.subrange(0, if i < half { i as int } else { half as int }),
            b@ =~= v@.subrange(half as int, if i < half { half as int } else { i as int }),
        decreases v.len() - i,
    {
        if i < half {
            a.push(v[i]);
        } else {
            b.push(v[i]);
        }
        i = i + 1;
    }
    let x = sort_spans(&a);
    let y = sort_spans(&b);
    let r = merge_spans(&x, &y);
    proof {
        assert(v@ =~= a@ + b@);
        vstd::seq_lib::lemma_multiset_commutative(a@, b@);
    }
    r
}

// ------------------------------------------------------------------ the model

/// What keeps an entry from being audited, if anything does.
pub open spec fn entry_fault(entry: EntryView, len: u64) -> Option<Fault> {
    if entry.offset + entry.size > u64::MAX {
        Some(
            crate::fault::fault(
                "ASTRA_EMU_FVP_ENTRY_OVERFLOW",
                "FVP entry range overflowed during audit",
            ),
        )
    } else if entry.size == 0 || entry.offset + entry.size > len {
        Some(
            crate::fault::fault(
                "ASTRA_EMU_FVP_ENTRY_BOUNDS",
                "FVP entry is empty or outside its archive",
            ),
        )
    } else {
        None
    }
}

/// The first entry fault at or behind `from`.
pub open spec fn first_entry_fault(entries: Seq<EntryView>, len: u64, from: int) -> Option<Fault>
    decreases entries.len() - from,
{
    if from >= entries.len() {
        None
    } else {
        match entry_fault(entries[from], len) {
            Some(f) => Some(f),
            None => first_entry_fault(entries, len, from + 1),
        }
    }
}

pub open spec fn spans_meet(a: EntryView, b: EntryView) -> bool {
    a.offset < b.offset + b.size && b.offset < a.offset + a.size
}

/// Whether two entries share a byte.
pub open spec fn overlapping(entries: Seq<EntryView>) -> bool {
    exists|i: int, j: int| 0 <= i < j < entries.len() && spans_meet(#[trigger] entries[i], #[trigger] entries[j])
}

/// Whether and why an audit of `entries` cannot start.
pub open spec fn audit_refusal(archive: FvpArchive) -> Option<Fault> {
    if !(archive.storage is Source) {
        Some(
            crate::fault::fault(
                "ASTRA_EMU_FVP_SOURCE_MISSING",
                "mounted FVP archive source is unavailable",
            ),
        )
    } else {
        match first_entry_fault(archive.listing(), archive.stat_view().len, 0) {
            Some(f) => Some(f),
            None => if overlapping(archive.listing()) {
                Some(
                    crate::fault::fault(
                        "ASTRA_EMU_FVP_ENTRY_OVERLAP",
                        "FVP archive contains overlapping entry ranges",
                    ),
                )
            } else {
                None
            },
        }
    }
}

pub open spec fn clamp(x: int, hi: int) -> int {
    if x < hi {
        x
    } else {
        hi
    }
}

/// The part of `range` that lies inside `received`.
pub open spec fn arrived(received: Seq<u8>, range: ByteRange) -> Seq<u8> {
    received.subrange(
        clamp(range.offset as int, received.len() as int),
        clamp(range.offset + range.len, received.len() as int),
    )
}

/// The first bytes of `content`.
pub open spec fn magic_of(content: Seq<u8>) -> Seq<u8> {
    content.subrange(0, clamp(content.len() as int, MAGIC_BYTES as int))
}

/// What the audit says of one entry.
#[derive(Debug, Clone)]
pub struct EntryAudit {
    pub hash: Hash256,
    pub magic: Vec<u8>,
}

#[verifier::ext_equal]
pub struct EntryAuditView {
    pub hash: Seq<u8>,
    pub magic: Seq<u8>,
}

impl EntryAudit {
    pub open spec fn view(&self) -> EntryAuditView {
        EntryAuditView { hash: self.hash@, magic: self.magic@ }
    }
}

pub open spec fn audit_views(s: Seq<EntryAudit>) -> Seq<EntryAuditView> {
    Seq::new(s.len(), |i: int| s[i]@)
}

/// The audit of one entry with the given content.
pub open spec fn audit_of(content: Seq<u8>) -> EntryAuditView {
    EntryAuditView { hash: crate::digest::sha256_of(content), magic: magic_of(content) }
}

/// What has been taken in of one entry so far is described by its running digest,
/// its first bytes and its count.
pub open spec fn tracks(content: Seq<u8>, digest: RunningDigest, magic: Seq<u8>, observed: u64) -> bool {
    &&& crate::digest::absorbed(digest) == content
    &&& magic == magic_of(content)
    &&& observed == content.len()
}

/// The entry `i` has been taken in as far as it lies in `received`.
pub open spec fn tracked_entry(
    ranges: Seq<ByteRange>,
    digests: Seq<RunningDigest>,
    magic: Seq<Vec<u8>>,
    observed: Seq<u64>,
    i: int,
    received: Seq<u8>,
) -> bool {
    tracks(arrived(received, ranges[i]), digests[i], magic[i]@, observed[i])
}

/// An audit in progress.
pub struct ArchiveAudit {
    pub len: u64,
    pub max_range: u64,
    pub offset: u64,
    pub ranges: Vec<ByteRange>,
    pub spans: Vec<EntrySpan>,
    pub next_span: usize,
    pub source_digest: RunningDigest,
    pub entry_digests: Vec<RunningDigest>,
    pub entry_magic: Vec<Vec<u8>>,
    pub observed: Vec<u64>,
}

/// `spans` lists every range once, in order, and no two of them share a byte.
pub open spec fn spans_cover(spans: Seq<EntrySpan>, ranges: Seq<ByteRange>, len: u64) -> bool {
    &&& spans.len() == ranges.len()
    &&& forall|k: int|
        0 <= k < spans.len() ==> {
            let s = #[trigger] spans[k];
            &&& s.index < ranges.len()
            &&& s.start == ranges[s.index as int].offset
            &&& s.end == s.start + ranges[s.index as int].len
            &&& s.start < s.end <= len
        }
    &&& forall|i: int|
        0 <= i < ranges.len() ==> (exists|k: int| 0 <= k < spans.len() && (#[trigger] spans[k]).index == i)
            && #[trigger] ranges[i].offset + ranges[i].len <= len
    &&& forall|a: int, b: int|
        0 <= a < b < spans.len() ==> (#[trigger] spans[a]).end <= (#[trigger] spans[b]).start
            && spans[a].index != spans[b].index
}

impl ArchiveAudit {
    /// The bytes of the source that have been taken in.
    pub open spec fn received(&self) -> Seq<u8> {
        crate::digest::absorbed(self.source_digest)
    }

    pub open spec fn view(&self) -> ReadState {
        ReadState {
            bytes: self.received(),
            offset: self.offset,
            end: self.len,
            max_range: self.max_range,
        }
    }

    #[verifier::inline]
    pub open spec fn tracks_entry(&self, i: int, received: Seq<u8>) -> bool {
        tracked_entry(
            self.ranges@,
            self.entry_digests@,
            self.entry_magic@,
            self.observed@,
            i,
            received,
        )
    }

    pub open spec fn shape(&self) -> bool {
        &&& self.max_range > 0
        &&& self.offset <= self.len
        &&& self.ranges@.len() == self.entry_digests@.len()
        &&& self.ranges@.len() == self.entry_magic@.len()
        &&& self.ranges@.len() == self.observed@.len()
        &&& spans_cover(self.spans@, self.ranges@, self.len)
        &&& self.next_span <= self.spans@.len()
    }

    pub open spec fn wf(&self) -> bool {
        &&& self.shape()
        &&& self.received().len() == self.offset
        &&& forall|i: int| 0 <= i < self.ranges@.len() ==> #[trigger] self.tracks_entry(i, self.received())
        &&& forall|k: int| 0 <= k < self.next_span ==> (#[trigger] self.spans@[k]).end <= self.offset
        &&& forall|k: int|
            self.next_span < k < self.spans@.len() ==> (#[trigger] self.spans@[k]).start >= self.offset
    }

    /// The range to fetch next; `None` when the whole source has been taken in.
    pub fn request(&self) -> (r: Option<ByteRange>)
        requires
            self.wf(),
        ensures
            r == self@.request(),
    {
        if self.offset < self.len {
            let rest: u64 = self.len - self.offset;
            Some(
                ByteRange {
                    offset: self.offset,
                    len: if rest < self.max_range {
                        rest
                    } else {
                        self.max_range
                    },
                },
            )
        } else {
            None
        }
    }

    /// Takes in the part of `reply` that belongs to the span `k`; the reply covers
    /// the source from `self.offset` on.
    fn take_span(&mut self, k: usize, reply: &[u8], chunk_end: u64, received: Ghost<Seq<u8>>)
        requires
            old(self).shape(),
            k < old(self).spans@.len(),
            old(self).offset < chunk_end <= old(self).len,
            reply@.len() == chunk_end - old(self).offset,
            received@.len() == old(self).offset,
            old(self).spans@[k as int].start < chunk_end,
            old(self).spans@[k as int].end > old(self).offset,
            old(self).tracks_entry(old(self).spans@[k as int].index as int, received@),
        ensures
            final(self).shape(),
            final(self).len == old(self).len,
            final(self).max_range == old(self).max_range,
            final(self).offset == old(self).offset,
            final(self).ranges == old(self).ranges,
            final(self).spans == old(self).spans,
            final(self).next_span == old(self).next_span,
            final(self).source_digest == old(self).source_digest,
            final(self).tracks_entry(old(self).spans@[k as int].index as int, received@ + reply@),
            forall|i: int, data: Seq<u8>|
                0 <= i < old(self).ranges@.len() && i != old(self).spans@[k as int].index
                    ==> #[trigger] final(self).tracks_entry(i, data) == old(self).tracks_entry(i, data),
    {
        let span = self.spans[k];
        let total: usize = reply.len();
        assert(total == chunk_end - self.offset);
        let from: u64 = if span.start > self.offset {
            span.start
        } else {
            self.offset
        };
        let to: u64 = if span.end < chunk_end {
            span.end
        } else {
            chunk_end
        };
        let local_start: usize = (from - self.offset) as usize;
        let local_end: usize = (to - self.offset) as usize;
        let part = vstd::slice::slice_subrange(reply, local_start, local_end);
        let i: usize = span.index;
        let ghost before = arrived(received@, self.ranges@[i as int]);
        let ghost after = arrived(received@ + reply@, self.ranges@[i as int]);
        assert(after =~= before + part@);
        self.entry_digests[i].update(part);
        let seen: u64 = self.observed[i];
        assert(after.len() <= self.len);
        self.observed.set(i, seen + part.len() as u64);
        let have: usize = self.entry_magic[i].len();
        if have < MAGIC_BYTES {
            let needed: usize = MAGIC_BYTES - have;
            let count: usize = if part.len() < needed {
                part.len()
            } else {
                needed
            };
            let head = vstd::slice::slice_subrange(part, 0, count);
            assert(before.len() < MAGIC_BYTES);
            assert(magic_of(before) =~= before);
            assert(magic_of(after) =~= before + head@);
            self.entry_magic[i].extend_from_slice(head);
        } else {
            assert(magic_of(after) =~= magic_of(before));
        }
        assert(crate::digest::absorbed(self.entry_digests@[i as int]) == after);
        assert(self.entry_magic@[i as int]@ == magic_of(after));
        assert(self.observed@[i as int] == after.len());
        assert(self.tracks_entry(i as int, received@ + reply@));
    }

    /// Takes in the reply to the current request, which has the requested length.
    #[verifier::rlimit(60)]
    pub fn accept(&mut self, reply: &[u8])
        requires
            old(self).wf(),
            old(self)@.request() is Some,
            reply@.len() == old(self)@.request()->0.len,
        ensures
            final(self).wf(),
            final(self)@ == old(self)@.after(reply@),
            final(self).ranges == old(self).ranges,
    {
        let chunk_end: u64 = self.offset + reply.len() as u64;
        let ghost received = self.received();
        let ghost more = received + reply@;
        self.source_digest.update(reply);
        while self.next_span < self.spans.len() && self.spans[self.next_span].end <= self.offset
            invariant
                self.shape(),
                self.received() == more,
                self.len == old(self).len,
                self.max_range == old(self).max_range,
                self.offset == old(self).offset,
                self.ranges == old(self).ranges,
                received.len() == self.offset,
                forall|i: int| 0 <= i < self.ranges@.len() ==> #[trigger] self.tracks_entry(i, received),
                forall|k: int| 0 <= k < self.next_span ==> (#[trigger] self.spans@[k]).end <= self.offset,
                forall|k: int|
                    self.next_span < k < self.spans@.len() ==> (#[trigger] self.spans@[k]).start
                        >= self.offset,
            decreases self.spans@.len() - self.next_span,
        {
            self.next_span = self.next_span + 1;
        }
        let mut candidate: usize = self.next_span;
        let mut straddles = false;
        proof {
            assert forall|k: int| self.next_span <= k < self.spans@.len() implies (
            #[trigger] self.spans@[k]).end > self.offset by {
                if k > self.next_span {
                    assert(self.spans@[self.next_span as int].end <= self.spans@[k].start);
                }
            }
        }
        while candidate < self.spans.len() && !straddles && self.spans[candidate].start < chunk_end
            invariant
                self.shape(),
                self.received() == more,
                more == received + reply@,
                self.len == old(self).len,
                self.max_range == old(self).max_range,
                self.offset == old(self).offset,
                self.ranges == old(self).ranges,
                received.len() == self.offset,
                chunk_end == self.offset + reply@.len(),
                self.offset < chunk_end <= self.len,
                self.next_span <= candidate <= self.spans@.len(),
                straddles ==> candidate < self.spans@.len() && self.spans@[candidate as int].end
                    > chunk_end,
                forall|k: int|
                    self.next_span <= k < self.spans@.len() ==> (#[trigger] self.spans@[k]).end
                        > self.offset,
                forall|k: int| 0 <= k < self.next_span ==> (#[trigger] self.spans@[k]).end <= self.offset,
                forall|k: int|
                    self.next_span <= k < candidate ==> (#[trigger] self.spans@[k]).end <= chunk_end,
                forall|k: int|
                    0 <= k < self.spans@.len() ==> {
                        let s = #[trigger] self.spans@[k];
                        if self.next_span <= k < candidate || (k == candidate && straddles) {
                            self.tracks_entry(s.index as int, more)
                        } else {
                            self.tracks_entry(s.index as int, received)
                        }
                    },
            decreases
                    self.spans@.len() - candidate + if straddles {
                        0int
                    } else {
                        1int
                    },
        {
            let ghost prior = *self;
            self.take_span(candidate, reply, chunk_end, Ghost(received));
            let ghost k0 = candidate as int;
            if self.spans[candidate].end <= chunk_end {
                candidate = candidate + 1;
            } else {
                straddles = true;
            }
            proof {
                assert forall|k: int| 0 <= k < self.spans@.len() implies {
                    let s = #[trigger] self.spans@[k];
                    if self.next_span <= k < candidate || (k == candidate && straddles) {
                        self.tracks_entry(s.index as int, more)
                    } else {
                        self.tracks_entry(s.index as int, received)
                    }
                } by {
                    let s = self.spans@[k];
                    assert(s == prior.spans@[k]);
                    if k != k0 {
                        assert(s.index != self.spans@[k0].index) by {
                            if k < k0 {
                                assert(self.spans@[k].index != self.spans@[k0].index);
                            } else {
                                assert(self.spans@[k0].index != self.spans@[k].index);
                            }
                        }
                        assert(self.tracks_entry(s.index as int, received) == prior.tracks_entry(
                            s.index as int,
                            received,
                        ));
                        assert(self.tracks_entry(s.index as int, more) == prior.tracks_entry(
                            s.index as int,
                            more,
                        ));
                    }
                }
            }
        }
        let ghost first = self.next_span as int;
        self.next_span = candidate;
        self.offset = chunk_end;
        proof {
            assert forall|k: int| candidate < k < self.spans@.len() implies (#[trigger] self.spans@[k]).start
                >= chunk_end by {
                if straddles {
                    assert(self.spans@[candidate as int].end <= self.spans@[k].start);
                } else {
                    assert(self.spans@[candidate as int].start >= chunk_end);
                    assert(self.spans@[candidate as int].end <= self.spans@[k].start);
                }
            }
            assert forall|i: int| 0 <= i < self.ranges@.len() implies #[trigger] self.tracks_entry(
                i,
                more,
            ) by {
                assert(self.ranges@[i].offset + self.ranges@[i].len <= self.len);
                let k = choose|k: int| 0 <= k < self.spans@.len() && (#[trigger] self.spans@[k]).index == i;
                let s = self.spans@[k];
                if k < first || k > candidate || (k == candidate && !straddles) {
                    assert(arrived(more, self.ranges@[i]) =~= arrived(received, self.ranges@[i]));
                    assert(self.tracks_entry(i, received));
                }
            }
            assert(self@ =~= old(self)@.after(reply@));
        }
    }

    /// The digest of the source and the audits of its entries, once every entry
    /// has been seen whole.
    pub fn finish(self) -> (r: Result<(Hash256, Vec<EntryAudit>), LegacyCoreError>)
        requires
            self.wf(),
        ensures
            match r {
                Ok(audit) => {
                    &&& forall|i: int|
                        0 <= i < self.ranges@.len() ==> #[trigger] self.ranges@[i].offset
                            + self.ranges@[i].len <= self.offset
                    &&& audit.0@ == crate::digest::sha256_of(self.received())
                    &&& audit_views(audit.1@) == Seq::new(
                        self.ranges@.len(),
                        |i: int| audit_of(arrived(self.received(), self.ranges@[i])),
                    )
                },
                Err(e) => {
                    &&& exists|i: int|
                        0 <= i < self.ranges@.len() && #[trigger] self.ranges@[i].offset
                            + self.ranges@[i].len > self.offset
                    &&& e@ == crate::fault::fault(
                        "ASTRA_EMU_FVP_ENTRY_SHORT_READ",
                        "FVP archive audit did not observe an entire entry",
                    )
                },
            },
    {
        let ghost received = self.received();
        let mut i: usize = 0;
        while i < self.ranges.len()
            invariant
                self.wf(),
                i <= self.ranges@.len(),
                received == self.received(),
                forall|j: int|
                    0 <= j < i ==> #[trigger] self.ranges@[j].offset + self.ranges@[j].len <= self.offset,
            decreases self.ranges@.len() - i,
        {
            assert(self.tracks_entry(i as int, received));
            proof {
                let k = choose|k: int| 0 <= k < self.spans@.len() && (#[trigger] self.spans@[k]).index == i;
                assert(self.spans@[k].start < self.spans@[k].end);
                assert(self.ranges@[i as int].offset + self.ranges@[i as int].len <= self.len);
            }
            if self.ranges[i].len != self.observed[i] {
                assert(self.ranges@[i as int].offset + self.ranges@[i as int].len > self.offset);
                return Err(
                    LegacyCoreError::invalid(
                        "ASTRA_EMU_FVP_ENTRY_SHORT_READ",
                        "FVP archive audit did not observe an entire entry",
                    ),
                );
            }
            i = i + 1;
        }
        let ghost expected = Seq::new(
            self.ranges@.len(),
            |i: int| audit_of(arrived(self.received(), self.ranges@[i])),
        );
        assert forall|j: int| 0 <= j < self.ranges@.len() implies tracks(
            #[trigger] arrived(received, self.ranges@[j]),
            self.entry_digests@[j],
            self.entry_magic@[j]@,
            self.observed@[j],
        ) by {
            assert(self.tracks_entry(j, received));
        }
        let ghost digests = self.entry_digests@;
        let ghost magics = self.entry_magic@;
        let ghost ranges = self.ranges@;
        let ghost counts = self.observed@;
        let hash = Hash256::from_bytes(self.source_digest.finalize());
        let audits = Self::finalize_entries(self.entry_digests, self.entry_magic);
        assert(audit_views(audits@) =~= expected) by {
            assert forall|j: int| 0 <= j < ranges.len() implies #[trigger] audit_views(audits@)[j]
                == expected[j] by {
                assert(tracks(arrived(received, ranges[j]), digests[j], magics[j]@, counts[j]));
                assert(audits@[j]@ =~= expected[j]);
            }
        }
        Ok((hash, audits))
    }

    fn finalize_entries(mut digests: Vec<RunningDigest>, mut magics: Vec<Vec<u8>>) -> (r: Vec<EntryAudit>)
        requires
            digests@.len() == magics@.len(),
        ensures
            r@.len() == digests@.len(),
            forall|i: int|
                0 <= i < r@.len() ==> (#[trigger] r@[i])@.hash == crate::digest::sha256_of(
                    crate::digest::absorbed(digests@[i]),
                ) && r@[i]@.magic == magics@[i]@,
    {
        let ghost all = digests@;
        let ghost tops = magics@;
        let ghost n = all.len() as int;
        let mut back: Vec<EntryAudit> = Vec::new();
        while digests.len() > 0
            invariant
                all.len() == n,
                tops.len() == n,
                digests@.len() == magics@.len(),
                digests@.len() + back@.len() == n,
                digests@ == all.subrange(0, digests@.len() as int),
                magics@ == tops.subrange(0, digests@.len() as int),
                forall|i: int|
                    0 <= i < back@.len() ==> (#[trigger] back@[i])@.hash == crate::digest::sha256_of(
                        crate::digest::absorbed(all[n - 1 - i]),
                    ) && back@[i]@.magic == tops[n - 1 - i]@,
            decreases digests@.len(),
        {
            match (digests.pop(), magics.pop()) {
                (Some(digest), Some(magic)) => {
                    assert(digest == all[n - 1 - back@.len()]);
                    assert(magic == tops[n - 1 - back@.len()]);
                    let hash = Hash256::from_bytes(digest.finalize());
                    back.push(EntryAudit { hash, magic });
                },
                _ => {},
            }
            assert(digests@ =~= all.subrange(0, digests@.len() as int));
            assert(magics@ =~= tops.subrange(0, digests@.len() as int));
        }
        let mut r: Vec<EntryAudit> = Vec::new();
        while back.len() > 0
            invariant
                all.len() == n,
                tops.len() == n,
                r@.len() + back@.len() == n,
                forall|i: int|
                    0 <= i < back@.len() ==> (#[trigger] back@[i])@.hash == crate::digest::sha256_of(
                        crate::digest::absorbed(all[n - 1 - i]),
                    ) && back@[i]@.magic == tops[n - 1 - i]@,
                forall|i: int|
                    0 <= i < r@.len() ==> (#[trigger] r@[i])@.hash == crate::digest::sha256_of(
                        crate::digest::absorbed(all[i]),
                    ) && r@[i]@.magic == tops[i]@,
            decreases back@.len(),
        {
            match back.pop() {
                Some(audit) => {
                    r.push(audit);
                },
                None => {},
            }
        }
        r
    }
}

/// The ranges of the entries, in their order.
pub open spec fn entry_ranges(entries: Seq<EntryView>) -> Seq<ByteRange> {
    Seq::new(entries.len(), |i: int| ByteRange { offset: entries[i].offset, len: entries[i].size })
}

/// Each entry's span, in the order of the entries.
spec fn spans_of(entries: Seq<EntryView>) -> Seq<EntrySpan> {
    Seq::new(
        entries.len(),
        |i: int|
            EntrySpan {
                start: entries[i].offset,
                end: (entries[i].offset + entries[i].size) as u64,
                index: i as usize,
            },
    )
}

fn collect_spans(entries: &Vec<FvpArchiveEntry>, len: u64) -> (r: Result<
    (Vec<EntrySpan>, Vec<ByteRange>),
    LegacyCoreError,
>)
    ensures
        match r {
            Ok(v) => {
                &&& first_entry_fault(crate::archive::entry_views(entries@), len, 0) is None
                &&& v.0@ == spans_of(crate::archive::entry_views(entries@))
                &&& v.1@ == entry_ranges(crate::archive::entry_views(entries@))
                &&& forall|i: int|
                    0 <= i < entries@.len() ==> entry_fault(
                        #[trigger] crate::archive::entry_views(entries@)[i],
                        len,
                    ) is None
            },
            Err(e) => first_entry_fault(crate::archive::entry_views(entries@), len, 0) == Some(e@),
        },
{
    let ghost views = crate::archive::entry_views(entries@);
    let mut spans: Vec<EntrySpan> = Vec::new();
    let mut ranges: Vec<ByteRange> = Vec::new();
    let mut i: usize = 0;
    while i < entries.len()
        invariant
            i <= entries@.len(),
            views == crate::archive::entry_views(entries@),
            first_entry_fault(views, len, 0) == first_entry_fault(views, len, i as int),
            spans@ =~= spans_of(views).subrange(0, i as int),
            ranges@ =~= entry_ranges(views).subrange(0, i as int),
            forall|j: int| 0 <= j < i ==> entry_fault(#[trigger] views[j], len) is None,
        decreases entries@.len() - i,
    {
        let entry = &entries[i];
        assert(views[i as int] == entry@);
        let end: u64 = match entry.offset.checked_add(entry.size) {
            Some(v) => v,
            None => return Err(
                LegacyCoreError::invalid(
                    "ASTRA_EMU_FVP_ENTRY_OVERFLOW",
                    "FVP entry range overflowed during audit",
                ),
            ),
        };
        if entry.size == 0 || end > len {
            return Err(
                LegacyCoreError::invalid(
                    "ASTRA_EMU_FVP_ENTRY_BOUNDS",
                    "FVP entry is empty or outside its archive",
                ),
            );
        }
        spans.push(EntrySpan { start: entry.offset, end, index: i });
        ranges.push(ByteRange { offset: entry.offset, len: entry.size });
        i = i + 1;
    }
    assert(spans@ =~= spans_of(views));
    assert(ranges@ =~= entry_ranges(views));
    Ok((spans, ranges))
}

/// Whether the entry `i` has a span in the list.
spec fn lists(spans: Seq<EntrySpan>, i: int) -> bool {
    exists|k: int| 0 <= k < spans.len() && (#[trigger] spans[k]).index == i
}

/// A sorted arrangement of the spans of `entries` lists every entry once.
proof fn lemma_arrangement(entries: Seq<EntryView>, sorted: Seq<EntrySpan>)
    requires
        entries.len() <= usize::MAX,
        sorted.to_multiset() == spans_of(entries).to_multiset(),
    ensures
        sorted.len() == entries.len(),
        forall|k: int|
            0 <= k < sorted.len() ==> (#[trigger] sorted[k]).index < entries.len() && sorted[k]
                == spans_of(entries)[sorted[k].index as int],
        forall|i: int| 0 <= i < entries.len() ==> #[trigger] lists(sorted, i),
        forall|a: int, b: int|
            0 <= a < b < sorted.len() ==> (#[trigger] sorted[a]).index != (#[trigger] sorted[b]).index,
{
    broadcast use vstd::seq_lib::group_to_multiset_ensures;

    let spans = spans_of(entries);
    assert(sorted.to_multiset().len() == sorted.len());
    assert(spans.to_multiset().len() == spans.len());
    assert forall|k: int| 0 <= k < sorted.len() implies (#[trigger] sorted[k]).index < entries.len()
        && sorted[k] == spans[sorted[k].index as int] by {
        assert(sorted.contains(sorted[k]));
        assert(sorted.to_multiset().contains(sorted[k]));
        assert(spans.to_multiset().contains(sorted[k]));
        assert(spans.contains(sorted[k]));
        let i = choose|i: int| 0 <= i < spans.len() && spans[i] == sorted[k];
        assert(spans[i].index == i);
    }
    assert forall|i: int| 0 <= i < entries.len() implies #[trigger] lists(sorted, i) by {
        assert(spans.contains(spans[i]));
        assert(spans.to_multiset().contains(spans[i]));
        assert(sorted.to_multiset().contains(spans[i]));
        assert(sorted.contains(spans[i]));
        let k = choose|k: int| 0 <= k < sorted.len() && sorted[k] == spans[i];
        assert(sorted[k].index == i);
    }
    assert(spans.no_duplicates()) by {
        assert forall|i: int, j: int| 0 <= i < spans.len() && 0 <= j < spans.len() && i != j implies spans[i]
            != spans[j] by {
            assert(spans[i].index == i && spans[j].index == j);
        }
    }
    spans.lemma_multiset_has_no_duplicates();
    assert forall|x: EntrySpan| sorted.to_multiset().contains(x) implies #[trigger] sorted.to_multiset().count(
        x,
    ) == 1 by {
        assert(spans.to_multiset().contains(x));
    }
    sorted.lemma_multiset_has_no_duplicates_conv();
    assert forall|a: int, b: int| 0 <= a < b < sorted.len() implies (#[trigger] sorted[a]).index != (
    #[trigger] sorted[b]).index by {
        if sorted[a].index == sorted[b].index {
            assert(sorted[a] == spans[sorted[a].index as int]);
            assert(sorted[b] == spans[sorted[b].index as int]);
            assert(sorted[a] == sorted[b]);
        }
    }
}

/// Starts the audit of an archive that has a byte source. Every entry has to be
/// non-empty and inside the archive, and no two entries may share a byte.
pub fn audit_archive(archive: &FvpArchive, max_range: u64) -> (r: Result<ArchiveAudit, LegacyCoreError>)
    requires
        max_range > 0,
    ensures
        match r {
            Ok(audit) => {
                &&& audit_refusal(*archive) is None
                &&& audit.wf()
                &&& audit.ranges@ == entry_ranges(archive.listing())
                &&& audit@ == crate::source::fresh_read(
                    ByteRange { offset: 0, len: archive.stat_view().len },
                    max_range,
                )
            },
            Err(e) => audit_refusal(*archive) == Some(e@),
        },
{
    let len: u64 = match &archive.storage {
        ArchiveStorage::Source { stat } => stat.len,
        _ => return Err(
            LegacyCoreError::invalid(
                "ASTRA_EMU_FVP_SOURCE_MISSING",
                "mounted FVP archive source is unavailable",
            ),
        ),
    };
    let (unordered, ranges): (Vec<EntrySpan>, Vec<ByteRange>) = match collect_spans(
        &archive.entries,
        len,
    ) {
        Ok(v) => v,
        Err(e) => return Err(e),
    };
    let ghost views = archive.listing();
    let count: usize = archive.entries.len();
    let spans = sort_spans(&unordered);
    proof {
        lemma_arrangement(views, spans@);
    }
    let mut i: usize = 1;
    while i < spans.len()
        invariant
            1 <= i,
            views == archive.listing(),
            spans_sorted(spans@),
            spans@.len() == views.len(),
            forall|k: int| 0 <= k < views.len() ==> entry_fault(#[trigger] views[k], len) is None,
            forall|k: int|
                0 <= k < spans@.len() ==> (#[trigger] spans@[k]).index < views.len() && spans@[k]
                    == spans_of(views)[spans@[k].index as int],
            forall|a: int, b: int|
                0 <= a < b < spans@.len() ==> (#[trigger] spans@[a]).index != (
                #[trigger] spans@[b]).index,
            i <= spans@.len() || spans@.len() == 0,
            forall|a: int, b: int|
                0 <= a < b < i && b < spans@.len() ==> (#[trigger] spans@[a]).end <= (
                #[trigger] spans@[b]).start,
            archive.storage is Source,
            len == archive.stat_view().len,
            first_entry_fault(views, len, 0) is None,
        decreases spans@.len() - i,
    {
        assert(span_le(spans@[i - 1], spans@[i as int]));
        if spans[i].start < spans[i - 1].end {
            proof {
                let x = spans@[i - 1].index as int;
                let y = spans@[i as int].index as int;
                assert(entry_fault(views[x], len) is None);
                assert(entry_fault(views[y], len) is None);
                assert(x != y);
                assert(spans_meet(views[x], views[y]) && spans_meet(views[y], views[x]));
                if x < y {
                    assert(overlapping(views));
                } else {
                    assert(overlapping(views));
                }
            }
            return Err(
                LegacyCoreError::invalid(
                    "ASTRA_EMU_FVP_ENTRY_OVERLAP",
                    "FVP archive contains overlapping entry ranges",
                ),
            );
        }
        assert forall|a: int, b: int| 0 <= a < b < i + 1 && b < spans@.len() implies (
        #[trigger] spans@[a]).end <= (#[trigger] spans@[b]).start by {
            if b == i && a < i - 1 {
                let z = spans@[i - 1].index as int;
                assert(entry_fault(views[z], len) is None);
                assert(spans@[a].end <= spans@[i - 1].start);
            }
        }
        i = i + 1;
    }
    proof {
        if overlapping(views) {
            let (x, y) = choose|x: int, y: int|
                0 <= x < y < views.len() && spans_meet(#[trigger] views[x], #[trigger] views[y]);
            assert(lists(spans@, x) && lists(spans@, y));
            let a = choose|a: int| 0 <= a < spans@.len() && (#[trigger] spans@[a]).index == x;
            let b = choose|b: int| 0 <= b < spans@.len() && (#[trigger] spans@[b]).index == y;
            assert(entry_fault(views[x], len) is None);
            assert(entry_fault(views[y], len) is None);
            assert(a != b);
            if a < b {
                assert(spans@[a].end <= spans@[b].start);
            } else {
                assert(spans@[b].end <= spans@[a].start);
            }
            assert(false);
        }
        assert forall|k: int| 0 <= k < spans@.len() implies {
            let s = #[trigger] spans@[k];
            &&& s.index < ranges@.len()
            &&& s.start == ranges@[s.index as int].offset
            &&& s.end == s.start + ranges@[s.index as int].len
            &&& s.start < s.end <= len
        } by {
            let z = spans@[k].index as int;
            assert(entry_fault(views[z], len) is None);
        }
        assert forall|z: int| 0 <= z < ranges@.len() implies (exists|k: int|
            0 <= k < spans@.len() && (#[trigger] spans@[k]).index == z) && #[trigger] ranges@[z].offset
            + ranges@[z].len <= len by {
            assert(entry_fault(views[z], len) is None);
            assert(lists(spans@, z));
        }
        assert(spans_cover(spans@, ranges@, len));
    }
    let mut entry_digests: Vec<RunningDigest> = Vec::new();
    let mut entry_magic: Vec<Vec<u8>> = Vec::new();
    let mut observed: Vec<u64> = Vec::new();
    while entry_digests.len() < count
        invariant
            entry_digests@.len() <= count,
            entry_magic@.len() == entry_digests@.len(),
            observed@.len() == entry_digests@.len(),
            forall|k: int|
                0 <= k < entry_digests@.len() ==> tracks(
                    Seq::empty(),
                    #[trigger] entry_digests@[k],
                    entry_magic@[k]@,
                    observed@[k],
                ),
        decreases count - entry_digests@.len(),
    {
        let magic: Vec<u8> = Vec::new();
        assert(magic@ =~= magic_of(Seq::empty()));
        entry_digests.push(RunningDigest::new());
        entry_magic.push(magic);
        observed.push(0);
    }
    let audit = ArchiveAudit {
        len,
        max_range,
        offset: 0,
        ranges,
        spans,
        next_span: 0,
        source_digest: RunningDigest::new(),
        entry_digests,
        entry_magic,
        observed,
    };
    proof {
        assert forall|k: int| 0 <= k < audit.ranges@.len() implies #[trigger] audit.tracks_entry(
            k,
            audit.received(),
        ) by {
            assert(tracks(
                Seq::empty(),
                audit.entry_digests@[k],
                audit.entry_magic@[k]@,
                audit.observed@[k],
            ));
            assert(arrived(audit.received(), audit.ranges@[k]) =~= Seq::<u8>::empty());
        }
        assert(audit@ =~= crate::source::fresh_read(
            ByteRange { offset: 0, len: archive.stat_view().len },
            max_range,
        ));
    }
    Ok(audit)
}

// ----------------------------------------------------------------------- laws

/// An audit that a source answers truthfully digests the whole file, and each
/// entry as far as it lies in the file is audited on exactly its bytes.
pub proof fn law_audit_sees_every_byte(data: Seq<u8>, archive: FvpArchive, max_range: u64)
    requires
        max_range > 0,
        archive.stat_view().len == data.len(),
        data.len() <= usize::MAX,
        audit_refusal(archive) is None,
    ensures
        ({
            let start = crate::source::fresh_read(
                ByteRange { offset: 0, len: archive.stat_view().len },
                max_range,
            );
            &&& start.outcome(data) == data
            &&& forall|i: int|
                0 <= i < archive.listing().len() ==> arrived(
                    start.outcome(data),
                    #[trigger] entry_ranges(archive.listing())[i],
                ) == data.subrange(
                    archive.listing()[i].offset as int,
                    archive.listing()[i].offset + archive.listing()[i].size,
                )
        }),
{
    let stat = archive.stat_view();
    crate::source::law_bounded_read_is_exact(
        data,
        stat,
        ByteRange { offset: 0, len: stat.len },
        max_range,
    );
    assert(data.subrange(0, data.len() as int) =~= data);
    assert forall|i: int| 0 <= i < archive.listing().len() implies arrived(
        data,
        #[trigger] entry_ranges(archive.listing())[i],
    ) == data.subrange(
        archive.listing()[i].offset as int,
        archive.listing()[i].offset + archive.listing()[i].size,
    ) by {
        lemma_no_fault(archive.listing(), stat.len, 0, i);
    }
}

proof fn lemma_no_fault(entries: Seq<EntryView>, len: u64, from: int, i: int)
    requires
        0 <= from <= i < entries.len(),
        first_entry_fault(entries, len, from) is None,
    ensures
        entry_fault(entries[i], len) is None,
    decreases i - from,
{
    if from < i {
        lemma_no_fault(entries, len, from + 1, i);
    }
}

/// An audit starts if and only if the archive is read through the host, every entry has bytes
/// and lies in the archive, and no two entries share a byte.
pub proof fn law_audit_needs_sound_entries(archive: FvpArchive)
    ensures
        audit_refusal(archive) is None <==> {
            let entries = archive.listing();
            &&& archive.storage is Source
            &&& forall|i: int|
                0 <= i < entries.len() ==> 0 < (#[trigger] entries[i]).size && entries[i].offset
                    + entries[i].size <= archive.stat_view().len
            &&& forall|i: int, j: int, at: int|
                0 <= i < j < entries.len() ==> !(#[trigger] lies_in(at, entries[i])
                    && #[trigger] lies_in(at, entries[j]))
        },
{
    let entries = archive.listing();
    let len = archive.stat_view().len;
    if first_entry_fault(entries, len, 0) is None {
        assert forall|i: int| 0 <= i < entries.len() implies 0 < (#[trigger] entries[i]).size
            && entries[i].offset + entries[i].size <= len by {
            lemma_no_fault(entries, len, 0, i);
        }
        assert forall|i: int, j: int|
            0 <= i < j < entries.len() && spans_meet(
                #[trigger] entries[i],
                #[trigger] entries[j],
            ) implies exists|at: int| #[trigger]
            lies_in(at, entries[i]) && #[trigger] lies_in(at, entries[j]) by {
            let at = if entries[i].offset < entries[j].offset {
                entries[j].offset as int
            } else {
                entries[i].offset as int
            };
            assert(lies_in(at, entries[i]) && lies_in(at, entries[j]));
        }
        assert forall|i: int, j: int, at: int|
            0 <= i < j < entries.len() && #[trigger] lies_in(at, entries[i])
                && #[trigger] lies_in(at, entries[j]) implies spans_meet(entries[i], entries[j]) by {}
    } else {
        lemma_some_fault(entries, len, 0);
    }
}

/// Whether the byte at a place belongs to an entry.
pub open spec fn lies_in(at: int, entry: EntryView) -> bool {
    entry.offset <= at < entry.offset + entry.size
}

proof fn lemma_some_fault(entries: Seq<EntryView>, len: u64, from: int)
    requires
        0 <= from <= entries.len(),
        first_entry_fault(entries, len, from) is Some,
    ensures
        exists|i: int|
            from <= i < entries.len() && !(0 < (#[trigger] entries[i]).size && entries[i].offset
                + entries[i].size <= len),
    decreases entries.len() - from,
{
    if entry_fault(entries[from], len) is None {
        lemma_some_fault(entries, len, from + 1);
    } else {
        assert(!(0 < entries[from].size && entries[from].offset + entries[from].size <= len));
    }
}

/// An audit of an entry keeps the digest of its content and its first bytes, all of them where
/// it has fewer than are kept.
pub proof fn law_audit_keeps_digest_and_first_bytes(content: Seq<u8>)
    ensures
        audit_of(content).hash == crate::digest::sha256_of(content),
        content.len() <= 16 ==> audit_of(content).magic == content,
        content.len() > 16 ==> audit_of(content).magic == content.take(16),
        crate::archive::media_kind(audit_of(content).magic) == crate::archive::media_kind(content),
{
    let magic = magic_of(content);
    assert(content.subrange(0, content.len() as int) =~= content);
    if content.len() >= 4 {
        assert(magic.subrange(0, 4) =~= content.subrange(0, 4));
    }
}

}
