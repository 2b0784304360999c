//! Little-endian fields of byte sequences.

use vstd::prelude::*;

verus! {

/// The 16-bit little-endian number at `at`.
pub open spec fn u16_at(bytes: Seq<u8>, at: int) -> u16 {
    (bytes[at] + 0x100 * bytes[at + 1]) as u16
}

/// The 32-bit little-endian number at `at`.
pub open spec fn u32_at(bytes: Seq<u8>, at: int) -> u32 {
    (bytes[at] + 0x100 * bytes[at + 1] + 0x1_0000 * bytes[at + 2] + 0x100_0000 * bytes[at + 3]) as u32
}

pub fn read_u16(bytes: &[u8], at: usize) -> (r: u16)
    requires
        at + 2 <= bytes.len(),
    ensures
        r == u16_at(bytes@, at as int),
{
    (bytes[at] as u16) + 0x100 * (bytes[at + 1] as u16)
}

pub fn read_u32(bytes: &[u8], at: usize) -> (r: u32)
    requires
        at + 4 <= bytes.len(),
    ensures
        r == u32_at(bytes@, at as int),
{
    (bytes[at] as u32) + 0x100 * (bytes[at + 1] as u32) + 0x1_0000 * (bytes[at + 2] as u32) + 0x100_0000
        * (bytes[at + 3] as u32)
}

/// A copy of `bytes[from..to]`.
pub fn copy_range(bytes: &[u8], from: usize, to: usize) -> (r: Vec<u8>)
    requires
        from <= to <= bytes.len(),
    ensures
        r@ == bytes@.subrange(from as int, to as int),
{
    let mut r: Vec<u8> = Vec::new();
    r.extend_from_slice(vstd::slice::slice_subrange(bytes, from, to));
    assert(r@ =~= bytes@.subrange(from as int, to as int));
    r
}

/// Whether two byte slices are equal.
pub fn same_bytes(a: &[u8], b: &[u8]) -> (r: bool)
    ensures
        r == (a@ == b@),
{
    if a.len() != b.len() {
        return false;
    }
    let mut i: usize = 0;
    while i < a.len()
        invariant
            i <= a.len() == b.len(),
            forall|j: int| 0 <= j < i ==> a@[j] == b@[j],
        decreases a.len() - i,
    {
        if a[i] != b[i] {
            return false;
        }
        i = i + 1;
    }
    assert(a@ =~= b@);
    true
}

// ----------------------------------------------------------------------- laws

/// A 16-bit number as it is written, the low byte first.
pub open spec fn le16(n: u16) -> Seq<u8> {
    seq![(n % 0x100) as u8, (n / 0x100) as u8]
}

/// A 32-bit number as it is written, the low byte first.
pub open spec fn le32(n: u32) -> Seq<u8> {
    seq![
        (n % 0x100) as u8,
        (n / 0x100 % 0x100) as u8,
        (n / 0x1_0000 % 0x100) as u8,
        (n / 0x100_0000) as u8,
    ]
}

/// A number that is written somewhere is read there.
pub proof fn law_written_numbers_are_read(before: Seq<u8>, n: u16, m: u32, after: Seq<u8>)
    ensures
        u16_at(before + le16(n) + after, before.len() as int) == n,
        u32_at(before + le32(m) + after, before.len() as int) == m,
{
    let a = before + le16(n) + after;
    let b = before + le32(m) + after;
    let at = before.len() as int;
    assert(a[at] == le16(n)[0] && a[at + 1] == le16(n)[1]);
    assert(b[at] == le32(m)[0] && b[at + 1] == le32(m)[1] && b[at + 2] == le32(m)[2] && b[at + 3]
        == le32(m)[3]);
}

/// A number that stands at `at` is read there.
pub proof fn lemma_read_at(bytes: Seq<u8>, at: int, n: u16, m: u32)
    requires
        0 <= at,
    ensures
        at + 2 <= bytes.len() && bytes.subrange(at, at + 2) == le16(n) ==> u16_at(bytes, at) == n,
        at + 4 <= bytes.len() && bytes.subrange(at, at + 4) == le32(m) ==> u32_at(bytes, at) == m,
{
    if at + 2 <= bytes.len() && bytes.subrange(at, at + 2) == le16(n) {
        assert(bytes[at] == bytes.subrange(at, at + 2)[0]);
        assert(bytes[at + 1] == bytes.subrange(at, at + 2)[1]);
    }
    if at + 4 <= bytes.len() && bytes.subrange(at, at + 4) == le32(m) {
        assert(bytes[at] == bytes.subrange(at, at + 4)[0]);
        assert(bytes[at + 1] == bytes.subrange(at, at + 4)[1]);
        assert(bytes[at + 2] == bytes.subrange(at, at + 4)[2]);
        assert(bytes[at + 3] == bytes.subrange(at, at + 4)[3]);
    }
}

/// What stands where a number is read is the number as it is written.
pub proof fn lemma_write_back(bytes: Seq<u8>, at: int)
    requires
        0 <= at,
    ensures
        at + 2 <= bytes.len() ==> bytes.subrange(at, at + 2) == le16(u16_at(bytes, at)),
        at + 4 <= bytes.len() ==> bytes.subrange(at, at + 4) == le32(u32_at(bytes, at)),
{
    if at + 2 <= bytes.len() {
        assert(bytes.subrange(at, at + 2) =~= le16(u16_at(bytes, at)));
    }
    if at + 4 <= bytes.len() {
        let n = u32_at(bytes, at) as int;
        let (a, b, c, d) = (
            bytes[at] as int,
            bytes[at + 1] as int,
            bytes[at + 2] as int,
            bytes[at + 3] as int,
        );
        assert(n == a + 0x100 * (b + 0x100 * (c + 0x100 * d)));
        assert(n / 0x100 == b + 0x100 * (c + 0x100 * d));
        assert(n / 0x1_0000 == c + 0x100 * d);
        assert(n / 0x100_0000 == d);
        assert(bytes.subrange(at, at + 4) =~= le32(u32_at(bytes, at)));
    }
}

}
