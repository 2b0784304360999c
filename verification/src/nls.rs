//! Text encodings of the engine's files.

use vstd::prelude::*;

verus! {

/// The encoding that a title's script and archives are written in.
#[derive(Debug, Clone, Copy, PartialEq, Eq, Structural)]
pub enum FvpNls {
    ShiftJis,
    Gbk,
    Utf8,
}

/// Whether the text of that many bytes is sure to fit in memory: it takes up to three
/// bytes for each, and the buffer for it may be enlarged once.
pub open spec fn decodable(len: int) -> bool {
    8 * len + 64 <= isize::MAX
}

/// The text of `bytes` and whether it holds a replacement for a malformed
/// sequence, both as Shift_JIS gives them.
pub uninterp spec fn shift_jis_text(bytes: Seq<u8>) -> (Seq<char>, bool);

/// The text of `bytes` and whether it holds a replacement for a malformed
/// sequence, both as GBK gives them.
pub uninterp spec fn gbk_text(bytes: Seq<u8>) -> (Seq<char>, bool);

/// The text of `bytes` and whether it holds a replacement for a malformed
/// sequence, both as UTF-8 gives them.
pub uninterp spec fn utf8_text(bytes: Seq<u8>) -> (Seq<char>, bool);

/// `Encoding::decode` of `encoding_rs` on `SHIFT_JIS`. Its text and its flag for
/// malformed input depend on the bytes alone; a leading byte order mark is taken
/// out and overrules the encoding. The mapping itself is not stated. It panics where
/// the size of its buffer overflows.
#[verifier::external_body]
fn decode_shift_jis(bytes: &[u8]) -> (r: (String, bool))
    requires
        decodable(bytes@.len() as int),
    ensures
        (r.0@, r.1) == shift_jis_text(bytes@),
{
    let (text, _, malformed) = encoding_rs::SHIFT_JIS.decode(bytes);
    (text.into_owned(), malformed)
}

/// `Encoding::decode` of `encoding_rs` on `GBK`. Its text and its flag for
/// malformed input depend on the bytes alone; a leading byte order mark is taken
/// out and overrules the encoding. The mapping itself is not stated. It panics where
/// the size of its buffer overflows.
#[verifier::external_body]
fn decode_gbk(bytes: &[u8]) -> (r: (String, bool))
    requires
        decodable(bytes@.len() as int),
    ensures
        (r.0@, r.1) == gbk_text(bytes@),
{
    let (text, _, malformed) = encoding_rs::GBK.decode(bytes);
    (text.into_owned(), malformed)
}

/// Whether `bytes` begin with a byte order mark of UTF-16.
pub open spec fn utf16_marked(bytes: Seq<u8>) -> bool {
    &&& bytes.len() >= 2
    &&& bytes[0] == 0xff && bytes[1] == 0xfe || bytes[0] == 0xfe && bytes[1] == 0xff
}

/// The bytes behind a byte order mark of UTF-8; all of them if there is none.
pub open spec fn behind_mark(bytes: Seq<u8>) -> Seq<u8> {
    if bytes.len() >= 3 && bytes[0] == 0xef && bytes[1] == 0xbb && bytes[2] == 0xbf {
        bytes.skip(3)
    } else {
        bytes
    }
}

/// `Encoding::decode` of `encoding_rs` on `UTF_8`. Its text and its flag for
/// malformed input depend on the bytes alone; a leading byte order mark is taken
/// out and overrules the encoding. Where that is not one of UTF-16, the flag tells
/// whether the bytes behind it are no UTF-8, and a text without the flag is what they
/// stand for. The replacements in a text with the flag are not stated, nor the text
/// behind a mark of UTF-16. It panics where the size of its buffer overflows.
#[verifier::external_body]
fn decode_utf8(bytes: &[u8]) -> (r: (String, bool))
    requires
        decodable(bytes@.len() as int),
    ensures
        (r.0@, r.1) == utf8_text(bytes@),
        !utf16_marked(bytes@) ==> r.1 == !vstd::utf8::valid_utf8(behind_mark(bytes@)),
        !utf16_marked(bytes@) && !r.1 ==> r.0@ == vstd::utf8::decode_utf8(behind_mark(bytes@)),
{
    let (text, _, malformed) = encoding_rs::UTF_8.decode(bytes);
    (text.into_owned(), malformed)
}

/// What `bytes` read as in the encoding `nls`.
pub open spec fn decoded(nls: FvpNls, bytes: Seq<u8>) -> (Seq<char>, bool) {
    match nls {
        FvpNls::ShiftJis => shift_jis_text(bytes),
        FvpNls::Gbk => gbk_text(bytes),
        FvpNls::Utf8 => utf8_text(bytes),
    }
}

impl FvpNls {
    /// Reads `bytes` in this encoding: the text, and whether it holds a
    /// replacement for a malformed sequence.
    pub fn decode(self, bytes: &[u8]) -> (r: (String, bool))
        requires
            decodable(bytes@.len() as int),
        ensures
            (r.0@, r.1) == decoded(self, bytes@),
            self == FvpNls::Utf8 && !utf16_marked(bytes@) ==> {
                &&& r.1 == !vstd::utf8::valid_utf8(behind_mark(bytes@))
                &&& !r.1 ==> r.0@ == vstd::utf8::decode_utf8(behind_mark(bytes@))
            },
    {
        match self {
            FvpNls::ShiftJis => decode_shift_jis(bytes),
            FvpNls::Gbk => decode_gbk(bytes),
            FvpNls::Utf8 => decode_utf8(bytes),
        }
    }
}

/// Each encoding reads by its own table.
pub proof fn law_encodings_read_by_their_own_tables(bytes: Seq<u8>)
    ensures
        decoded(FvpNls::ShiftJis, bytes) == shift_jis_text(bytes),
        decoded(FvpNls::Gbk, bytes) == gbk_text(bytes),
        decoded(FvpNls::Utf8, bytes) == utf8_text(bytes),
{
}

}
