//! Text primitives shared by every module: character access, ASCII folding,
//! path segments, decimal and hexadecimal numerals.

use vstd::prelude::*;

verus! {

/// `String::push` of std: the character is appended at the end.
pub assume_specification[ String::push ](s: &mut String, c: char)
    ensures
        final(s)@ == old(s)@.push(c),
;

/// The characters of `s`, in order.
pub fn chars_of(s: &str) -> (v: Vec<char>)
    ensures
        v@ == s@,
{
    let mut v: Vec<char> = Vec::new();
    for c in it: s.chars()
        invariant
            it.seq() == s@,
            v@ =~= s@.take(it.index() as int),
    {
        v.push(c);
    }
    v
}

/// The text made of the characters `v[from..to]`.
pub fn string_of_range(v: &Vec<char>, from: usize, to: usize) -> (s: String)
    requires
        from <= to <= v.len(),
    ensures
        s@ == v@.subrange(from as int, to as int),
{
    let mut s: String = String::new();
    let mut i: usize = from;
    while i < to
        invariant
            from <= i <= to <= v.len(),
            s@ =~= v@.subrange(from as int, i as int),
        decreases to - i,
    {
        s.push(v[i]);
        i = i + 1;
    }
    s
}

/// The text made of all characters of `v`.
pub fn string_of(v: &Vec<char>) -> (s: String)
    ensures
        s@ == v@,
{
    let s = string_of_range(v, 0, v.len());
    assert(v@.subrange(0, v@.len() as int) =~= v@);
    s
}

/// Whether two texts hold the same characters.
pub fn same_text(a: &str, b: &str) -> (r: bool)
    ensures
        r == (a@ == b@),
{
    let r = crate::bytes::same_bytes(a.as_bytes(), b.as_bytes());
    proof {
        if r {
            lemma_utf8_injective(a@, b@);
        }
    }
    r
}

/// An owned copy of `s`.
pub fn owned(s: &str) -> (r: String)
    ensures
        r@ == s@,
{
    s.to_owned()
}

/// The concatenation of `a` and `b`.
pub fn join2(a: &str, b: &str) -> (r: String)
    ensures
        r@ == a@ + b@,
{
    let mut r = owned(a);
    r.append(b);
    r
}

/// The concatenation of `a`, `b` and `c`.
pub fn join3(a: &str, b: &str, c: &str) -> (r: String)
    ensures
        r@ == a@ + b@ + c@,
{
    let mut r = join2(a, b);
    r.append(c);
    r
}

// ---------------------------------------------------------------- ASCII case

/// `c` with an ASCII capital replaced by its small letter.
pub open spec fn lower_char(c: char) -> char {
    if 'A' <= c && c <= 'Z' {
        ((c as u8) + 32) as u8 as char
    } else {
        c
    }
}

/// `s` with every ASCII capital replaced by its small letter.
pub open spec fn lower(s: Seq<char>) -> Seq<char> {
    Seq::new(s.len(), |i: int| lower_char(s[i]))
}

pub fn to_lower_char(c: char) -> (r: char)
    ensures
        r == lower_char(c),
{
    if 'A' <= c && c <= 'Z' {
        ((c as u8) + 32) as char
    } else {
        c
    }
}

pub fn to_lower(v: &Vec<char>) -> (r: Vec<char>)
    ensures
        r@ == lower(v@),
{
    let mut r: Vec<char> = Vec::new();
    let mut i: usize = 0;
    while i < v.len()
        invariant
            i <= v.len(),
            r@ =~= lower(v@).subrange(0, i as int),
        decreases v.len() - i,
    {
        r.push(to_lower_char(v[i]));
        i = i + 1;
    }
    assert(r@ =~= lower(v@));
    r
}

/// Lowering twice is lowering once.
pub proof fn lemma_lower_idempotent(s: Seq<char>)
    ensures
        lower(lower(s)) == lower(s),
{
    assert forall|i: int| 0 <= i < s.len() implies lower_char(#[trigger] lower_char(s[i])) == lower_char(
        s[i],
    ) by {
        lemma_lower_char(s[i]);
    }
    assert(lower(lower(s)) =~= lower(s));
}

/// A lowered character is no ASCII capital, and lowering it changes nothing.
pub proof fn lemma_lower_char(c: char)
    ensures
        !('A' <= lower_char(c) && lower_char(c) <= 'Z'),
        lower_char(lower_char(c)) == lower_char(c),
        lower_char(c) == '/' <==> c == '/',
        lower_char(c) == '.' <==> c == '.',
        lower_char(c) == ':' <==> c == ':',
        lower_char(c) == '\\' <==> c == '\\',
{
}

/// Whether `a` and `b` are equal up to ASCII case.
pub open spec fn same_ignoring_case(a: Seq<char>, b: Seq<char>) -> bool {
    lower(a) == lower(b)
}


// ---------------------------------------------------------- character search

/// Whether `c` occurs in `s`.
pub fn has_char(v: &Vec<char>, c: char) -> (r: bool)
    ensures
        r == v@.contains(c),
{
    let mut i: usize = 0;
    while i < v.len()
        invariant
            i <= v.len(),
            forall|j: int| 0 <= j < i ==> v@[j] != c,
        decreases v.len() - i,
    {
        if v[i] == c {
            assert(v@[i as int] == c);
            return true;
        }
        i = i + 1;
    }
    false
}

/// `s` with every `from` replaced by `to`.
pub open spec fn replaced(s: Seq<char>, from: char, to: char) -> Seq<char> {
    Seq::new(s.len(), |i: int| if s[i] == from { to } else { s[i] })
}

pub fn replace_char(v: &Vec<char>, from: char, to: char) -> (r: Vec<char>)
    ensures
        r@ == replaced(v@, from, to),
{
    let mut r: Vec<char> = Vec::new();
    let mut i: usize = 0;
    while i < v.len()
        invariant
            i <= v.len(),
            r@ =~= replaced(v@, from, to).subrange(0, i as int),
        decreases v.len() - i,
    {
        if v[i] == from {
            r.push(to);
        } else {
            r.push(v[i]);
        }
        i = i + 1;
    }
    assert(r@ =~= replaced(v@, from, to));
    r
}

/// Whether `s` starts with `p`.
pub open spec fn has_prefix(s: Seq<char>, p: Seq<char>) -> bool {
    s.len() >= p.len() && s.subrange(0, p.len() as int) == p
}

/// Whether `s` ends with `p`.
pub open spec fn has_suffix(s: Seq<char>, p: Seq<char>) -> bool {
    s.len() >= p.len() && s.subrange(s.len() - p.len(), s.len() as int) == p
}

/// Whether `v[at..at + p.len()]` is `p`.
fn matches_at(v: &Vec<char>, at: usize, p: &Vec<char>) -> (r: bool)
    requires
        at + p.len() <= v.len(),
    ensures
        r == (v@.subrange(at as int, at + p.len()) == p@),
{
    let mut i: usize = 0;
    while i < p.len()
        invariant
            i <= p.len(),
            at + p.len() <= v.len(),
            forall|j: int| 0 <= j < i ==> v@[at + j] == p@[j],
        decreases p.len() - i,
    {
        if v[at + i] != p[i] {
            assert(v@.subrange(at as int, at + p.len())[i as int] != p@[i as int]);
            return false;
        }
        i = i + 1;
    }
    assert(v@.subrange(at as int, at + p.len()) =~= p@);
    true
}

pub fn starts_with(v: &Vec<char>, p: &str) -> (r: bool)
    ensures
        r == has_prefix(v@, p@),
{
    let q = chars_of(p);
    if v.len() < q.len() {
        return false;
    }
    matches_at(v, 0, &q)
}

pub fn ends_with(v: &Vec<char>, p: &str) -> (r: bool)
    ensures
        r == has_suffix(v@, p@),
{
    let q = chars_of(p);
    if v.len() < q.len() {
        return false;
    }
    matches_at(v, v.len() - q.len(), &q)
}

/// The characters `v[from..to]`.
pub fn slice_chars(v: &Vec<char>, from: usize, to: usize) -> (r: Vec<char>)
    requires
        from <= to <= v.len(),
    ensures
        r@ == v@.subrange(from as int, to as int),
{
    let mut r: Vec<char> = Vec::new();
    let mut i: usize = from;
    while i < to
        invariant
            from <= i <= to <= v.len(),
            r@ =~= v@.subrange(from as int, i as int),
        decreases to - i,
    {
        r.push(v[i]);
        i = i + 1;
    }
    r
}

/// The first place of `c` in `s` at or behind `from`, or the end of `s`.
pub open spec fn first_place(s: Seq<char>, c: char, from: int) -> int
    decreases s.len() - from,
{
    if from >= s.len() || s[from] == c {
        from
    } else {
        first_place(s, c, from + 1)
    }
}

pub fn find_first(v: &Vec<char>, c: char, from: usize) -> (r: usize)
    requires
        from <= v@.len(),
    ensures
        r == first_place(v@, c, from as int),
        from <= r <= v@.len(),
        r < v@.len() ==> v@[r as int] == c,
        forall|i: int| from <= i < r ==> v@[i] != c,
{
    let mut i: usize = from;
    while i < v.len() && v[i] != c
        invariant
            from <= i <= v@.len(),
            first_place(v@, c, from as int) == first_place(v@, c, i as int),
            forall|j: int| from <= j < i ==> v@[j] != c,
        decreases v@.len() - i,
    {
        i = i + 1;
    }
    i
}

/// A place found behind `from` lies there or at the end.
pub proof fn lemma_first_place(s: Seq<char>, c: char, from: int)
    requires
        0 <= from <= s.len(),
    ensures
        from <= first_place(s, c, from) <= s.len(),
    decreases s.len() - from,
{
    if from < s.len() && s[from] != c {
        lemma_first_place(s, c, from + 1);
    }
}

/// The texts of a list.
pub open spec fn texts(s: Seq<String>) -> Seq<Seq<char>> {
    Seq::new(s.len(), |i: int| s[i]@)
}

// ------------------------------------------------------------- path segments

/// Whether `s[a..b]` is a maximal run without `/`, that is one segment of the
/// path `s`.
pub open spec fn is_segment(s: Seq<char>, a: int, b: int) -> bool {
    &&& 0 <= a <= b <= s.len()
    &&& (a == 0 || s[a - 1] == '/')
    &&& (b == s.len() || s[b] == '/')
    &&& forall|i: int| a <= i < b ==> s[i] != '/'
}

/// An empty segment, `.` or `..`: none of them names a child.
pub open spec fn is_relative_segment(t: Seq<char>) -> bool {
    ||| t.len() == 0
    ||| t.len() == 1 && t[0] == '.'
    ||| t.len() == 2 && t[0] == '.' && t[1] == '.'
}

/// Whether every segment of `s` names a child: no empty segment, no `.` and no
/// `..`. The empty path, a path with a leading `/` and one with a trailing `/`
/// have an empty segment.
pub open spec fn plain_path(s: Seq<char>) -> bool {
    forall|a: int, b: int| #[trigger] is_segment(s, a, b) ==> !is_relative_segment(s.subrange(a, b))
}

pub fn is_plain_path(v: &Vec<char>) -> (r: bool)
    ensures
        r == plain_path(v@),
{
    let mut start: usize = 0;
    let mut i: usize = 0;
    loop
        invariant
            start <= i <= v.len(),
            start == 0 || v@[start - 1] == '/',
            forall|j: int| start <= j < i ==> v@[j] != '/',
            forall|a: int, b: int|
                #[trigger] is_segment(v@, a, b) && b < start ==> !is_relative_segment(v@.subrange(a, b)),
        decreases v.len() - i,
    {
        if i == v.len() || v[i] == '/' {
            let len: usize = i - start;
            assert(is_segment(v@, start as int, i as int));
            let relative = len == 0 || (len == 1 && v[start] == '.') || (len == 2 && v[start] == '.'
                && v[start + 1] == '.');
            assert(relative == is_relative_segment(v@.subrange(start as int, i as int)));
            if relative {
                return false;
            }
            assert forall|a: int, b: int| #[trigger] is_segment(v@, a, b) && b <= i implies !is_relative_segment(
                v@.subrange(a, b),
            ) by {
                if b >= start {
                    if b < i {
                        assert(v@[b] != '/');
                        assert(false);
                    }
                    if a < start {
                        assert(v@[start - 1] == '/');
                        assert(false);
                    }
                    if a > start {
                        assert(v@[a - 1] == '/');
                        assert(false);
                    }
                }
            }
            if i == v.len() {
                return true;
            }
            start = i + 1;
        }
        i = i + 1;
    }
}

/// Lowering ASCII letters keeps the segments of a path in place.
pub proof fn lemma_lower_plain_path(s: Seq<char>)
    ensures
        plain_path(lower(s)) == plain_path(s),
{
    let l = lower(s);
    assert forall|i: int| 0 <= i < s.len() implies ((#[trigger] l[i] == '/') == (s[i] == '/')) && ((l[i]
        == '.') == (s[i] == '.')) by {
        lemma_lower_char(s[i]);
    }
    assert forall|a: int, b: int| #[trigger] is_segment(s, a, b) == is_segment(l, a, b) by {
        if is_segment(s, a, b) {
            assert(a == 0 || l[a - 1] == '/');
            assert(b == s.len() || l[b] == '/');
            assert forall|i: int| a <= i < b implies l[i] != '/' by {
                assert(s[i] != '/');
            }
        }
        if is_segment(l, a, b) {
            assert(a == 0 || l[a - 1] == '/');
            assert(b == s.len() || l[b] == '/');
            assert forall|i: int| a <= i < b implies s[i] != '/' by {
                assert(l[i] != '/');
            }
        }
    }
    assert forall|a: int, b: int| is_segment(s, a, b) implies is_relative_segment(s.subrange(a, b))
        == is_relative_segment(#[trigger] l.subrange(a, b)) by {
        let x = s.subrange(a, b);
        let y = l.subrange(a, b);
        if b - a >= 1 {
            assert(x[0] == s[a] && y[0] == l[a]);
        }
        if b - a >= 2 {
            assert(x[1] == s[a + 1] && y[1] == l[a + 1]);
        }
    }
    if plain_path(s) {
        assert forall|a: int, b: int| #[trigger] is_segment(l, a, b) implies !is_relative_segment(
            l.subrange(a, b),
        ) by {
            assert(is_segment(s, a, b));
        }
    }
    if plain_path(l) {
        assert forall|a: int, b: int| #[trigger] is_segment(s, a, b) implies !is_relative_segment(
            s.subrange(a, b),
        ) by {
            assert(is_segment(l, a, b));
            assert(!is_relative_segment(l.subrange(a, b)));
        }
    }
}

/// A plain path has no leading `/` and does not start with `./`.
pub proof fn lemma_plain_path_start(s: Seq<char>)
    requires
        plain_path(s),
    ensures
        s.len() > 0,
        s[0] != '/',
        !(s.len() >= 2 && s[0] == '.' && s[1] == '/'),
{
    if s.len() == 0 || s[0] == '/' {
        assert(is_segment(s, 0, 0));
        assert(is_relative_segment(s.subrange(0, 0)));
    }
    if s.len() >= 2 && s[0] == '.' && s[1] == '/' {
        assert(is_segment(s, 0, 1));
        assert(is_relative_segment(s.subrange(0, 1)));
    }
}

// ------------------------------------------------------------------ numerals

/// The ASCII digit of `d`.
pub open spec fn digit_char(d: int) -> char {
    ('0' as u8 + d) as u8 as char
}

/// The decimal numeral of `n`, without leading zeros.
pub open spec fn decimal(n: nat) -> Seq<char>
    decreases n,
{
    if n < 10 {
        seq![digit_char(n as int)]
    } else {
        decimal(n / 10).push(digit_char((n % 10) as int))
    }
}

fn decimal_chars(n: u64) -> (r: Vec<char>)
    ensures
        r@ == decimal(n as nat),
    decreases n,
{
    let d: u8 = (n % 10) as u8;
    let c: char = (48u8 + d) as char;
    if n < 10 {
        let mut r: Vec<char> = Vec::new();
        r.push(c);
        assert(r@ =~= seq![digit_char(n as int)]);
        r
    } else {
        let mut r = decimal_chars(n / 10);
        r.push(c);
        r
    }
}

/// The decimal numeral of `n`.
pub fn decimal_string(n: u64) -> (r: String)
    ensures
        r@ == decimal(n as nat),
{
    let v = decimal_chars(n);
    string_of(&v)
}

pub open spec fn is_digit(c: char) -> bool {
    '0' <= c && c <= '9'
}

pub open spec fn digit_value(c: char) -> nat {
    (c as int - '0' as int) as nat
}

/// The number that a sequence of decimal digits stands for.
pub open spec fn decimal_value(s: Seq<char>) -> nat
    decreases s.len(),
{
    if s.len() == 0 {
        0
    } else {
        decimal_value(s.drop_last()) * 10 + digit_value(s.last())
    }
}

pub open spec fn all_digits(s: Seq<char>) -> bool {
    forall|i: int| 0 <= i < s.len() ==> is_digit(#[trigger] s[i])
}

/// The digits of an unsigned numeral: one leading `+` is allowed and dropped.
pub open spec fn unsigned_digits(s: Seq<char>) -> Seq<char> {
    if s.len() > 0 && s[0] == '+' {
        s.subrange(1, s.len() as int)
    } else {
        s
    }
}

/// The value of `s` as an unsigned decimal numeral of 32 bits, if it is one.
pub open spec fn parsed_u32(s: Seq<char>) -> Option<u32> {
    let digits = unsigned_digits(s);
    if digits.len() > 0 && all_digits(digits) && decimal_value(digits) <= u32::MAX {
        Some(decimal_value(digits) as u32)
    } else {
        None
    }
}

/// A numeral is at least its value without the last digits.
proof fn lemma_decimal_value_prefix(s: Seq<char>, k: int)
    requires
        0 <= k <= s.len(),
    ensures
        decimal_value(s.subrange(0, k)) <= decimal_value(s),
    decreases s.len() - k,
{
    if k < s.len() {
        let t = s.subrange(0, k + 1);
        assert(t.drop_last() =~= s.subrange(0, k));
        lemma_decimal_value_prefix(s, k + 1);
    } else {
        assert(s.subrange(0, k) =~= s);
    }
}

pub fn parse_u32(text: &str) -> (r: Option<u32>)
    ensures
        r == parsed_u32(text@),
{
    let v = chars_of(text);
    let start: usize = if v.len() > 0 && v[0] == '+' {
        1
    } else {
        0
    };
    let ghost digits = unsigned_digits(v@);
    assert(digits =~= v@.subrange(start as int, v@.len() as int));
    if start == v.len() {
        return None;
    }
    let mut value: u64 = 0;
    let mut i: usize = start;
    assert(digits.subrange(0, 0) =~= Seq::<char>::empty());
    while i < v.len()
        invariant
            start <= i <= v.len(),
            start <= 1,
            digits == v@.subrange(start as int, v@.len() as int),
            digits == unsigned_digits(text@),
            value == decimal_value(digits.subrange(0, i - start)),
            value <= u32::MAX,
            forall|j: int| 0 <= j < i - start ==> is_digit(#[trigger] digits[j]),
        decreases v.len() - i,
    {
        let c = v[i];
        assert(digits[i - start] == c);
        if !('0' <= c && c <= '9') {
            assert(!is_digit(digits[i - start]));
            return None;
        }
        let d: u64 = (c as u64) - ('0' as u64);
        let ghost t = digits.subrange(0, i - start + 1);
        assert(t.drop_last() =~= digits.subrange(0, i - start));
        assert(t.last() == c);
        value = value * 10 + d;
        assert(value == decimal_value(t));
        if value > u32::MAX as u64 {
            proof {
                lemma_decimal_value_prefix(digits, i - start + 1);
            }
            return None;
        }
        i = i + 1;
    }
    assert(digits.subrange(0, v.len() - start) =~= digits);
    Some(value as u32)
}

/// The decimal numeral of a number is a row of digits with the number as value.
pub proof fn lemma_decimal_parses(n: nat)
    ensures
        decimal(n).len() > 0,
        all_digits(decimal(n)),
        decimal_value(decimal(n)) == n,
    decreases n,
{
    if n < 10 {
        assert(decimal(n).drop_last() =~= Seq::<char>::empty());
        assert(decimal_value(decimal(n).drop_last()) == 0);
        assert(decimal(n).last() == digit_char(n as int));
    } else {
        lemma_decimal_parses(n / 10);
        assert(decimal(n).drop_last() =~= decimal(n / 10));
        assert(decimal(n).last() == digit_char((n % 10) as int));
    }
}

/// Reading back the decimal numeral of a number gives the number.
pub proof fn law_decimal_round_trip(n: u32)
    ensures
        parsed_u32(decimal(n as nat)) == Some(n),
{
    lemma_decimal_parses(n as nat);
    assert(is_digit(decimal(n as nat)[0]));
}

/// The lower-case hexadecimal digit of `d`.
pub open spec fn hex_char(d: int) -> char {
    if d < 10 {
        digit_char(d)
    } else {
        ('a' as u8 + d - 10) as u8 as char
    }
}

/// Two lower-case hexadecimal digits per byte.
pub open spec fn hex(bytes: Seq<u8>) -> Seq<char> {
    Seq::new(
        2 * bytes.len(),
        |i: int|
            if i % 2 == 0 {
                hex_char(bytes[i / 2] as int / 16)
            } else {
                hex_char(bytes[i / 2] as int % 16)
            },
    )
}

fn to_hex_char(d: u8) -> (r: char)
    requires
        d < 16,
    ensures
        r == hex_char(d as int),
{
    if d < 10 {
        (48u8 + d) as char
    } else {
        (87u8 + d) as char
    }
}

pub fn hex_string(bytes: &[u8]) -> (r: String)
    ensures
        r@ == hex(bytes@),
{
    let mut r: String = String::new();
    let mut i: usize = 0;
    while i < bytes.len()
        invariant
            i <= bytes.len(),
            r@ =~= hex(bytes@).subrange(0, 2 * i),
        decreases bytes.len() - i,
    {
        r.push(to_hex_char(bytes[i] / 16));
        r.push(to_hex_char(bytes[i] % 16));
        i = i + 1;
    }
    assert(r@ =~= hex(bytes@));
    r
}

// ------------------------------------------------------------- UTF-8 lengths

/// The number of bytes that UTF-8 spends on `s`.
pub open spec fn byte_len(s: Seq<char>) -> nat {
    vstd::utf8::encode_utf8(s).len()
}

pub fn byte_length(s: &str) -> (r: usize)
    ensures
        r == byte_len(s@),
{
    s.as_bytes().len()
}

/// Texts with the same UTF-8 bytes are the same text.
pub proof fn lemma_utf8_injective(a: Seq<char>, b: Seq<char>)
    requires
        vstd::utf8::encode_utf8(a) == vstd::utf8::encode_utf8(b),
    ensures
        a == b,
{
    vstd::utf8::encode_utf8_decode_utf8(a);
    vstd::utf8::encode_utf8_decode_utf8(b);
}

/// `String::from_utf8`: the text of valid UTF-8 bytes, a failure for other bytes.
#[verifier::external_body]
pub(crate) fn text_from_utf8(bytes: Vec<u8>) -> (r: Option<String>)
    ensures
        if vstd::utf8::valid_utf8(bytes@) {
            r is Some && r->0@ == vstd::utf8::decode_utf8(bytes@)
        } else {
            r is None
        },
{
    String::from_utf8(bytes).ok()
}

// ------------------------------------------------------------------ white space

/// Whether a character is white space, by the Unicode property of that name.
pub open spec fn is_space(c: char) -> bool {
    ||| '\u{9}' <= c && c <= '\u{d}'
    ||| c == '\u{20}'
    ||| c == '\u{85}'
    ||| c == '\u{a0}'
    ||| c == '\u{1680}'
    ||| '\u{2000}' <= c && c <= '\u{200a}'
    ||| c == '\u{2028}'
    ||| c == '\u{2029}'
    ||| c == '\u{202f}'
    ||| c == '\u{205f}'
    ||| c == '\u{3000}'
}

fn white(c: char) -> (r: bool)
    ensures
        r == is_space(c),
{
    ('\u{9}' <= c && c <= '\u{d}') || c == '\u{20}' || c == '\u{85}' || c == '\u{a0}' || c
        == '\u{1680}' || ('\u{2000}' <= c && c <= '\u{200a}') || c == '\u{2028}' || c == '\u{2029}'
        || c == '\u{202f}' || c == '\u{205f}' || c == '\u{3000}'
}

/// A text without the white space at its end.
pub open spec fn trimmed_end(s: Seq<char>) -> Seq<char>
    decreases s.len(),
{
    if s.len() > 0 && is_space(s.last()) {
        trimmed_end(s.drop_last())
    } else {
        s
    }
}

/// A text without the white space at its start.
pub open spec fn trimmed_start(s: Seq<char>) -> Seq<char>
    decreases s.len(),
{
    if s.len() > 0 && is_space(s[0]) {
        trimmed_start(s.subrange(1, s.len() as int))
    } else {
        s
    }
}

/// A text without the white space around it.
pub open spec fn trimmed(s: Seq<char>) -> Seq<char> {
    trimmed_end(trimmed_start(s))
}

pub fn trim(v: &Vec<char>) -> (r: Vec<char>)
    ensures
        r@ == trimmed(v@),
{
    let mut start: usize = 0;
    assert(v@.subrange(0, v@.len() as int) =~= v@);
    while start < v.len() && white(v[start])
        invariant
            start <= v@.len(),
            trimmed_start(v@) == trimmed_start(v@.subrange(start as int, v@.len() as int)),
        decreases v@.len() - start,
    {
        assert(v@.subrange(start as int, v@.len() as int).subrange(
            1,
            v@.len() - start,
        ) =~= v@.subrange(start + 1, v@.len() as int));
        start = start + 1;
    }
    let ghost rest = v@.subrange(start as int, v@.len() as int);
    let mut end: usize = v.len();
    while end > start && white(v[end - 1])
        invariant
            start <= end <= v@.len(),
            rest == v@.subrange(start as int, v@.len() as int),
            trimmed_end(rest) == trimmed_end(v@.subrange(start as int, end as int)),
        decreases end,
    {
        assert(v@.subrange(start as int, end as int).drop_last() =~= v@.subrange(
            start as int,
            end - 1,
        ));
        end = end - 1;
    }
    slice_chars(v, start, end)
}

// ----------------------------------------------------------------------- laws

/// Lowering keeps the length of a text, moves each ASCII capital to the small letter of
/// the same place in the alphabet and leaves everything else.
pub proof fn law_lowering_moves_capitals_only(s: Seq<char>, i: int)
    requires
        0 <= i < s.len(),
    ensures
        lower(s).len() == s.len(),
        'A' <= s[i] <= 'Z' ==> 'a' <= lower(s)[i] <= 'z' && lower(s)[i] as int - 'a' as int
            == s[i] as int - 'A' as int,
        !('A' <= s[i] <= 'Z') ==> lower(s)[i] == s[i],
{
}

/// A text is of the same letters as another if and only if they have the same length and
/// every two characters in one place are equal or the two cases of one ASCII letter.
pub proof fn law_case_is_ignored_letter_by_letter(a: Seq<char>, b: Seq<char>)
    ensures
        same_ignoring_case(a, b) <==> {
            &&& a.len() == b.len()
            &&& forall|i: int|
                0 <= i < a.len() ==> {
                    let (x, y) = (#[trigger] a[i], b[i]);
                    ||| x == y
                    ||| 'a' <= x <= 'z' && y as int == x as int - 32
                    ||| 'a' <= y <= 'z' && x as int == y as int - 32
                }
        },
{
    if same_ignoring_case(a, b) {
        assert(lower(a).len() == lower(b).len());
        assert forall|i: int| 0 <= i < a.len() implies {
            let (x, y) = (#[trigger] a[i], b[i]);
            ||| x == y
            ||| 'a' <= x <= 'z' && y as int == x as int - 32
            ||| 'a' <= y <= 'z' && x as int == y as int - 32
        } by {
            assert(lower(a)[i] == lower(b)[i]);
        }
    }
    if a.len() == b.len() && (forall|i: int|
        0 <= i < a.len() ==> {
            let (x, y) = (#[trigger] a[i], b[i]);
            ||| x == y
            ||| 'a' <= x <= 'z' && y as int == x as int - 32
            ||| 'a' <= y <= 'z' && x as int == y as int - 32
        }) {
        assert(lower(a) =~= lower(b)) by {
            assert forall|i: int| 0 <= i < a.len() implies lower(a)[i] == lower(b)[i] by {
                let (x, y) = (a[i], b[i]);
            }
        }
    }
}

/// Replacing a character leaves none of it and touches nothing else.
pub proof fn law_replacing_leaves_none(s: Seq<char>, from: char, to: char, i: int)
    requires
        0 <= i < s.len(),
    ensures
        replaced(s, from, to).len() == s.len(),
        from != to ==> !replaced(s, from, to).contains(from),
        s[i] == from ==> replaced(s, from, to)[i] == to,
        s[i] != from ==> replaced(s, from, to)[i] == s[i],
{
}

/// A text starts with another if and only if something makes the one out of the other at
/// its end, and ends with it if and only if something makes it at its start.
pub proof fn law_prefix_and_suffix(s: Seq<char>, p: Seq<char>)
    ensures
        has_prefix(s, p) <==> exists|rest: Seq<char>| s == #[trigger] (p + rest),
        has_suffix(s, p) <==> exists|rest: Seq<char>| s == #[trigger] (rest + p),
{
    if has_prefix(s, p) {
        assert(s =~= p + s.skip(p.len() as int));
    }
    if exists|rest: Seq<char>| s == #[trigger] (p + rest) {
        let rest = choose|rest: Seq<char>| s == #[trigger] (p + rest);
        assert(s.subrange(0, p.len() as int) =~= p);
    }
    if has_suffix(s, p) {
        assert(s =~= s.take(s.len() - p.len()) + p);
    }
    if exists|rest: Seq<char>| s == #[trigger] (rest + p) {
        let rest = choose|rest: Seq<char>| s == #[trigger] (rest + p);
        assert(s.subrange(s.len() - p.len(), s.len() as int) =~= p);
    }
}

/// A name without a slash is a plain path unless it is empty, one dot or two dots.
pub proof fn law_plain_names(name: Seq<char>)
    requires
        !name.contains('/'),
    ensures
        plain_path(name) <==> name.len() > 0 && name != seq!['.'] && name != seq!['.', '.'],
{
    let n = name.len() as int;
    assert(is_segment(name, 0, n));
    assert(name.subrange(0, n) =~= name);
    assert forall|a: int, b: int| #[trigger] is_segment(name, a, b) implies a == 0 && b == n by {
        if a > 0 {
            assert(name.contains(name[a - 1]));
        }
        if b < n {
            assert(name.contains(name[b]));
        }
    }
    if is_relative_segment(name) {
        if n == 1 {
            assert(name =~= seq!['.']);
        }
        if n == 2 {
            assert(name =~= seq!['.', '.']);
        }
    }
}

/// A path is plain if and only if both of the paths that a slash joins are.
pub proof fn law_plain_paths_join(s: Seq<char>, t: Seq<char>)
    ensures
        plain_path(s + seq!['/'] + t) <==> plain_path(s) && plain_path(t),
{
    let u = s + seq!['/'] + t;
    let n = s.len() as int;
    assert(u[n] == '/');
    assert forall|a: int, b: int| #[trigger] is_segment(s, a, b) implies is_segment(u, a, b)
        && u.subrange(a, b) == s.subrange(a, b) by {
        assert(u.subrange(a, b) =~= s.subrange(a, b));
        assert forall|i: int| a <= i < b implies u[i] != '/' by {
            assert(u[i] == s[i]);
        }
    }
    assert forall|a: int, b: int| #[trigger] is_segment(t, a, b) implies is_segment(
        u,
        n + 1 + a,
        n + 1 + b,
    ) && u.subrange(n + 1 + a, n + 1 + b) == t.subrange(a, b) by {
        assert(u.subrange(n + 1 + a, n + 1 + b) =~= t.subrange(a, b));
        assert forall|i: int| n + 1 + a <= i < n + 1 + b implies u[i] != '/' by {
            assert(u[i] == t[i - n - 1]);
        }
    }
    assert forall|a: int, b: int| #[trigger] is_segment(u, a, b) implies (b <= n && is_segment(
        s,
        a,
        b,
    ) && u.subrange(a, b) == s.subrange(a, b)) || (a > n && is_segment(t, a - n - 1, b - n - 1)
        && u.subrange(a, b) == t.subrange(a - n - 1, b - n - 1)) by {
        if b <= n {
            assert(u.subrange(a, b) =~= s.subrange(a, b));
            assert forall|i: int| a <= i < b implies s[i] != '/' by {
                assert(u[i] == s[i]);
            }
            if a > 0 {
                assert(u[a - 1] == s[a - 1]);
            }
            if b < n {
                assert(u[b] == s[b]);
            }
        } else {
            if a <= n {
                assert(u[n] != '/');
            }
            assert(u.subrange(a, b) =~= t.subrange(a - n - 1, b - n - 1));
            assert forall|i: int| a - n - 1 <= i < b - n - 1 implies t[i] != '/' by {
                assert(u[n + 1 + i] == t[i]);
            }
            if a > n + 1 {
                assert(u[a - 1] == t[a - n - 2]);
            }
            if b < u.len() {
                assert(u[b] == t[b - n - 1]);
            }
        }
    }
}

/// A numeral is written digit by digit: that of ten times a number and a digit is the
/// numeral of the number with the digit behind it.
pub proof fn law_numerals_grow_by_digits(n: nat, d: nat)
    requires
        d < 10,
    ensures
        decimal(d).len() == 1,
        decimal(d)[0] as int == '0' as int + d,
        n > 0 ==> decimal(10 * n + d).len() == decimal(n).len() + 1,
        n > 0 ==> decimal(10 * n + d).drop_last() == decimal(n),
        n > 0 ==> decimal(10 * n + d).last() as int == '0' as int + d,
{
    if n > 0 {
        assert((10 * n + d) / 10 == n && (10 * n + d) % 10 == d);
        assert(decimal(n).push(digit_char(d as int)).drop_last() =~= decimal(n));
    }
}

/// A numeral is read digit by digit: behind a numeral, a digit adds its value to ten times
/// the numeral's, as long as that fits; anything else makes it no numeral. A sign of plus in
/// front changes nothing.
pub proof fn law_numerals_are_read_by_digits(s: Seq<char>, c: char)
    requires
        parsed_u32(s) is Some,
    ensures
        '0' <= c <= '9' && 10 * parsed_u32(s)->0 + (c as int - '0' as int) <= u32::MAX ==> parsed_u32(
            s.push(c),
        ) == Some((10 * parsed_u32(s)->0 + (c as int - '0' as int)) as u32),
        '0' <= c <= '9' && 10 * parsed_u32(s)->0 + (c as int - '0' as int) > u32::MAX ==> parsed_u32(
            s.push(c),
        ) is None,
        !('0' <= c <= '9') ==> parsed_u32(s.push(c)) is None,
        s[0] != '+' ==> parsed_u32(seq!['+'] + s) == parsed_u32(s),
{
    let digits = unsigned_digits(s);
    let more = unsigned_digits(s.push(c));
    assert(s.len() > 0);
    assert(more =~= digits.push(c));
    assert(more.drop_last() =~= digits);
    assert(more[digits.len() as int] == c);
    if all_digits(more) {
        assert(is_digit(more[digits.len() as int]));
    }
    if is_digit(c) {
        assert forall|i: int| 0 <= i < more.len() implies is_digit(#[trigger] more[i]) by {
            if i < digits.len() {
                assert(is_digit(digits[i]));
            }
        }
    }
    assert(unsigned_digits(seq!['+'] + s) =~= s);
}

/// One digit is a numeral, and so is nothing else of one character; nothing is no numeral.
pub proof fn law_single_digits_are_read(c: char)
    ensures
        parsed_u32(Seq::empty()) is None,
        '0' <= c <= '9' ==> parsed_u32(seq![c]) == Some((c as int - '0' as int) as u32),
        !('0' <= c <= '9') ==> parsed_u32(seq![c]) is None,
{
    let s = seq![c];
    assert(decimal_value(s.drop_last()) == 0);
    assert(s[0] == c);
    if c == '+' {
        assert(unsigned_digits(s).len() == 0);
    } else {
        assert(unsigned_digits(s) == s);
        assert(all_digits(s) ==> is_digit(s[0]));
    }
}

/// The value of a digit of a hexadecimal numeral in small letters.
pub open spec fn hex_digit_value(c: char) -> int {
    if c <= '9' {
        c as int - '0' as int
    } else {
        c as int - 'a' as int + 10
    }
}

/// Bytes are read back from their digits: two for each, the higher first.
pub proof fn law_digits_give_the_bytes_back(bytes: Seq<u8>, i: int)
    requires
        0 <= i < bytes.len(),
    ensures
        hex(bytes).len() == 2 * bytes.len(),
        bytes[i] == 16 * hex_digit_value(hex(bytes)[2 * i]) + hex_digit_value(hex(bytes)[2 * i + 1]),
        0 <= hex_digit_value(hex(bytes)[2 * i]) < 16,
        0 <= hex_digit_value(hex(bytes)[2 * i + 1]) < 16,
{
    let b = bytes[i] as int;
    assert((2 * i) / 2 == i && (2 * i) % 2 == 0);
    assert((2 * i + 1) / 2 == i && (2 * i + 1) % 2 == 1);
    assert(hex(bytes)[2 * i] == hex_char(b / 16));
    assert(hex(bytes)[2 * i + 1] == hex_char(b % 16));
}

proof fn lemma_trimmed_start(s: Seq<char>)
    ensures
        exists|n: int|
            0 <= n <= s.len() && #[trigger] s.skip(n) == trimmed_start(s) && forall|i: int|
                0 <= i < n ==> is_space(#[trigger] s[i]),
        trimmed_start(s).len() > 0 ==> !is_space(trimmed_start(s)[0]),
    decreases s.len(),
{
    if s.len() > 0 && is_space(s[0]) {
        let t = s.subrange(1, s.len() as int);
        lemma_trimmed_start(t);
        let n = choose|n: int|
            0 <= n <= t.len() && #[trigger] t.skip(n) == trimmed_start(t) && forall|i: int|
                0 <= i < n ==> is_space(#[trigger] t[i]);
        assert(s.skip(n + 1) =~= t.skip(n));
        assert forall|i: int| 0 <= i < n + 1 implies is_space(#[trigger] s[i]) by {
            if i > 0 {
                assert(is_space(t[i - 1]));
            }
        }
    } else {
        assert(s.skip(0) =~= s);
    }
}

proof fn lemma_trimmed_end(s: Seq<char>)
    ensures
        exists|n: int|
            0 <= n <= s.len() && #[trigger] s.take(n) == trimmed_end(s) && forall|i: int|
                n <= i < s.len() ==> is_space(#[trigger] s[i]),
        trimmed_end(s).len() > 0 ==> !is_space(trimmed_end(s).last()),
    decreases s.len(),
{
    if s.len() > 0 && is_space(s.last()) {
        let t = s.drop_last();
        lemma_trimmed_end(t);
        let n = choose|n: int|
            0 <= n <= t.len() && #[trigger] t.take(n) == trimmed_end(t) && forall|i: int|
                n <= i < t.len() ==> is_space(#[trigger] t[i]);
        assert(s.take(n) =~= t.take(n));
        assert forall|i: int| n <= i < s.len() implies is_space(#[trigger] s[i]) by {
            if i < t.len() {
                assert(is_space(t[i]));
            }
        }
    } else {
        assert(s.take(s.len() as int) =~= s);
    }
}

/// A trimmed text neither starts nor ends with white space, and what was taken off on both
/// sides is white space.
pub proof fn law_trimming_takes_white_space(s: Seq<char>)
    ensures
        exists|a: int, b: int|
            0 <= a <= b <= s.len() && #[trigger] s.subrange(a, b) == trimmed(s) && forall|i: int|
                0 <= i < a || b <= i < s.len() ==> is_space(#[trigger] s[i]),
        trimmed(s).len() > 0 ==> !is_space(trimmed(s)[0]) && !is_space(trimmed(s).last()),
        forall|c: char| c <= '\u{7f}' ==> (#[trigger] is_space(c) <==> '\u{9}' <= c <= '\u{d}' || c
            == ' '),
{
    lemma_trimmed_start(s);
    let t = trimmed_start(s);
    lemma_trimmed_end(t);
    let a = choose|n: int|
        0 <= n <= s.len() && #[trigger] s.skip(n) == t && forall|i: int|
            0 <= i < n ==> is_space(#[trigger] s[i]);
    let n = choose|n: int|
        0 <= n <= t.len() && #[trigger] t.take(n) == trimmed_end(t) && forall|i: int|
            n <= i < t.len() ==> is_space(#[trigger] t[i]);
    let b = a + n;
    assert(s.subrange(a, b) =~= t.take(n));
    assert forall|i: int| 0 <= i < a || b <= i < s.len() implies is_space(#[trigger] s[i]) by {
        if b <= i {
            assert(s[i] == t[i - a]);
        }
    }
    if n > 0 {
        assert(t.take(n)[0] == t[0]);
    }
}

/// The first place of a character from some place on holds the character or is the end, and
/// no place before it holds it.
pub proof fn law_first_place_is_the_first(s: Seq<char>, c: char, from: int)
    requires
        0 <= from <= s.len(),
    ensures
        ({
            let place = first_place(s, c, from);
            &&& from <= place <= s.len()
            &&& place < s.len() ==> s[place] == c
            &&& forall|i: int| from <= i < place ==> s[i] != c
        }),
    decreases s.len() - from,
{
    if from < s.len() && s[from] != c {
        law_first_place_is_the_first(s, c, from + 1);
    }
}

}
