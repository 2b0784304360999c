//! HCB scripts: the system descriptor behind the code area.
//!
//! A script starts with the offset of its system descriptor. The code lies
//! between that first field and the descriptor. The descriptor holds the entry
//! point, the sizes of the global areas, the game mode, the title and the table
//! of system calls.

use vstd::prelude::*;

use crate::bytes;
use crate::fault::{Fault, FvpFormatError};
use crate::nls::FvpNls;
use crate::text;

verus! {

pub const MAX_SYSCALLS: usize = 4096;

pub const MAX_STRING_BYTES: usize = 16_777_216;

#[derive(Debug, Clone)]
pub struct FvpSyscallDescriptor {
    pub id: u16,
    pub args: u8,
    pub name: String,
}

/// One system call: its number, its argument count and its name.
#[verifier::ext_equal]
pub struct SyscallView {
    pub id: u16,
    pub args: u8,
    pub name: Seq<char>,
}

impl FvpSyscallDescriptor {
    pub open spec fn view(&self) -> SyscallView {
        SyscallView { id: self.id, args: self.args, name: self.name@ }
    }
}

#[derive(Debug, Clone)]
pub struct FvpHcbHeader {
    pub sys_desc_offset: u32,
    pub entry_point: u32,
    pub non_volatile_global_count: u16,
    pub volatile_global_count: u16,
    pub game_mode: u8,
    pub width: u32,
    pub height: u32,
    pub title_byte_len: u32,
    pub syscalls: Vec<FvpSyscallDescriptor>,
    pub custom_syscall_count: u16,
}

#[verifier::ext_equal]
pub struct HeaderView {
    pub sys_desc_offset: u32,
    pub entry_point: u32,
    pub non_volatile_global_count: u16,
    pub volatile_global_count: u16,
    pub game_mode: u8,
    pub width: u32,
    pub height: u32,
    pub title_byte_len: u32,
    pub syscalls: Seq<SyscallView>,
    pub custom_syscall_count: u16,
}

pub open spec fn syscall_views(s: Seq<FvpSyscallDescriptor>) -> Seq<SyscallView> {
    Seq::new(s.len(), |i: int| s[i]@)
}

impl FvpHcbHeader {
    pub open spec fn view(&self) -> HeaderView {
        HeaderView {
            sys_desc_offset: self.sys_desc_offset,
            entry_point: self.entry_point,
            non_volatile_global_count: self.non_volatile_global_count,
            volatile_global_count: self.volatile_global_count,
            game_mode: self.game_mode,
            width: self.width,
            height: self.height,
            title_byte_len: self.title_byte_len,
            syscalls: syscall_views(self.syscalls@),
            custom_syscall_count: self.custom_syscall_count,
        }
    }
}

// ------------------------------------------------------------------ the model

/// Width and height that a game mode stands for.
pub open spec fn mode_size(mode: u8) -> Option<(u32, u32)> {
    match mode {
        0 => Some((640, 480)),
        1 => Some((800, 600)),
        2 => Some((1024, 768)),
        3 => Some((1280, 960)),
        4 => Some((1600, 1200)),
        5 => Some((640, 480)),
        6 => Some((1024, 576)),
        7 => Some((1024, 640)),
        8 => Some((1280, 720)),
        9 => Some((1280, 800)),
        10 => Some((1440, 810)),
        11 => Some((1440, 900)),
        12 => Some((1680, 945)),
        13 => Some((1680, 1050)),
        14 => Some((1920, 1080)),
        15 => Some((1920, 1200)),
        _ => None,
    }
}

/// A bounded string that ends in its only NUL byte.
pub open spec fn is_c_string(b: Seq<u8>) -> bool {
    &&& 0 < b.len() <= MAX_STRING_BYTES
    &&& b.last() == 0
    &&& !b.drop_last().contains(0u8)
}

pub open spec fn c_string_fault(subject: Seq<char>) -> Fault {
    Fault {
        code: "FVP_HCB_C_STRING"@,
        message: subject + " is not a bounded, single NUL-terminated string"@,
    }
}

/// The text of a C string, given how its bytes before the NUL decode.
pub open spec fn c_string_text(b: Seq<u8>, content: (Seq<char>, bool)) -> Result<Seq<char>, Fault> {
    if !is_c_string(b) {
        Err(c_string_fault("string"@))
    } else if content.1 {
        Err(
            crate::fault::fault(
                "FVP_HCB_ENCODING",
                "string cannot be decoded with the selected NLS",
            ),
        )
    } else {
        Ok(content.0)
    }
}

/// The text of a C string in the encoding `nls`.
pub open spec fn decoded_c_string(b: Seq<u8>, nls: FvpNls) -> Result<Seq<char>, Fault> {
    c_string_text(b, crate::nls::decoded(nls, b.drop_last()))
}

/// What is wrong with reading `count` bytes at `at`, if anything is.
pub open spec fn missing(b: Seq<u8>, at: int, count: int) -> Option<Fault> {
    if at + count > usize::MAX {
        Some(crate::fault::fault("FVP_HCB_CURSOR_OVERFLOW", "cursor overflowed"))
    } else if at + count > b.len() {
        Some(crate::fault::fault("FVP_HCB_TRUNCATED", "HCB ended while reading a field"))
    } else {
        None
    }
}

pub open spec fn symbol_char(c: char) -> bool {
    ||| 'a' <= c && c <= 'z'
    ||| 'A' <= c && c <= 'Z'
    ||| '0' <= c && c <= '9'
    ||| c == '_'
}

/// A name of 1 to 128 ASCII letters, digits and underscores.
pub open spec fn safe_symbol(name: Seq<char>) -> bool {
    &&& 1 <= name.len() <= 128
    &&& forall|i: int| 0 <= i < name.len() ==> symbol_char(#[trigger] name[i])
}

pub open spec fn has_name(calls: Seq<SyscallView>, name: Seq<char>) -> bool {
    exists|i: int| 0 <= i < calls.len() && (#[trigger] calls[i]).name == name
}

/// Whether a decoded name may join the table: a safe symbol that is new.
pub open spec fn admitted_name(seen: Seq<SyscallView>, name: Seq<char>) -> Result<(), Fault> {
    if !safe_symbol(name) {
        Err(crate::fault::fault("FVP_HCB_SYSCALL_NAME", "syscall name is not a safe symbol"))
    } else if has_name(seen, name) {
        Err(crate::fault::fault("FVP_HCB_SYSCALL_DUPLICATE", "syscall name is duplicated"))
    } else {
        Ok(())
    }
}

/// The record at `at`, which follows the calls `seen`, and where it ends: one
/// byte for the argument count, one for the length of the name, and the name.
pub open spec fn syscall_record(b: Seq<u8>, at: int, seen: Seq<SyscallView>, nls: FvpNls) -> Result<
    (SyscallView, int),
    Fault,
> {
    if let Some(f) = missing(b, at, 1) {
        Err(f)
    } else if let Some(f) = missing(b, at + 1, 1) {
        Err(f)
    } else if let Some(f) = missing(b, at + 2, b[at + 1] as int) {
        Err(f)
    } else {
        let name_bytes = b.subrange(at + 2, at + 2 + b[at + 1]);
        if !is_c_string(name_bytes) {
            Err(c_string_fault("syscall name"@))
        } else {
            match decoded_c_string(name_bytes, nls) {
                Err(f) => Err(f),
                Ok(name) => match admitted_name(seen, name) {
                    Err(f) => Err(f),
                    Ok(_) => Ok(
                        (
                            SyscallView { id: seen.len() as u16, args: b[at], name },
                            at + 2 + b[at + 1],
                        ),
                    ),
                },
            }
        }
    }
}

/// The table of `count` calls whose first `seen.len()` are read already and
/// whose next record is at `at`; with it, where the table ends.
pub open spec fn syscall_table(
    b: Seq<u8>,
    at: int,
    seen: Seq<SyscallView>,
    count: int,
    nls: FvpNls,
) -> Result<(Seq<SyscallView>, int), Fault>
    decreases count - seen.len(),
{
    if seen.len() >= count {
        Ok((seen, at))
    } else {
        match syscall_record(b, at, seen, nls) {
            Err(f) => Err(f),
            Ok(next) => syscall_table(b, next.1, seen.push(next.0), count, nls),
        }
    }
}

/// The header that `b` carries in the encoding `nls`, or what is wrong with it.
pub open spec fn header_of(b: Seq<u8>, nls: FvpNls) -> Result<HeaderView, Fault> {
    if b.len() < 4 {
        Err(crate::fault::fault("FVP_HCB_HEADER", "HCB is shorter than its offset header"))
    } else {
        descriptor_of(b, bytes::u32_at(b, 0), nls)
    }
}

/// The header whose descriptor is at `desc`.
pub open spec fn descriptor_of(b: Seq<u8>, desc: u32, nls: FvpNls) -> Result<HeaderView, Fault> {
    let at = desc as int;
    if at < 4 || at >= b.len() {
        Err(
            crate::fault::fault(
                "FVP_HCB_DESCRIPTOR_OFFSET",
                "system descriptor offset is outside the file",
            ),
        )
    } else if let Some(f) = missing(b, at, 4) {
        Err(f)
    } else if bytes::u32_at(b, at) < 4 || bytes::u32_at(b, at) >= desc {
        Err(crate::fault::fault("FVP_HCB_ENTRY_POINT", "entry point is outside the code area"))
    } else if let Some(f) = missing(b, at + 4, 2) {
        Err(f)
    } else if let Some(f) = missing(b, at + 6, 2) {
        Err(f)
    } else if let Some(f) = missing(b, at + 8, 1) {
        Err(f)
    } else if let Some(f) = missing(b, at + 9, 1) {
        Err(f)
    } else if mode_size(b[at + 8]) is None {
        Err(crate::fault::fault("FVP_HCB_GAME_MODE", "game mode is unsupported"))
    } else if let Some(f) = missing(b, at + 10, 1) {
        Err(f)
    } else if let Some(f) = missing(b, at + 11, b[at + 10] as int) {
        Err(f)
    } else {
        calls_of(b, desc, nls)
    }
}

/// The header whose descriptor is at `desc` and complete up to its title.
pub open spec fn calls_of(b: Seq<u8>, desc: u32, nls: FvpNls) -> Result<HeaderView, Fault> {
    let at = desc as int;
    let title_len = b[at + 10] as int;
    let title = b.subrange(at + 11, at + 11 + title_len);
    let table = at + 11 + title_len;
    if !is_c_string(title) {
        Err(c_string_fault("title"@))
    } else if decoded_c_string(title, nls) is Err {
        Err(decoded_c_string(title, nls)->Err_0)
    } else if let Some(f) = missing(b, table, 2) {
        Err(f)
    } else if bytes::u16_at(b, table) > MAX_SYSCALLS {
        Err(
            crate::fault::fault(
                "FVP_HCB_SYSCALL_COUNT",
                "syscall count exceeds the supported bound",
            ),
        )
    } else {
        match syscall_table(b, table + 2, Seq::empty(), bytes::u16_at(b, table) as int, nls) {
            Err(f) => Err(f),
            Ok(calls) => if let Some(f) = missing(b, calls.1, 2) {
                Err(f)
            } else {
                Ok(
                    HeaderView {
                        sys_desc_offset: desc,
                        entry_point: bytes::u32_at(b, at),
                        non_volatile_global_count: bytes::u16_at(b, at + 4),
                        volatile_global_count: bytes::u16_at(b, at + 6),
                        game_mode: b[at + 8],
                        width: (mode_size(b[at + 8])->0).0,
                        height: (mode_size(b[at + 8])->0).1,
                        title_byte_len: title_len as u32,
                        syscalls: calls.0,
                        custom_syscall_count: bytes::u16_at(b, calls.1),
                    },
                )
            },
        }
    }
}

// -------------------------------------------------------------------- reading

pub fn game_mode_size(mode: u8) -> (r: Option<(u32, u32)>)
    ensures
        r == mode_size(mode),
{
    match mode {
        0 => Some((640, 480)),
        1 => Some((800, 600)),
        2 => Some((1024, 768)),
        3 => Some((1280, 960)),
        4 => Some((1600, 1200)),
        5 => Some((640, 480)),
        6 => Some((1024, 576)),
        7 => Some((1024, 640)),
        8 => Some((1280, 720)),
        9 => Some((1280, 800)),
        10 => Some((1440, 810)),
        11 => Some((1440, 900)),
        12 => Some((1680, 945)),
        13 => Some((1680, 1050)),
        14 => Some((1920, 1080)),
        15 => Some((1920, 1200)),
        _ => None,
    }
}

fn check_c_string(b: &[u8]) -> (r: bool)
    ensures
        r == is_c_string(b@),
{
    if b.len() == 0 || b.len() > MAX_STRING_BYTES || b[b.len() - 1] != 0 {
        return false;
    }
    let mut i: usize = 0;
    while i < b.len() - 1
        invariant
            0 < b.len(),
            i <= b.len() - 1,
            forall|j: int| 0 <= j < i ==> b@[j] != 0,
        decreases b.len() - i,
    {
        if b[i] == 0 {
            assert(b@.drop_last()[i as int] == 0);
            return false;
        }
        i = i + 1;
    }
    true
}

/// Accepts a bounded, single NUL-terminated string.
pub fn validate_c_string(b: &[u8], subject: &str) -> (r: Result<(), FvpFormatError>)
    ensures
        is_c_string(b@) ==> r is Ok,
        !is_c_string(b@) ==> r is Err && r->Err_0@ == c_string_fault(subject@),
{
    if check_c_string(b) {
        Ok(())
    } else {
        let message = text::join2(subject, " is not a bounded, single NUL-terminated string");
        Err(FvpFormatError::new("FVP_HCB_C_STRING", message.as_str()))
    }
}

/// The text of the C string `b` whose content decodes to `content`.
pub fn c_string_content(b: &[u8], content: (String, bool)) -> (r: Result<String, FvpFormatError>)
    ensures
        match r {
            Ok(t) => c_string_text(b@, (content.0@, content.1)) == Ok::<Seq<char>, Fault>(t@),
            Err(e) => c_string_text(b@, (content.0@, content.1)) == Err::<Seq<char>, Fault>(e@),
        },
{
    match validate_c_string(b, "string") {
        Err(e) => Err(e),
        Ok(_) => if content.1 {
            Err(
                FvpFormatError::new(
                    "FVP_HCB_ENCODING",
                    "string cannot be decoded with the selected NLS",
                ),
            )
        } else {
            Ok(content.0)
        },
    }
}

/// Decodes the C string `b` in the encoding `nls`.
pub fn decode_c_string(b: &[u8], nls: FvpNls) -> (r: Result<String, FvpFormatError>)
    ensures
        match r {
            Ok(t) => decoded_c_string(b@, nls) == Ok::<Seq<char>, Fault>(t@),
            Err(e) => decoded_c_string(b@, nls) == Err::<Seq<char>, Fault>(e@),
        },
{
    match validate_c_string(b, "string") {
        Err(e) => Err(e),
        Ok(_) => {
            let inner = vstd::slice::slice_subrange(b, 0, b.len() - 1);
            assert(inner@ =~= b@.drop_last());
            let content = nls.decode(inner);
            c_string_content(b, content)
        },
    }
}

fn is_safe_symbol(name: &Vec<char>) -> (r: bool)
    ensures
        r == safe_symbol(name@),
{
    if name.len() == 0 || name.len() > 128 {
        return false;
    }
    let mut i: usize = 0;
    while i < name.len()
        invariant
            i <= name.len(),
            forall|j: int| 0 <= j < i ==> symbol_char(#[trigger] name@[j]),
        decreases name.len() - i,
    {
        let c = name[i];
        if !(('a' <= c && c <= 'z') || ('A' <= c && c <= 'Z') || ('0' <= c && c <= '9') || c == '_') {
            assert(!symbol_char(name@[i as int]));
            return false;
        }
        i = i + 1;
    }
    true
}

/// Admits a decoded system call name behind the calls `seen`.
pub fn admit_name(seen: &Vec<FvpSyscallDescriptor>, name: &String) -> (r: Result<(), FvpFormatError>)
    ensures
        match r {
            Ok(_) => admitted_name(syscall_views(seen@), name@) is Ok,
            Err(e) => admitted_name(syscall_views(seen@), name@) == Err::<(), Fault>(e@),
        },
{
    let chars = text::chars_of(name.as_str());
    if !is_safe_symbol(&chars) {
        return Err(FvpFormatError::new("FVP_HCB_SYSCALL_NAME", "syscall name is not a safe symbol"));
    }
    let ghost views = syscall_views(seen@);
    let mut i: usize = 0;
    while i < seen.len()
        invariant
            i <= seen.len(),
            views == syscall_views(seen@),
            safe_symbol(name@),
            forall|j: int| 0 <= j < i ==> (#[trigger] views[j]).name != name@,
        decreases seen.len() - i,
    {
        if text::same_text(seen[i].name.as_str(), name.as_str()) {
            assert(views[i as int].name == name@);
            return Err(
                FvpFormatError::new("FVP_HCB_SYSCALL_DUPLICATE", "syscall name is duplicated"),
            );
        }
        assert(views[i as int].name != name@);
        i = i + 1;
    }
    Ok(())
}

/// A reading position in a script.
struct Cursor<'a> {
    bytes: &'a [u8],
    position: usize,
}

impl<'a> Cursor<'a> {
    fn take(&mut self, count: usize) -> (r: Result<usize, FvpFormatError>)
        ensures
            final(self).bytes == old(self).bytes,
            match r {
                Ok(start) => {
                    &&& missing(old(self).bytes@, old(self).position as int, count as int) is None
                    &&& start == old(self).position
                    &&& final(self).position == old(self).position + count
                },
                Err(e) => {
                    &&& missing(old(self).bytes@, old(self).position as int, count as int) == Some(e@)
                    &&& final(self).position == old(self).position
                },
            },
    {
        match self.position.checked_add(count) {
            None => Err(FvpFormatError::new("FVP_HCB_CURSOR_OVERFLOW", "cursor overflowed")),
            Some(end) => if end > self.bytes.len() {
                Err(FvpFormatError::new("FVP_HCB_TRUNCATED", "HCB ended while reading a field"))
            } else {
                let start: usize = self.position;
                self.position = end;
                Ok(start)
            },
        }
    }

    fn u8(&mut self) -> (r: Result<u8, FvpFormatError>)
        ensures
            final(self).bytes == old(self).bytes,
            match r {
                Ok(v) => {
                    &&& missing(old(self).bytes@, old(self).position as int, 1) is None
                    &&& v == old(self).bytes@[old(self).position as int]
                    &&& final(self).position == old(self).position + 1
                },
                Err(e) => missing(old(self).bytes@, old(self).position as int, 1) == Some(e@),
            },
    {
        match self.take(1) {
            Ok(start) => Ok(self.bytes[start]),
            Err(e) => Err(e),
        }
    }

    fn u16(&mut self) -> (r: Result<u16, FvpFormatError>)
        ensures
            final(self).bytes == old(self).bytes,
            match r {
                Ok(v) => {
                    &&& missing(old(self).bytes@, old(self).position as int, 2) is None
                    &&& v == bytes::u16_at(old(self).bytes@, old(self).position as int)
                    &&& final(self).position == old(self).position + 2
                },
                Err(e) => missing(old(self).bytes@, old(self).position as int, 2) == Some(e@),
            },
    {
        match self.take(2) {
            Ok(start) => Ok(bytes::read_u16(self.bytes, start)),
            Err(e) => Err(e),
        }
    }

    fn u32(&mut self) -> (r: Result<u32, FvpFormatError>)
        ensures
            final(self).bytes == old(self).bytes,
            match r {
                Ok(v) => {
                    &&& missing(old(self).bytes@, old(self).position as int, 4) is None
                    &&& v == bytes::u32_at(old(self).bytes@, old(self).position as int)
                    &&& final(self).position == old(self).position + 4
                },
                Err(e) => missing(old(self).bytes@, old(self).position as int, 4) == Some(e@),
            },
    {
        match self.take(4) {
            Ok(start) => Ok(bytes::read_u32(self.bytes, start)),
            Err(e) => Err(e),
        }
    }

    /// The next record of the table behind the calls `seen`.
    fn syscall(&mut self, seen: &Vec<FvpSyscallDescriptor>, nls: FvpNls) -> (r: Result<
        FvpSyscallDescriptor,
        FvpFormatError,
    >)
        requires
            seen.len() < MAX_SYSCALLS,
        ensures
            final(self).bytes == old(self).bytes,
            match r {
                Ok(d) => syscall_record(
                    old(self).bytes@,
                    old(self).position as int,
                    syscall_views(seen@),
                    nls,
                ) == Ok::<(SyscallView, int), Fault>((d@, final(self).position as int)),
                Err(e) => syscall_record(
                    old(self).bytes@,
                    old(self).position as int,
                    syscall_views(seen@),
                    nls,
                ) == Err::<(SyscallView, int), Fault>(e@),
            },
    {
        let args: u8 = match self.u8() {
            Ok(v) => v,
            Err(e) => return Err(e),
        };
        let len: usize = match self.u8() {
            Ok(v) => v as usize,
            Err(e) => return Err(e),
        };
        let start: usize = match self.take(len) {
            Ok(v) => v,
            Err(e) => return Err(e),
        };
        let name_bytes = vstd::slice::slice_subrange(self.bytes, start, start + len);
        match validate_c_string(name_bytes, "syscall name") {
            Ok(_) => {},
            Err(e) => return Err(e),
        }
        let name = match decode_c_string(name_bytes, nls) {
            Ok(v) => v,
            Err(e) => return Err(e),
        };
        match admit_name(seen, &name) {
            Ok(_) => {},
            Err(e) => return Err(e),
        }
        Ok(FvpSyscallDescriptor { id: seen.len() as u16, args, name })
    }
}

/// A script with its parsed header.
#[derive(Debug, Clone)]
pub struct FvpHcbScript {
    pub header: FvpHcbHeader,
    pub bytes: Vec<u8>,
    pub nls: FvpNls,
}

impl FvpHcbScript {
    /// The whole file.
    pub open spec fn file(&self) -> Seq<u8> {
        self.bytes@
    }

    pub open spec fn encoding(&self) -> FvpNls {
        self.nls
    }

    /// The code area lies inside the file.
    pub open spec fn wf(&self) -> bool {
        4 <= self.header.sys_desc_offset <= self.file().len()
    }

    pub fn parse(bytes: Vec<u8>, nls: FvpNls) -> (r: Result<Self, FvpFormatError>)
        ensures
            match r {
                Ok(s) => {
                    &&& header_of(bytes@, nls) == Ok::<HeaderView, Fault>(s.header@)
                    &&& s.file() == bytes@
                    &&& s.encoding() == nls
                    &&& s.wf()
                },
                Err(e) => header_of(bytes@, nls) == Err::<HeaderView, Fault>(e@),
            },
    {
        match parse_header(bytes.as_slice(), nls) {
            Ok(header) => Ok(FvpHcbScript { header, bytes, nls }),
            Err(e) => Err(e),
        }
    }

    /// The code area: what lies between the first field and the descriptor.
    pub fn code(&self) -> (r: &[u8])
        requires
            self.wf(),
        ensures
            r@ == self.file().subrange(4, self.header.sys_desc_offset as int),
    {
        vstd::slice::slice_subrange(self.bytes.as_slice(), 4, self.header.sys_desc_offset as usize)
    }

    pub fn bytes(&self) -> (r: &[u8])
        ensures
            r@ == self.file(),
    {
        self.bytes.as_slice()
    }

    pub fn nls(&self) -> (r: FvpNls)
        ensures
            r == self.encoding(),
    {
        self.nls
    }

    /// The system call with the number `id`.
    pub fn syscall(&self, id: u16) -> (r: Option<&FvpSyscallDescriptor>)
        ensures
            match r {
                Some(d) => id < self.header.syscalls.len() && *d == self.header.syscalls@[id as int],
                None => id >= self.header.syscalls.len(),
            },
    {
        if (id as usize) < self.header.syscalls.len() {
            Some(&self.header.syscalls[id as usize])
        } else {
            None
        }
    }

    /// The text of a C string of this script.
    pub fn decode_script_string(&self, bytes: &[u8]) -> (r: Result<String, FvpFormatError>)
        ensures
            match r {
                Ok(t) => decoded_c_string(bytes@, self.encoding()) == Ok::<Seq<char>, Fault>(t@),
                Err(e) => decoded_c_string(bytes@, self.encoding()) == Err::<Seq<char>, Fault>(e@),
            },
    {
        decode_c_string(bytes, self.nls)
    }
}

/// Reads the header of the script `b`.
fn parse_header(b: &[u8], nls: FvpNls) -> (r: Result<FvpHcbHeader, FvpFormatError>)
    ensures
        match r {
            Ok(h) => {
                &&& header_of(b@, nls) == Ok::<HeaderView, Fault>(h@)
                &&& 4 <= h.sys_desc_offset < b.len()
            },
            Err(e) => header_of(b@, nls) == Err::<HeaderView, Fault>(e@),
        },
{
    if b.len() < 4 {
        return Err(FvpFormatError::new("FVP_HCB_HEADER", "HCB is shorter than its offset header"));
    }
    let sys_desc_offset: u32 = bytes::read_u32(b, 0);
    let offset: usize = sys_desc_offset as usize;
    if offset < 4 || offset >= b.len() {
        return Err(
            FvpFormatError::new(
                "FVP_HCB_DESCRIPTOR_OFFSET",
                "system descriptor offset is outside the file",
            ),
        );
    }
    let mut cursor = Cursor { bytes: b, position: offset };
    let entry_point: u32 = match cursor.u32() {
        Ok(v) => v,
        Err(e) => return Err(e),
    };
    if entry_point < 4 || entry_point >= sys_desc_offset {
        return Err(FvpFormatError::new("FVP_HCB_ENTRY_POINT", "entry point is outside the code area"));
    }
    let non_volatile_global_count: u16 = match cursor.u16() {
        Ok(v) => v,
        Err(e) => return Err(e),
    };
    let volatile_global_count: u16 = match cursor.u16() {
        Ok(v) => v,
        Err(e) => return Err(e),
    };
    let game_mode: u8 = match cursor.u8() {
        Ok(v) => v,
        Err(e) => return Err(e),
    };
    match cursor.u8() {
        Ok(_) => {},
        Err(e) => return Err(e),
    }
    let (width, height): (u32, u32) = match game_mode_size(game_mode) {
        Some(v) => v,
        None => return Err(FvpFormatError::new("FVP_HCB_GAME_MODE", "game mode is unsupported")),
    };
    let title_len: usize = match cursor.u8() {
        Ok(v) => v as usize,
        Err(e) => return Err(e),
    };
    let title_start: usize = match cursor.take(title_len) {
        Ok(v) => v,
        Err(e) => return Err(e),
    };
    assert(header_of(b@, nls) == calls_of(b@, sys_desc_offset, nls));
    let title = vstd::slice::slice_subrange(b, title_start, title_start + title_len);
    match validate_c_string(title, "title") {
        Ok(_) => {},
        Err(e) => return Err(e),
    }
    match decode_c_string(title, nls) {
        Ok(_) => {},
        Err(e) => return Err(e),
    }
    let count: usize = match cursor.u16() {
        Ok(v) => v as usize,
        Err(e) => return Err(e),
    };
    if count > MAX_SYSCALLS {
        return Err(
            FvpFormatError::new(
                "FVP_HCB_SYSCALL_COUNT",
                "syscall count exceeds the supported bound",
            ),
        );
    }
    let mut syscalls: Vec<FvpSyscallDescriptor> = Vec::new();
    let ghost table = syscall_table(b@, cursor.position as int, Seq::empty(), count as int, nls);
    assert(syscall_views(syscalls@) =~= Seq::<SyscallView>::empty());
    while syscalls.len() < count
        invariant
            syscalls.len() <= count <= MAX_SYSCALLS,
            cursor.bytes@ == b@,
            table == syscall_table(
                b@,
                cursor.position as int,
                syscall_views(syscalls@),
                count as int,
                nls,
            ),
            header_of(b@, nls) == calls_of(b@, sys_desc_offset, nls),
            table is Err ==> calls_of(b@, sys_desc_offset, nls) == Err::<HeaderView, Fault>(table->Err_0),
        decreases count - syscalls.len(),
    {
        match cursor.syscall(&syscalls, nls) {
            Ok(d) => {
                let ghost before = syscall_views(syscalls@);
                syscalls.push(d);
                assert(syscall_views(syscalls@) =~= before.push(d@));
            },
            Err(e) => return Err(e),
        }
    }
    let custom_syscall_count: u16 = match cursor.u16() {
        Ok(v) => v,
        Err(e) => return Err(e),
    };
    Ok(
        FvpHcbHeader {
            sys_desc_offset,
            entry_point,
            non_volatile_global_count,
            volatile_global_count,
            game_mode,
            width,
            height,
            title_byte_len: title_len as u32,
            syscalls,
            custom_syscall_count,
        },
    )
}

// ----------------------------------------------------------------------- laws

/// Calls that are numbered by their place and carry distinct safe names.
pub open spec fn well_named(calls: Seq<SyscallView>) -> bool {
    &&& forall|i: int| 0 <= i < calls.len() ==> (#[trigger] calls[i]).id == i && safe_symbol(calls[i].name)
    &&& forall|i: int, j: int|
        0 <= i < j < calls.len() ==> (#[trigger] calls[i]).name != (#[trigger] calls[j]).name
}

proof fn lemma_table_well_named(b: Seq<u8>, at: int, seen: Seq<SyscallView>, count: int, nls: FvpNls)
    requires
        well_named(seen),
        count <= MAX_SYSCALLS,
        seen.len() <= count,
        syscall_table(b, at, seen, count, nls) is Ok,
    ensures
        well_named(syscall_table(b, at, seen, count, nls)->Ok_0.0),
        syscall_table(b, at, seen, count, nls)->Ok_0.0.len() == count,
    decreases count - seen.len(),
{
    if seen.len() < count {
        let next = syscall_record(b, at, seen, nls)->Ok_0;
        let more = seen.push(next.0);
        assert forall|i: int, j: int| 0 <= i < j < more.len() implies (#[trigger] more[i]).name != (
        #[trigger] more[j]).name by {
            if j == seen.len() {
                assert(seen[i].name != next.0.name);
            }
        }
        lemma_table_well_named(b, next.1, more, count, nls);
    }
}

/// An accepted script starts inside its code area, has a supported screen size
/// and a table of at most `MAX_SYSCALLS` calls, each numbered by its place, with
/// distinct safe names.
pub proof fn law_accepted_header_is_consistent(b: Seq<u8>, nls: FvpNls)
    requires
        header_of(b, nls) is Ok,
    ensures
        ({
            let h = header_of(b, nls)->Ok_0;
            &&& 4 <= h.entry_point < h.sys_desc_offset < b.len()
            &&& mode_size(h.game_mode) == Some((h.width, h.height))
            &&& h.syscalls.len() <= MAX_SYSCALLS
            &&& well_named(h.syscalls)
        }),
{
    let desc = bytes::u32_at(b, 0);
    let table = desc + 11 + b[desc + 10];
    lemma_table_well_named(
        b,
        table + 2,
        Seq::empty(),
        bytes::u16_at(b, table as int) as int,
        nls,
    );
}

/// A system call as it is written: argument count, length of the name with its NUL, the
/// name and the NUL.
pub open spec fn call_bytes(args: u8, name: Seq<u8>) -> Seq<u8> {
    seq![args, (name.len() + 1) as u8] + name + seq![0u8]
}

/// System calls as they are written, one behind the other.
pub open spec fn table_bytes(calls: Seq<(u8, Seq<u8>)>) -> Seq<u8>
    decreases calls.len(),
{
    if calls.len() == 0 {
        Seq::empty()
    } else {
        call_bytes(calls[0].0, calls[0].1) + table_bytes(calls.skip(1))
    }
}

/// Whether bytes are the name of a call: they fit in their field, hold no NUL and read
/// as a name of 1 to 128 letters, digits and underscores.
pub open spec fn writable_name(name: Seq<u8>, nls: FvpNls) -> bool {
    let read = crate::nls::decoded(nls, name);
    &&& name.len() < 255
    &&& !name.contains(0u8)
    &&& !read.1
    &&& 1 <= read.0.len() <= 128
    &&& forall|i: int|
        0 <= i < read.0.len() ==> {
            let c = #[trigger] read.0[i];
            ('a' <= c && c <= 'z') || ('A' <= c && c <= 'Z') || ('0' <= c && c <= '9') || c == '_'
        }
}

/// A script as it is written: the place of its descriptor, the code, and the descriptor
/// with entry point, counts of variables, mode, a byte that says nothing, title, calls
/// and the count of custom calls.
pub open spec fn script_bytes(
    code: Seq<u8>,
    entry_point: u32,
    non_volatile: u16,
    volatile: u16,
    mode: u8,
    unused: u8,
    title: Seq<u8>,
    calls: Seq<(u8, Seq<u8>)>,
    custom: u16,
) -> Seq<u8> {
    bytes::le32((4 + code.len()) as u32) + code + bytes::le32(entry_point) + bytes::le16(non_volatile)
        + bytes::le16(volatile) + seq![mode, unused, (title.len() + 1) as u8] + title + seq![0u8]
        + bytes::le16(calls.len() as u16) + table_bytes(calls) + bytes::le16(custom)
}

/// The calls that are read from those written before `n`.
spec fn read_calls(calls: Seq<(u8, Seq<u8>)>, n: int, nls: FvpNls) -> Seq<SyscallView> {
    Seq::new(
        n as nat,
        |i: int|
            SyscallView {
                id: i as u16,
                args: calls[i].0,
                name: crate::nls::decoded(nls, calls[i].1).0,
            },
    )
}

proof fn lemma_written_c_string(name: Seq<u8>)
    requires
        name.len() < 255,
        !name.contains(0u8),
    ensures
        is_c_string(name + seq![0u8]),
        (name + seq![0u8]).drop_last() == name,
{
    assert((name + seq![0u8]).drop_last() =~= name);
}

/// The calls from `n` on are read from where they are written.
#[verifier::rlimit(60)]
proof fn lemma_written_calls(
    b: Seq<u8>,
    at: int,
    calls: Seq<(u8, Seq<u8>)>,
    n: int,
    nls: FvpNls,
)
    requires
        0 <= n <= calls.len() <= MAX_SYSCALLS,
        0 <= at,
        at + table_bytes(calls.skip(n)).len() <= b.len() <= usize::MAX,
        b.subrange(at, at + table_bytes(calls.skip(n)).len()) == table_bytes(calls.skip(n)),
        forall|i: int| 0 <= i < calls.len() ==> writable_name((#[trigger] calls[i]).1, nls),
        forall|i: int, j: int|
            0 <= i < j < calls.len() ==> crate::nls::decoded(nls, (#[trigger] calls[i]).1).0
                != crate::nls::decoded(nls, (#[trigger] calls[j]).1).0,
    ensures
        syscall_table(b, at, read_calls(calls, n, nls), calls.len() as int, nls) == Ok::<
            (Seq<SyscallView>, int),
            Fault,
        >((read_calls(calls, calls.len() as int, nls), at + table_bytes(calls.skip(n)).len())),
    decreases calls.len() - n,
{
    let seen = read_calls(calls, n, nls);
    let rest = calls.skip(n);
    if n < calls.len() {
        let (args, name) = calls[n];
        let here = call_bytes(args, name);
        let more = table_bytes(rest.skip(1));
        assert(rest[0] == calls[n]);
        assert(rest.skip(1) =~= calls.skip(n + 1));
        assert(table_bytes(rest) == here + more);
        let field = b.subrange(at, at + table_bytes(rest).len());
        assert forall|i: int| 0 <= i < here.len() implies b[at + i] == #[trigger] here[i] by {
            assert(field[i] == (here + more)[i]);
        }
        assert(b[at] == here[0] && here[0] == args);
        assert(b[at + 1] == here[1] && here[1] == (name.len() + 1) as u8);
        let end = at + here.len();
        assert(here.len() == name.len() + 3);
        let name_bytes = b.subrange(at + 2, end);
        assert(name_bytes =~= name + seq![0u8]) by {
            assert forall|i: int| 0 <= i < name_bytes.len() implies name_bytes[i] == (name + seq![
                0u8,
            ])[i] by {
                assert(b[at + (2 + i)] == here[2 + i]);
            }
        }
        assert(writable_name(calls[n].1, nls));
        lemma_written_c_string(name);
        let text = crate::nls::decoded(nls, name).0;
        assert(safe_symbol(text));
        assert(!has_name(seen, text)) by {
            if has_name(seen, text) {
                let i = choose|i: int| 0 <= i < seen.len() && (#[trigger] seen[i]).name == text;
                assert(crate::nls::decoded(nls, calls[i].1).0 != crate::nls::decoded(
                    nls,
                    calls[n].1,
                ).0);
            }
        }
        let next = SyscallView { id: n as u16, args, name: text };
        assert(syscall_record(b, at, seen, nls) == Ok::<(SyscallView, int), Fault>((next, end)));
        assert(seen.push(next) =~= read_calls(calls, n + 1, nls));
        assert(b.subrange(end, end + more.len()) =~= more) by {
            assert forall|i: int| 0 <= i < more.len() implies b.subrange(end, end + more.len())[i]
                == more[i] by {
                assert(field[here.len() + i] == (here + more)[here.len() + i]);
            }
        }
        lemma_written_calls(b, end, calls, n + 1, nls);
    } else {
        assert(rest.len() == 0);
    }
}

/// A script is read back as it was written: entry point, counts of variables, mode,
/// length of the title, the calls with their argument counts and names in their order,
/// numbered from zero, and the count of custom calls. What lies behind it is ignored.
#[verifier::rlimit(100)]
pub proof fn law_written_script_is_read_back(
    code: Seq<u8>,
    entry_point: u32,
    non_volatile: u16,
    volatile: u16,
    mode: u8,
    unused: u8,
    title: Seq<u8>,
    calls: Seq<(u8, Seq<u8>)>,
    custom: u16,
    after: Seq<u8>,
    nls: FvpNls,
)
    requires
        code.len() + 4 <= u32::MAX,
        4 <= entry_point < 4 + code.len(),
        mode <= 15,
        title.len() < 255,
        !title.contains(0u8),
        !crate::nls::decoded(nls, title).1,
        calls.len() <= 4096,
        forall|i: int| 0 <= i < calls.len() ==> writable_name((#[trigger] calls[i]).1, nls),
        forall|i: int, j: int|
            0 <= i < j < calls.len() ==> crate::nls::decoded(nls, (#[trigger] calls[i]).1).0
                != crate::nls::decoded(nls, (#[trigger] calls[j]).1).0,
        (script_bytes(
            code,
            entry_point,
            non_volatile,
            volatile,
            mode,
            unused,
            title,
            calls,
            custom,
        ) + after).len() <= usize::MAX,
    ensures
        header_of(
            script_bytes(
                code,
                entry_point,
                non_volatile,
                volatile,
                mode,
                unused,
                title,
                calls,
                custom,
            ) + after,
            nls,
        ) matches Ok(header) && {
            &&& header.sys_desc_offset == 4 + code.len()
            &&& header.entry_point == entry_point
            &&& header.non_volatile_global_count == non_volatile
            &&& header.volatile_global_count == volatile
            &&& header.game_mode == mode
            &&& header.title_byte_len == title.len() + 1
            &&& header.custom_syscall_count == custom
            &&& header.syscalls.len() == calls.len()
            &&& forall|i: int|
                0 <= i < calls.len() ==> {
                    &&& (#[trigger] header.syscalls[i]).id == i
                    &&& header.syscalls[i].args == calls[i].0
                    &&& header.syscalls[i].name == crate::nls::decoded(nls, calls[i].1).0
                }
        },
{
    let desc = (4 + code.len()) as u32;
    let at = desc as int;
    let p0 = bytes::le32(desc);
    let p1 = bytes::le32(entry_point);
    let p2 = bytes::le16(non_volatile);
    let p3 = bytes::le16(volatile);
    let p4 = seq![mode, unused, (title.len() + 1) as u8];
    let p5 = title + seq![0u8];
    let p6 = bytes::le16(calls.len() as u16);
    let p7 = table_bytes(calls);
    let p8 = bytes::le16(custom);
    let b = script_bytes(
        code,
        entry_point,
        non_volatile,
        volatile,
        mode,
        unused,
        title,
        calls,
        custom,
    ) + after;
    let t = at + 11 + title.len() + 1;
    assert(b =~= p0 + code + p1 + p2 + p3 + p4 + p5 + p6 + p7 + p8 + after);
    assert(b.subrange(0, 4) =~= p0);
    assert(b.subrange(at, at + 4) =~= p1);
    assert(b.subrange(at + 4, at + 6) =~= p2);
    assert(b.subrange(at + 6, at + 8) =~= p3);
    assert(b.subrange(at + 8, at + 11) =~= p4);
    assert(b[at + 8] == p4[0] && b[at + 9] == p4[1] && b[at + 10] == p4[2]) by {
        assert(b[at + 8] == b.subrange(at + 8, at + 11)[0]);
        assert(b[at + 9] == b.subrange(at + 8, at + 11)[1]);
        assert(b[at + 10] == b.subrange(at + 8, at + 11)[2]);
    }
    assert(b.subrange(at + 11, t) =~= p5);
    assert(b.subrange(t, t + 2) =~= p6);
    assert(b.subrange(t + 2, t + 2 + p7.len()) =~= p7);
    assert(b.subrange(t + 2 + p7.len(), t + 4 + p7.len()) =~= p8);
    bytes::lemma_read_at(b, 0, 0, desc);
    bytes::lemma_read_at(b, at, 0, entry_point);
    bytes::lemma_read_at(b, at + 4, non_volatile, 0);
    bytes::lemma_read_at(b, at + 6, volatile, 0);
    bytes::lemma_read_at(b, t, calls.len() as u16, 0);
    bytes::lemma_read_at(b, t + 2 + p7.len(), custom, 0);
    lemma_written_c_string(title);
    assert(calls.skip(0) =~= calls);
    assert(read_calls(calls, 0, nls) =~= Seq::<SyscallView>::empty());
    lemma_written_calls(b, t + 2, calls, 0, nls);
}

/// The screens: four by three in five sizes and once more in the smallest, then pairs of
/// wide ones, sixteen by nine and sixteen by ten, from the second size on. A mode beyond
/// them has none.
pub proof fn law_modes_have_their_screens(mode: u8)
    ensures
        mode > 15 <==> mode_size(mode) is None,
        mode <= 15 ==> {
            let (width, height) = mode_size(mode)->0;
            &&& mode <= 5 ==> 3 * width == 4 * height
            &&& (mode == 6 || mode == 8 || mode == 10 || mode == 12 || mode == 14) ==> 9 * width
                == 16 * height
            &&& (mode == 7 || mode == 9 || mode == 11 || mode == 13 || mode == 15) ==> 10 * width
                == 16 * height
            &&& width == if mode == 0 || mode == 5 {
                640int
            } else if mode == 1 {
                800
            } else if mode == 2 || mode == 6 || mode == 7 {
                1024
            } else if mode == 3 || mode == 8 || mode == 9 {
                1280
            } else if mode == 4 {
                1600
            } else if mode == 10 || mode == 11 {
                1440
            } else if mode == 12 || mode == 13 {
                1680
            } else {
                1920
            }
        },
{
}

/// The calls that were read from `at` on are written there.
proof fn lemma_read_calls(
    b: Seq<u8>,
    at: int,
    seen: Seq<SyscallView>,
    count: int,
    nls: FvpNls,
) -> (calls: Seq<(u8, Seq<u8>)>)
    requires
        0 <= at <= b.len(),
        seen.len() <= count <= MAX_SYSCALLS,
        syscall_table(b, at, seen, count, nls) is Ok,
    ensures
        ({
            let read = syscall_table(b, at, seen, count, nls)->Ok_0;
            &&& at <= read.1 <= b.len()
            &&& b.subrange(at, read.1) == table_bytes(calls)
            &&& calls.len() == count - seen.len()
            &&& read.0.len() == count
            &&& forall|i: int| 0 <= i < seen.len() ==> read.0[i] == seen[i]
            &&& forall|i: int|
                #![trigger calls[i]]
                0 <= i < calls.len() ==> {
                    &&& read.0[seen.len() + i].args == calls[i].0
                    &&& read.0[seen.len() + i].name == crate::nls::decoded(nls, calls[i].1).0
                    &&& writable_name(calls[i].1, nls)
                }
        }),
    decreases count - seen.len(),
{
    if seen.len() >= count {
        assert(b.subrange(at, at) =~= Seq::<u8>::empty());
        Seq::empty()
    } else {
        let (next, end) = syscall_record(b, at, seen, nls)->Ok_0;
        let field = b.subrange(at + 2, end);
        let name = field.drop_last();
        let rest = lemma_read_calls(b, end, seen.push(next), count, nls);
        let calls = seq![(b[at], name)] + rest;
        let here = call_bytes(b[at], name);
        assert(field.len() == b[at + 1]);
        assert(b.subrange(at, end) =~= here);
        let stop = syscall_table(b, at, seen, count, nls)->Ok_0.1;
        assert(calls.skip(1) =~= rest);
        assert(b.subrange(at, stop) =~= b.subrange(at, end) + b.subrange(end, stop));
        let read = syscall_table(b, at, seen, count, nls)->Ok_0.0;
        assert(read[seen.len() as int] == seen.push(next)[seen.len() as int]);
        assert forall|i: int| 0 <= i < seen.len() implies read[i] == seen[i] by {
            assert(read[i] == seen.push(next)[i]);
        }
        assert forall|i: int| #![trigger calls[i]] 0 <= i < calls.len() implies {
            &&& read[seen.len() + i].args == calls[i].0
            &&& read[seen.len() + i].name == crate::nls::decoded(nls, calls[i].1).0
            &&& writable_name(calls[i].1, nls)
        } by {
            if i > 0 {
                assert(calls[i] == rest[i - 1]);
            }
        }
        calls
    }
}

/// Whether `b` begins with a script as it is written, and `header` says what it is.
pub open spec fn is_script(
    b: Seq<u8>,
    header: HeaderView,
    nls: FvpNls,
    unused: u8,
    title: Seq<u8>,
    calls: Seq<(u8, Seq<u8>)>,
) -> bool {
    let code = b.subrange(4, header.sys_desc_offset as int);
    let written = script_bytes(
        code,
        header.entry_point,
        header.non_volatile_global_count,
        header.volatile_global_count,
        header.game_mode,
        unused,
        title,
        calls,
        header.custom_syscall_count,
    );
    &&& 4 <= header.entry_point < header.sys_desc_offset < b.len()
    &&& header.game_mode <= 15
    &&& title.len() < 255 && !title.contains(0u8) && !crate::nls::decoded(nls, title).1
    &&& header.title_byte_len == title.len() + 1
    &&& calls.len() <= 4096
    &&& header.syscalls.len() == calls.len()
    &&& forall|i: int|
        #![trigger calls[i]]
        0 <= i < calls.len() ==> {
            &&& header.syscalls[i].id == i
            &&& header.syscalls[i].args == calls[i].0
            &&& header.syscalls[i].name == crate::nls::decoded(nls, calls[i].1).0
            &&& writable_name(calls[i].1, nls)
        }
    &&& forall|i: int, j: int|
        0 <= i < j < header.syscalls.len() ==> (#[trigger] header.syscalls[i]).name != (
        #[trigger] header.syscalls[j]).name
    &&& written.len() <= b.len()
    &&& b.subrange(0, written.len() as int) == written
}

proof fn lemma_pieces(b: Seq<u8>, from: int, to: int)
    requires
        0 <= from <= to <= b.len(),
    ensures
        b.subrange(0, to) == b.subrange(0, from) + b.subrange(from, to),
{
    assert(b.subrange(0, to) =~= b.subrange(0, from) + b.subrange(from, to));
}

/// A script is made of its fields.
proof fn lemma_script_pieces(b: Seq<u8>, at: int, t: int, end: int)
    requires
        4 <= at,
        at + 12 <= t,
        t + 2 <= end,
        end + 2 <= b.len(),
    ensures
        b.subrange(0, end + 2) == b.subrange(0, 4) + b.subrange(4, at) + b.subrange(at, at + 4)
            + b.subrange(at + 4, at + 6) + b.subrange(at + 6, at + 8) + b.subrange(at + 8, at + 11)
            + b.subrange(at + 11, t - 1) + b.subrange(t - 1, t) + b.subrange(t, t + 2)
            + b.subrange(t + 2, end) + b.subrange(end, end + 2),
{
    lemma_pieces(b, 4, at);
    lemma_pieces(b, at, at + 4);
    lemma_pieces(b, at + 4, at + 6);
    lemma_pieces(b, at + 6, at + 8);
    lemma_pieces(b, at + 8, at + 11);
    lemma_pieces(b, at + 11, t - 1);
    lemma_pieces(b, t - 1, t);
    lemma_pieces(b, t, t + 2);
    lemma_pieces(b, t + 2, end);
    lemma_pieces(b, end, end + 2);
}

/// Only what is written as a script is accepted as one, and its header says what is written:
/// the converse of reading a script back.
#[verifier::rlimit(60)]
pub proof fn law_accepted_script_is_as_written(b: Seq<u8>, nls: FvpNls)
    requires
        header_of(b, nls) is Ok,
    ensures
        exists|unused: u8, title: Seq<u8>, calls: Seq<(u8, Seq<u8>)>| #[trigger]
            is_script(b, header_of(b, nls)->Ok_0, nls, unused, title, calls),
{
    let header = header_of(b, nls)->Ok_0;
    let at = header.sys_desc_offset as int;
    law_accepted_header_is_consistent(b, nls);
    law_modes_have_their_screens(header.game_mode);
    let unused = b[at + 9];
    let title_len = b[at + 10] as int;
    let field = b.subrange(at + 11, at + 11 + title_len);
    let title = field.drop_last();
    let t = at + 11 + title_len;
    let count = bytes::u16_at(b, t);
    let calls = lemma_read_calls(b, t + 2, Seq::empty(), count as int, nls);
    let end = syscall_table(b, t + 2, Seq::empty(), count as int, nls)->Ok_0.1;
    bytes::lemma_write_back(b, 0);
    bytes::lemma_write_back(b, at);
    bytes::lemma_write_back(b, at + 4);
    bytes::lemma_write_back(b, at + 6);
    bytes::lemma_write_back(b, t);
    bytes::lemma_write_back(b, end);
    assert(b.subrange(at + 8, at + 11) =~= seq![header.game_mode, unused, (title.len() + 1) as u8]);
    assert(b.subrange(at + 11, t - 1) =~= title);
    assert(b.subrange(t - 1, t) =~= seq![0u8]) by {
        assert(b[t - 1] == field.last());
    }
    lemma_script_pieces(b, at, t, end);
    assert(at == 4 + b.subrange(4, at).len());
    assert(is_script(b, header, nls, unused, title, calls));
}

/// What is said of a header is said of its own fields.
pub proof fn law_header_is_seen_as_it_is(header: FvpHcbHeader)
    ensures
        header@.sys_desc_offset == header.sys_desc_offset,
        header@.entry_point == header.entry_point,
        header@.non_volatile_global_count == header.non_volatile_global_count,
        header@.volatile_global_count == header.volatile_global_count,
        header@.game_mode == header.game_mode,
        header@.width == header.width,
        header@.height == header.height,
        header@.title_byte_len == header.title_byte_len,
        header@.custom_syscall_count == header.custom_syscall_count,
{
}

/// What is said of a system call is said of its own fields.
pub proof fn law_call_is_seen_as_it_is(call: FvpSyscallDescriptor)
    ensures
        call@.id == call.id,
        call@.args == call.args,
        call@.name == call.name@,
{
}

/// Why a script is refused, told in the order in which it is read: it is too short for the
/// place of its descriptor, or the place is outside the file; the entry point is outside the
/// code; the mode is none; the title is no string with one NUL at its end; there are more
/// calls than supported.
pub proof fn law_broken_scripts_are_told_apart(
    b: Seq<u8>,
    nls: FvpNls,
    desc: u32,
    entry_point: u32,
    calls: u16,
)
    requires
        b.len() <= usize::MAX,
    ensures
        b.len() < 4 ==> (header_of(b, nls) matches Err(f) && f.code == "FVP_HCB_HEADER"@),
        b.len() >= 4 && b.subrange(0, 4) == bytes::le32(desc) ==> {
            let at = desc as int;
            let inside = 4 <= desc < b.len();
            let told = header_of(b, nls);
            &&& !inside ==> (told matches Err(f) && f.code == "FVP_HCB_DESCRIPTOR_OFFSET"@)
            &&& inside && b.len() < at + 4 <= usize::MAX ==> (told matches Err(f) && f.code
                == "FVP_HCB_TRUNCATED"@)
            &&& inside && at + 4 <= b.len() && b.subrange(at, at + 4) == bytes::le32(entry_point)
                ==> {
                let runs = 4 <= entry_point < desc;
                &&& !runs ==> (told matches Err(f) && f.code == "FVP_HCB_ENTRY_POINT"@)
                &&& runs && at + 10 <= b.len() && b[at + 8] > 15 ==> (told matches Err(f) && f.code
                    == "FVP_HCB_GAME_MODE"@)
                &&& runs && at + 11 <= b.len() && b[at + 8] <= 15 && at + 11 + b[at + 10]
                    <= b.len() ==> {
                    let title = b.subrange(at + 11, at + 11 + b[at + 10]);
                    let end = at + 11 + b[at + 10];
                    let string = title.len() > 0 && title.last() == 0
                        && !title.drop_last().contains(0u8);
                    &&& !string ==> (told matches Err(f) && f.code == "FVP_HCB_C_STRING"@)
                    &&& string && crate::nls::decoded(nls, title.drop_last()).1 ==> (
                    told matches Err(f) && f.code == "FVP_HCB_ENCODING"@)
                    &&& string && !crate::nls::decoded(nls, title.drop_last()).1 && end + 2
                        <= b.len() && b.subrange(end, end + 2) == bytes::le16(calls) && calls > 4096
                        ==> (told matches Err(f) && f.code == "FVP_HCB_SYSCALL_COUNT"@)
                }
            }
        },
{
    if b.len() >= 4 {
        bytes::lemma_read_at(b, 0, 0, desc);
        let at = desc as int;
        bytes::lemma_read_at(b, at, 0, entry_point);
        if at + 11 <= b.len() {
            bytes::lemma_read_at(b, at + 11 + b[at + 10], calls, 0);
        }
    }
}

}
