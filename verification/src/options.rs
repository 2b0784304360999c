//! Options of a family session: a table of texts, read once when a session opens.

use vstd::prelude::*;

use crate::fault::{Fault, LegacyProviderError};
use crate::names::NameMap;
use crate::nls::FvpNls;
use crate::session::HostedTraceProfile;
use crate::text;

verus! {

/// Files that a case may hold.
pub const MAX_CASE_FILES: usize = 65_536;

/// Bytes that a file of a case may hold.
pub const MAX_FILE_BYTES: usize = 512 * 1024 * 1024;

/// Bytes that a path may hold.
pub const MAX_PATH_BYTES: usize = 4096;

/// Milliseconds that a translation may take unless the options say otherwise.
pub const DEFAULT_HOOK_TIMEOUT_MS: u32 = 2_000;

/// Instructions that an evidence session keeps for a report.
pub const EVIDENCE_TRACE_CAPACITY: usize = 256;

/// What the options say under `key`.
pub open spec fn option_at(options: NameMap<String>, key: Seq<char>) -> Option<Seq<char>> {
    if options@.contains_key(key) {
        Some(options@[key]@)
    } else {
        None
    }
}

// ------------------------------------------------------------------------ paths

/// The path under which a case keeps a file: slashes, ASCII small letters, no
/// drive, no step upwards; `None` for a path that has no such form.
pub open spec fn case_path(path: Seq<char>) -> Option<Seq<char>> {
    let normal = text::lower(text::replaced(path, '\\', '/'));
    if text::byte_len(normal) <= MAX_PATH_BYTES && !normal.contains(':') && text::plain_path(normal) {
        Some(normal)
    } else {
        None
    }
}

/// The path under which a case keeps a file. The failure is a code by itself.
pub fn normalize_vfs_path(path: &str) -> (r: Result<String, &'static str>)
    ensures
        match case_path(path@) {
            Some(normal) => r is Ok && r->Ok_0@ == normal,
            None => r is Err && r->Err_0@ == "RFVP_VFS_PATH_TRAVERSAL"@,
        },
{
    let v = text::to_lower(&text::replace_char(&text::chars_of(path), '\\', '/'));
    let normal = text::string_of(&v);
    if text::byte_length(normal.as_str()) > MAX_PATH_BYTES || text::has_char(&v, ':')
        || !text::is_plain_path(&v) {
        return Err("RFVP_VFS_PATH_TRAVERSAL");
    }
    Ok(normal)
}

// --------------------------------------------------------------------- encoding

/// The text encoding that the options declare.
pub open spec fn declared_nls(options: NameMap<String>) -> Result<FvpNls, Fault> {
    match option_at(options, "fvp.nls"@) {
        None => Err(
            crate::fault::fault(
                "ASTRA_FVP_NLS",
                "host VFS cases must explicitly declare fvp.nls",
            ),
        ),
        Some(name) => if name == "shift_jis"@ {
            Ok(FvpNls::ShiftJis)
        } else if name == "gbk"@ {
            Ok(FvpNls::Gbk)
        } else if name == "utf8"@ {
            Ok(FvpNls::Utf8)
        } else {
            Err(crate::fault::fault("ASTRA_FVP_NLS", "fvp.nls must be shift_jis, gbk, or utf8"))
        },
    }
}

pub fn parse_nls_option(options: &NameMap<String>) -> (r: Result<FvpNls, LegacyProviderError>)
    requires
        options.wf(),
    ensures
        match declared_nls(*options) {
            Ok(nls) => r is Ok && r->Ok_0 == nls,
            Err(f) => r is Err && r->Err_0@ == f,
        },
{
    match options.get("fvp.nls") {
        None => Err(
            LegacyProviderError::invalid(
                "ASTRA_FVP_NLS",
                "host VFS cases must explicitly declare fvp.nls",
            ),
        ),
        Some(name) => if text::same_text(name.as_str(), "shift_jis") {
            Ok(FvpNls::ShiftJis)
        } else if text::same_text(name.as_str(), "gbk") {
            Ok(FvpNls::Gbk)
        } else if text::same_text(name.as_str(), "utf8") {
            Ok(FvpNls::Utf8)
        } else {
            Err(
                LegacyProviderError::invalid(
                    "ASTRA_FVP_NLS",
                    "fvp.nls must be shift_jis, gbk, or utf8",
                ),
            )
        },
    }
}

// ---------------------------------------------------------------------- timeout

/// The translation timeout that the options ask for.
pub open spec fn hook_timeout(options: NameMap<String>) -> Result<u32, Fault> {
    match option_at(options, "astra.translation.timeout_ms"@) {
        None => Ok(DEFAULT_HOOK_TIMEOUT_MS),
        Some(value) => match text::parsed_u32(value) {
            Some(ms) => Ok(ms),
            None => Err(
                crate::fault::fault(
                    "ASTRA_FVP_HOOK_TIMEOUT",
                    "translation timeout must be represented by u32 milliseconds",
                ),
            ),
        },
    }
}

pub fn parse_hook_timeout(options: &NameMap<String>) -> (r: Result<u32, LegacyProviderError>)
    requires
        options.wf(),
    ensures
        match hook_timeout(*options) {
            Ok(ms) => r is Ok && r->Ok_0 == ms,
            Err(f) => r is Err && r->Err_0@ == f,
        },
{
    match options.get("astra.translation.timeout_ms") {
        None => Ok(DEFAULT_HOOK_TIMEOUT_MS),
        Some(value) => match text::parse_u32(value.as_str()) {
            Some(ms) => Ok(ms),
            None => Err(
                LegacyProviderError::invalid(
                    "ASTRA_FVP_HOOK_TIMEOUT",
                    "translation timeout must be represented by u32 milliseconds",
                ),
            ),
        },
    }
}

// ------------------------------------------------------------------------ stage

/// One side of the stage: what the options say, or `default`; `None` for a value
/// that is no number.
pub open spec fn stage_side(options: NameMap<String>, key: Seq<char>, default: u32) -> Option<u32> {
    match option_at(options, key) {
        None => Some(default),
        Some(value) => text::parsed_u32(value),
    }
}

/// The stage that the options ask for.
pub open spec fn stage_of(options: NameMap<String>) -> Result<(u32, u32), Fault> {
    match stage_side(options, "fvp.stage_width"@, 1024) {
        None => Err(crate::fault::fault("ASTRA_FVP_STAGE_DIMENSIONS", "stage width is not a u32")),
        Some(width) => match stage_side(options, "fvp.stage_height"@, 768) {
            None => Err(
                crate::fault::fault("ASTRA_FVP_STAGE_DIMENSIONS", "stage height is not a u32"),
            ),
            Some(height) => if 320 <= width <= 8192 && 240 <= height <= 8192 {
                Ok((width, height))
            } else {
                Err(
                    crate::fault::fault(
                        "ASTRA_FVP_STAGE_DIMENSIONS",
                        "stage dimensions are outside the supported bounds",
                    ),
                )
            },
        },
    }
}

fn parse_side(options: &NameMap<String>, key: &str, default: u32) -> (r: Option<u32>)
    requires
        options.wf(),
    ensures
        r == stage_side(*options, key@, default),
{
    match options.get(key) {
        None => Some(default),
        Some(value) => text::parse_u32(value.as_str()),
    }
}

pub fn parse_stage_dimensions(options: &NameMap<String>) -> (r: Result<
    (u32, u32),
    LegacyProviderError,
>)
    requires
        options.wf(),
    ensures
        match stage_of(*options) {
            Ok(stage) => r is Ok && r->Ok_0 == stage,
            Err(f) => r is Err && r->Err_0@ == f,
        },
{
    let width: u32 = match parse_side(options, "fvp.stage_width", 1024) {
        Some(v) => v,
        None => return Err(
            LegacyProviderError::invalid("ASTRA_FVP_STAGE_DIMENSIONS", "stage width is not a u32"),
        ),
    };
    let height: u32 = match parse_side(options, "fvp.stage_height", 768) {
        Some(v) => v,
        None => return Err(
            LegacyProviderError::invalid("ASTRA_FVP_STAGE_DIMENSIONS", "stage height is not a u32"),
        ),
    };
    if !(320 <= width && width <= 8192) || !(240 <= height && height <= 8192) {
        return Err(
            LegacyProviderError::invalid(
                "ASTRA_FVP_STAGE_DIMENSIONS",
                "stage dimensions are outside the supported bounds",
            ),
        );
    }
    Ok((width, height))
}

// ------------------------------------------------------------------------ trace

/// The trace profile that the options ask for.
pub open spec fn declared_profile(options: NameMap<String>) -> Result<HostedTraceProfile, Fault> {
    match option_at(options, "astra.hosted_trace_profile"@) {
        None => Ok(HostedTraceProfile::Shipping),
        Some(name) => if name == "shipping"@ {
            Ok(HostedTraceProfile::Shipping)
        } else if name == "evidence"@ {
            Ok(HostedTraceProfile::Evidence { crash_trace_capacity: EVIDENCE_TRACE_CAPACITY })
        } else {
            Err(
                crate::fault::fault(
                    "ASTRA_FVP_TRACE_PROFILE",
                    "hosted trace profile is unsupported",
                ),
            )
        },
    }
}

pub fn parse_trace_profile(options: &NameMap<String>) -> (r: Result<
    HostedTraceProfile,
    LegacyProviderError,
>)
    requires
        options.wf(),
    ensures
        match declared_profile(*options) {
            Ok(profile) => r is Ok && r->Ok_0 == profile,
            Err(f) => r is Err && r->Err_0@ == f,
        },
{
    match options.get("astra.hosted_trace_profile") {
        None => Ok(HostedTraceProfile::Shipping),
        Some(name) => if text::same_text(name.as_str(), "shipping") {
            Ok(HostedTraceProfile::Shipping)
        } else if text::same_text(name.as_str(), "evidence") {
            Ok(HostedTraceProfile::Evidence { crash_trace_capacity: EVIDENCE_TRACE_CAPACITY })
        } else {
            Err(
                LegacyProviderError::invalid(
                    "ASTRA_FVP_TRACE_PROFILE",
                    "hosted trace profile is unsupported",
                ),
            )
        },
    }
}

// ------------------------------------------------------------------- pack paths

/// The strings of a JSON array of strings; `None` for any other text.
pub uninterp spec fn json_strings(text: Seq<char>) -> Option<Seq<Seq<char>>>;

/// `serde_json::from_str` into a vector of strings: the strings of the array that
/// the text holds, or a failure. Which texts hold such an array, and how its
/// strings are written, is the JSON grammar and is left to the name.
#[verifier::external_body]
fn read_json_strings(text: &str) -> (r: Option<Vec<String>>)
    ensures
        match json_strings(text@) {
            Some(strings) => r is Some && text::texts(r->0@) == strings,
            None => r is None,
        },
{
    serde_json::from_str::<Vec<String>>(text).ok()
}

/// The set of the paths from `i` on and of those in `seen`: each path normal, with
/// the suffix of an archive, and none twice.
pub open spec fn pack_set(paths: Seq<Seq<char>>, i: int, seen: Set<Seq<char>>) -> Result<
    Set<Seq<char>>,
    Fault,
>
    decreases paths.len() - i,
{
    if i >= paths.len() {
        Ok(seen)
    } else {
        match case_path(paths[i]) {
            None => Err(crate::fault::fault("ASTRA_FVP_PACK_PATHS", "RFVP_VFS_PATH_TRAVERSAL")),
            Some(path) => if !text::has_suffix(path, ".bin"@) || seen.contains(path) {
                Err(
                    crate::fault::fault(
                        "ASTRA_FVP_PACK_PATHS",
                        "fvp.pack_paths must contain unique normalized .bin files",
                    ),
                )
            } else {
                pack_set(paths, i + 1, seen.insert(path))
            },
        }
    }
}

/// The archives among `paths`.
pub open spec fn packs_of(paths: Option<Seq<Seq<char>>>) -> Result<Set<Seq<char>>, Fault> {
    match paths {
        None => Err(
            crate::fault::fault(
                "ASTRA_FVP_PACK_PATHS",
                "fvp.pack_paths must be a JSON string array",
            ),
        ),
        Some(paths) => if paths.len() > MAX_CASE_FILES {
            Err(
                crate::fault::fault(
                    "ASTRA_FVP_PACK_PATHS",
                    "fvp.pack_paths exceeds the hosted file bound",
                ),
            )
        } else {
            pack_set(paths, 0, Set::empty())
        },
    }
}

/// The names in a list, as a set.
pub open spec fn names_in(names: Seq<String>) -> Set<Seq<char>> {
    Set::new(|name: Seq<char>| crate::names::position(names, name) is Some)
}

/// Whether `list` holds the names of `names`, each once and in increasing order.
pub open spec fn sorted_names(list: Seq<String>, names: Set<Seq<char>>) -> bool {
    crate::names::increasing(list) && names_in(list) == names
}

/// The archives of a case, each path once and in increasing order, from the array
/// that was read.
pub fn admit_pack_paths(paths: Option<Vec<String>>) -> (r: Result<Vec<String>, LegacyProviderError>)
    ensures
        match packs_of(
            match paths {
                Some(p) => Some(text::texts(p@)),
                None => None,
            },
        ) {
            Ok(names) => r is Ok && sorted_names(r->Ok_0@, names),
            Err(f) => r is Err && r->Err_0@ == f,
        },
{
    let list = match paths {
        Some(v) => v,
        None => return Err(
            LegacyProviderError::invalid(
                "ASTRA_FVP_PACK_PATHS",
                "fvp.pack_paths must be a JSON string array",
            ),
        ),
    };
    if list.len() > MAX_CASE_FILES {
        return Err(
            LegacyProviderError::invalid(
                "ASTRA_FVP_PACK_PATHS",
                "fvp.pack_paths exceeds the hosted file bound",
            ),
        );
    }
    let mut seen: NameMap<()> = NameMap::new();
    let mut i: usize = 0;
    assert(seen@.dom() =~= Set::empty());
    while i < list.len()
        invariant
            seen.wf(),
            paths == Some(list),
            list@.len() <= MAX_CASE_FILES,
            i <= list@.len(),
            pack_set(text::texts(list@), 0, Set::empty()) == pack_set(
                text::texts(list@),
                i as int,
                seen@.dom(),
            ),
        decreases list@.len() - i,
    {
        assert(text::texts(list@)[i as int] == list@[i as int]@);
        let path = match normalize_vfs_path(list[i].as_str()) {
            Ok(v) => v,
            Err(message) => return Err(
                LegacyProviderError::invalid("ASTRA_FVP_PACK_PATHS", message),
            ),
        };
        let ghost name = path@;
        let ghost before = seen@;
        if !text::ends_with(&text::chars_of(path.as_str()), ".bin") || !seen.insert_new(path, ()) {
            return Err(
                LegacyProviderError::invalid(
                    "ASTRA_FVP_PACK_PATHS",
                    "fvp.pack_paths must contain unique normalized .bin files",
                ),
            );
        }
        assert(seen@.dom() =~= before.dom().insert(name));
        i = i + 1;
    }
    assert(names_in(seen.names@) =~= seen@.dom());
    Ok(seen.names)
}

/// The archives that the options declare.
pub open spec fn declared_packs(options: NameMap<String>) -> Result<Set<Seq<char>>, Fault> {
    match option_at(options, "fvp.pack_paths"@) {
        None => Err(
            crate::fault::fault(
                "ASTRA_FVP_PACK_PATHS",
                "host VFS cases must explicitly declare fvp.pack_paths",
            ),
        ),
        Some(encoded) => packs_of(json_strings(encoded)),
    }
}

pub fn parse_pack_paths_option(options: &NameMap<String>) -> (r: Result<
    Vec<String>,
    LegacyProviderError,
>)
    requires
        options.wf(),
    ensures
        match declared_packs(*options) {
            Ok(names) => r is Ok && sorted_names(r->Ok_0@, names),
            Err(f) => r is Err && r->Err_0@ == f,
        },
{
    match options.get("fvp.pack_paths") {
        None => Err(
            LegacyProviderError::invalid(
                "ASTRA_FVP_PACK_PATHS",
                "host VFS cases must explicitly declare fvp.pack_paths",
            ),
        ),
        Some(encoded) => admit_pack_paths(read_json_strings(encoded.as_str())),
    }
}

// ----------------------------------------------------------------------- laws

/// A path in its normal form is its own normal form.
pub proof fn law_case_path_is_stable(path: Seq<char>)
    requires
        case_path(path) is Some,
    ensures
        case_path(case_path(path)->0) == case_path(path),
{
    let slashed = text::replaced(path, '\\', '/');
    let normal = text::lower(slashed);
    text::lemma_lower_idempotent(slashed);
    assert forall|i: int| 0 <= i < normal.len() implies normal[i] != '\\' by {
        text::lemma_lower_char(slashed[i]);
    }
    assert(text::replaced(normal, '\\', '/') =~= normal);
    assert(text::lower(normal) =~= normal);
}

/// A path in normal form is kept as it stands, and a kept path is a normal one of at most
/// 4096 bytes that differs from what was given in the case of letters and the slant of
/// slashes only.
pub proof fn law_case_paths_become_normal(path: Seq<char>)
    ensures
        crate::archive::normal_name(path) && text::byte_len(path) <= 4096 ==> case_path(path)
            == Some(path),
        case_path(path) matches Some(normal) ==> {
            &&& crate::archive::normalized_name(path) == Some(normal)
            &&& text::byte_len(normal) <= 4096
        },
        crate::archive::normalized_name(path) is None ==> case_path(path) is None,
{
    crate::archive::law_names_become_normal(path);
}

/// The encoding is the one that the options name, and must be named.
pub proof fn law_encoding_is_the_named_one(options: NameMap<String>)
    ensures
        ({
            let named = |name: Seq<char>|
                options@.contains_key("fvp.nls"@) && options@["fvp.nls"@]@ == name;
            let nls = declared_nls(options);
            &&& nls == Ok::<FvpNls, Fault>(FvpNls::ShiftJis) <==> named("shift_jis"@)
            &&& nls == Ok::<FvpNls, Fault>(FvpNls::Gbk) <==> named("gbk"@)
            &&& nls == Ok::<FvpNls, Fault>(FvpNls::Utf8) <==> named("utf8"@)
            &&& nls matches Err(f) ==> f.code == "ASTRA_FVP_NLS"@
        }),
{
    reveal_strlit("shift_jis");
    reveal_strlit("gbk");
    reveal_strlit("utf8");
    assert("shift_jis"@.len() == 9 && "gbk"@.len() == 3 && "utf8"@.len() == 4);
}

/// A translation may take the milliseconds that the options give, or two seconds where they
/// give none.
pub proof fn law_timeout_is_the_given_one(options: NameMap<String>, n: u32)
    ensures
        ({
            let key = "astra.translation.timeout_ms"@;
            &&& !options@.contains_key(key) ==> hook_timeout(options) == Ok::<u32, Fault>(2000u32)
            &&& options@.contains_key(key) && options@[key]@ == text::decimal(n as nat)
                ==> hook_timeout(options) == Ok::<u32, Fault>(n)
            &&& hook_timeout(options) is Err <==> options@.contains_key(key) && text::parsed_u32(
                options@[key]@,
            ) is None
        }),
{
    text::law_decimal_round_trip(n);
}

/// The stage has the width and the height that the options give, 1024 and 768 where they
/// give none. It is refused where a side is no number or outside its bounds: 320 to 8192
/// across, 240 to 8192 down.
pub proof fn law_stage_is_the_given_one(options: NameMap<String>, width: u32, height: u32)
    requires
        options@.contains_key("fvp.stage_width"@) ==> options@["fvp.stage_width"@]@ == text::decimal(
            width as nat,
        ),
        !options@.contains_key("fvp.stage_width"@) ==> width == 1024,
        options@.contains_key("fvp.stage_height"@) ==> options@["fvp.stage_height"@]@
            == text::decimal(height as nat),
        !options@.contains_key("fvp.stage_height"@) ==> height == 768,
    ensures
        320 <= width <= 8192 && 240 <= height <= 8192 ==> stage_of(options) == Ok::<
            (u32, u32),
            Fault,
        >((width, height)),
        !(320 <= width <= 8192 && 240 <= height <= 8192) ==> stage_of(options) is Err,
{
    text::law_decimal_round_trip(width);
    text::law_decimal_round_trip(height);
}

/// A side of the stage that is no number is refused.
pub proof fn law_stage_sides_are_numbers(options: NameMap<String>)
    ensures
        options@.contains_key("fvp.stage_width"@) && text::parsed_u32(
            options@["fvp.stage_width"@]@,
        ) is None ==> stage_of(options) is Err,
        options@.contains_key("fvp.stage_height"@) && text::parsed_u32(
            options@["fvp.stage_height"@]@,
        ) is None ==> stage_of(options) is Err,
        stage_of(options) matches Err(f) ==> f.code == "ASTRA_FVP_STAGE_DIMENSIONS"@,
{
}

/// A session traces for evidence only where the options ask for it, and then keeps 256
/// instructions for a report; any other name than the two is refused.
pub proof fn law_profile_is_the_named_one(options: NameMap<String>)
    ensures
        ({
            let key = "astra.hosted_trace_profile"@;
            let named = |name: Seq<char>| options@.contains_key(key) && options@[key]@ == name;
            let profile = declared_profile(options);
            &&& profile == Ok::<HostedTraceProfile, Fault>(HostedTraceProfile::Shipping)
                <==> !options@.contains_key(key) || named("shipping"@)
            &&& named("evidence"@) ==> profile == Ok::<HostedTraceProfile, Fault>(
                HostedTraceProfile::Evidence { crash_trace_capacity: 256 },
            )
            &&& profile is Err <==> options@.contains_key(key) && !named("shipping"@) && !named(
                "evidence"@,
            )
        }),
{
    reveal_strlit("shipping");
    reveal_strlit("evidence");
    assert("shipping"@[0] != "evidence"@[0]);
}

proof fn lemma_one_more_pack(
    paths: Seq<Seq<char>>,
    more: Seq<char>,
    i: int,
    seen: Set<Seq<char>>,
)
    requires
        0 <= i <= paths.len(),
    ensures
        match pack_set(paths, i, seen) {
            Err(f) => pack_set(paths.push(more), i, seen) == Err::<Set<Seq<char>>, Fault>(f),
            Ok(packs) => match case_path(more) {
                None => pack_set(paths.push(more), i, seen) is Err,
                Some(path) => if !text::has_suffix(path, ".bin"@) || packs.contains(path) {
                    pack_set(paths.push(more), i, seen) is Err
                } else {
                    pack_set(paths.push(more), i, seen) == Ok::<Set<Seq<char>>, Fault>(
                        packs.insert(path),
                    )
                },
            },
        },
    decreases paths.len() - i,
{
    let all = paths.push(more);
    if i < paths.len() {
        assert(all[i] == paths[i]);
        if case_path(paths[i]) is Some {
            let path = case_path(paths[i])->0;
            lemma_one_more_pack(paths, more, i + 1, seen.insert(path));
        }
    } else {
        assert(all[i] == more);
        if case_path(more) is Some {
            let path = case_path(more)->0;
            assert(pack_set(all, i + 1, seen.insert(path)) == Ok::<Set<Seq<char>>, Fault>(
                seen.insert(path),
            ));
        }
    }
}

/// One more path joins the archives in its normal form, if it has one that ends in `.bin`
/// and is new; otherwise all are refused, and so are all that begin with refused ones. No
/// path gives no archive.
pub proof fn law_archives_join_one_by_one(paths: Seq<Seq<char>>, more: Seq<char>)
    requires
        paths.len() < 65_536,
    ensures
        packs_of(Some(Seq::empty())) == Ok::<Set<Seq<char>>, Fault>(Set::empty()),
        packs_of(None) is Err,
        ({
            let before = packs_of(Some(paths));
            let after = packs_of(Some(paths.push(more)));
            let path = case_path(more);
            &&& before is Err ==> after == before
            &&& before is Ok ==> {
                &&& after is Ok <==> path is Some && text::has_suffix(path->0, ".bin"@)
                    && !before->Ok_0.contains(path->0)
                &&& after is Ok ==> after->Ok_0 == before->Ok_0.insert(path->0)
            }
        }),
{
    lemma_one_more_pack(paths, more, 0, Set::empty());
}

/// More archives than a case has files are refused.
pub proof fn law_archives_are_bounded(paths: Seq<Seq<char>>)
    requires
        paths.len() > 65_536,
    ensures
        packs_of(Some(paths)) is Err,
{
}

/// A sorted list has each of its names once, by increasing order, and no others.
pub proof fn law_sorted_lists_hold_their_names(
    list: Seq<String>,
    names: Set<Seq<char>>,
    i: int,
    j: int,
    name: Seq<char>,
)
    requires
        sorted_names(list, names),
    ensures
        0 <= i < j < list.len() ==> crate::names::text_lt(list[i]@, list[j]@) && list[i]@
            != list[j]@,
        names.contains(name) <==> exists|k: int| 0 <= k < list.len() && (#[trigger] list[k])@ == name,
{
    if 0 <= i < j < list.len() {
        crate::names::lemma_text_lt_irreflexive(list[i]@);
    }
    assert(names.contains(name) <==> names_in(list).contains(name));
}

}
