//! Titles with an old-school font.
//!
//! Such a title has a bitmap font and a configuration file with the scale of its screen:
//! one line, `scale = ` and a number. The number itself is read and used outside, in
//! single precision. The script is paged, so a boot asks for its length only, and no
//! archive is indexed.

use vstd::prelude::*;

use crate::engine_core::{
    boot_config_ok, boot_config_valid, failed_core, find_hcb, log_views, numbered, started_core,
    BootOutcome, CoreView, FatalErrorCode, FontReply, LoadedView, RfvpBootConfig, RfvpCore,
    RfvpLoadedGame, ScriptFacts,
};
use crate::float::Float32;
use crate::host_api::{RfvpError, RfvpFileInfo, RfvpLogLevel};
use crate::text;

verus! {

/// The text of a configuration file: what stands for the scale, or what is wrong.
pub open spec fn scale_text(content: Option<Seq<char>>) -> Result<Seq<char>, Seq<char>> {
    match content {
        None => Err(
            "Required old-school config file rfvp.toml is invalid: expected exactly one top-level float field, scale."@,
        ),
        Some(content) => {
            let line = text::trimmed(content);
            let at = text::first_place(line, '=', 0);
            let value = text::trimmed(line.subrange(at + 1, line.len() as int));
            if line.len() == 0 {
                Err("rfvp.toml is missing required top-level scale field"@)
            } else if line.contains('\n') {
                Err("rfvp.toml must contain only one top-level field: scale"@)
            } else if at == line.len() {
                Err("rfvp.toml is missing required top-level scale field"@)
            } else if text::trimmed(line.subrange(0, at)) != "scale"@ {
                Err("rfvp.toml must contain only the top-level scale field"@)
            } else if !value.contains('.') && !value.contains('e') && !value.contains('E') {
                Err("rfvp.toml scale must be a floating-point number"@)
            } else {
                Ok(value)
            }
        },
    }
}

/// The content of a file as text, if it is UTF-8.
pub open spec fn utf8_content(bytes: Seq<u8>) -> Option<Seq<char>> {
    if vstd::utf8::valid_utf8(bytes) {
        Some(vstd::utf8::decode_utf8(bytes))
    } else {
        None
    }
}

/// What stands for the scale in a configuration file.
pub fn parse_old_school_scale(bytes: Vec<u8>) -> (r: Result<String, &'static str>)
    ensures
        match scale_text(utf8_content(bytes@)) {
            Ok(value) => r is Ok && r->Ok_0@ == value,
            Err(words) => r is Err && r->Err_0@ == words,
        },
{
    let content = match text::text_from_utf8(bytes) {
        Some(v) => v,
        None => return Err(
            "Required old-school config file rfvp.toml is invalid: expected exactly one top-level float field, scale.",
        ),
    };
    let line = text::trim(&text::chars_of(content.as_str()));
    if line.len() == 0 {
        return Err("rfvp.toml is missing required top-level scale field");
    }
    if text::has_char(&line, '\n') {
        return Err("rfvp.toml must contain only one top-level field: scale");
    }
    let at: usize = text::find_first(&line, '=', 0);
    if at == line.len() {
        return Err("rfvp.toml is missing required top-level scale field");
    }
    let key = text::string_of(&text::trim(&text::slice_chars(&line, 0, at)));
    if !text::same_text(key.as_str(), "scale") {
        return Err("rfvp.toml must contain only the top-level scale field");
    }
    let value = text::trim(&text::slice_chars(&line, at + 1, line.len()));
    if !text::has_char(&value, '.') && !text::has_char(&value, 'e') && !text::has_char(
        &value,
        'E',
    ) {
        return Err("rfvp.toml scale must be a floating-point number");
    }
    Ok(text::string_of(&value))
}

/// Holds the number that was read to its bounds; `None` is a text that is no number.
pub fn check_old_school_scale(parsed: Option<Float32>) -> (r: Result<Float32, &'static str>)
    ensures
        match parsed {
            None => r is Err && r->Err_0@ == "rfvp.toml scale must be a floating-point number"@,
            Some(scale) => if scale.finite() && !scale.negative() && scale.magnitude() > 0 {
                r is Ok && r->Ok_0 == scale
            } else {
                r is Err && r->Err_0@ == "rfvp.toml scale must be greater than 0"@
            },
        },
{
    match parsed {
        None => Err("rfvp.toml scale must be a floating-point number"),
        Some(scale) => if scale.is_finite() && scale.bits > 0 && scale.bits < 0x8000_0000 {
            Ok(scale)
        } else {
            Err("rfvp.toml scale must be greater than 0")
        },
    }
}

/// What stands for the scale in the file that the host read, or failed to.
pub fn load_required_old_school_scale(file: Result<Vec<u8>, RfvpError>) -> (r: Result<
    String,
    (RfvpError, &'static str),
>)
    ensures
        match file {
            Err(_) => {
                &&& r is Err
                &&& r->Err_0.0 == RfvpError::NotFound
                &&& r->Err_0.1@
                    == "Required old-school config file rfvp.toml was not found in the game directory."@
            },
            Ok(bytes) => match scale_text(utf8_content(bytes@)) {
                Ok(value) => r is Ok && r->Ok_0@ == value,
                Err(words) => {
                    &&& r is Err
                    &&& r->Err_0.0 == RfvpError::InvalidData
                    &&& r->Err_0.1@ == words
                },
            },
        },
{
    match file {
        Err(_) => Err(
            (
                RfvpError::NotFound,
                "Required old-school config file rfvp.toml was not found in the game directory.",
            ),
        ),
        Ok(bytes) => match parse_old_school_scale(bytes) {
            Ok(value) => Ok(value),
            Err(words) => Err((RfvpError::InvalidData, words)),
        },
    }
}

// ------------------------------------------------------------------------- boots

/// The file that holds the scale.
pub const CONFIG_FILE: &'static str = "rfvp.toml";

/// The file that holds the font.
pub const FONT_FILE: &'static str = "defualt.tmap";

/// Whether a script of this length can be paged: it has bytes, and as many of them as
/// memory can address are within the limit.
pub open spec fn length_accepted(len: u64, max_hcb_bytes: usize) -> bool {
    len != 0 && len as usize <= max_hcb_bytes
}

/// Holds the length of a script to its bounds.
pub fn check_script_length(len: u64, max_hcb_bytes: usize) -> (r: Result<(), RfvpError>)
    ensures
        length_accepted(len, max_hcb_bytes) ==> r is Ok,
        !length_accepted(len, max_hcb_bytes) ==> r is Err && r->Err_0
            == RfvpError::CapacityExceeded,
{
    let addressed: usize = #[verifier::truncate]
    (len as usize);
    if len == 0 || addressed > max_hcb_bytes {
        Err(RfvpError::CapacityExceeded)
    } else {
        Ok(())
    }
}

/// The sentence about a bitmap font that is missing or broken.
pub open spec fn bitmap_font_message(reply: FontReply) -> Seq<char> {
    match reply {
        FontReply::Missing => "Required font file defualt.tmap was not found in the game directory."@,
        _ => "Required font file defualt.tmap exists but is not a valid bitmap font."@,
    }
}

/// What a missing or broken bitmap font means: the failure, the code for the platform
/// and the sentence.
pub fn load_required_bitmap_font(reply: FontReply) -> (r: Result<
    (),
    (RfvpError, FatalErrorCode, &'static str),
>)
    ensures
        match reply {
            FontReply::Loaded => r is Ok,
            FontReply::Missing => {
                &&& r is Err
                &&& r->Err_0.0 == RfvpError::NotFound
                &&& r->Err_0.1 == FatalErrorCode::MissingDefaultFont
                &&& r->Err_0.2@ == bitmap_font_message(reply)
            },
            FontReply::Invalid => {
                &&& r is Err
                &&& r->Err_0.0 == RfvpError::InvalidData
                &&& r->Err_0.1 == FatalErrorCode::InvalidDefaultFont
                &&& r->Err_0.2@ == bitmap_font_message(reply)
            },
        },
{
    match reply {
        FontReply::Loaded => Ok(()),
        FontReply::Missing => Err(
            (
                RfvpError::NotFound,
                FatalErrorCode::MissingDefaultFont,
                "Required font file defualt.tmap was not found in the game directory.",
            ),
        ),
        FontReply::Invalid => Err(
            (
                RfvpError::InvalidData,
                FatalErrorCode::InvalidDefaultFont,
                "Required font file defualt.tmap exists but is not a valid bitmap font.",
            ),
        ),
    }
}

/// What the host and the engine answered while such a title booted.
#[derive(Debug)]
pub struct OldSchoolEvidence {
    /// The scripts below the asset root.
    pub listing: Result<Vec<(String, RfvpFileInfo)>, RfvpError>,
    /// The length of the first script, which was opened for it.
    pub script_len: Result<u64, RfvpError>,
    /// The parsed script, or the parser's words.
    pub script: Result<ScriptFacts, String>,
    /// The size of the screen under the scale, or what is wrong with the scale.
    pub screen: Result<(u32, u32), (RfvpError, &'static str)>,
    pub font: FontReply,
    /// Whether the interpreter accepted the trace capacity.
    pub trace_accepted: bool,
}

/// Why such a boot fails before its font, and the words kept about it.
pub open spec fn failure_before_font(boot: RfvpBootConfig<'_>, evidence: OldSchoolEvidence) -> Option<
    (RfvpError, Option<Seq<char>>),
> {
    if !boot_config_valid(boot) {
        Some((RfvpError::InvalidArgument, None))
    } else if evidence.listing is Err {
        Some((evidence.listing->Err_0, None))
    } else if evidence.listing->Ok_0@.len() > boot.max_manifest_entries {
        Some((RfvpError::CapacityExceeded, None))
    } else if evidence.listing->Ok_0@.len() == 0 {
        Some((RfvpError::NotFound, None))
    } else if evidence.script_len is Err {
        Some((evidence.script_len->Err_0, None))
    } else if !length_accepted(evidence.script_len->Ok_0, boot.max_hcb_bytes) {
        Some((RfvpError::CapacityExceeded, None))
    } else if evidence.script is Err {
        Some((RfvpError::InvalidData, Some(evidence.script->Err_0@)))
    } else if evidence.screen is Err {
        Some((evidence.screen->Err_0.0, Some(evidence.screen->Err_0.1@)))
    } else {
        None
    }
}

/// Why such a boot fails, and the words kept about it; `None` when it succeeds.
pub open spec fn old_school_failure(boot: RfvpBootConfig<'_>, evidence: OldSchoolEvidence) -> Option<
    (RfvpError, Option<Seq<char>>),
> {
    match failure_before_font(boot, evidence) {
        Some(failure) => Some(failure),
        None => if evidence.font == FontReply::Missing {
            Some((RfvpError::NotFound, Some(bitmap_font_message(evidence.font))))
        } else if evidence.font == FontReply::Invalid {
            Some((RfvpError::InvalidData, Some(bitmap_font_message(evidence.font))))
        } else if !evidence.trace_accepted {
            Some((RfvpError::CapacityExceeded, None))
        } else {
            None
        },
    }
}

/// The core after such a boot. The bytes of the script stay with the host.
pub open spec fn old_school_core(
    before: CoreView,
    boot: RfvpBootConfig<'_>,
    evidence: OldSchoolEvidence,
) -> CoreView {
    match old_school_failure(boot, evidence) {
        Some(failure) => failed_core(before, failure),
        None => {
            let found = evidence.listing->Ok_0@;
            started_core(
                before,
                LoadedView {
                    asset_root: boot.asset_root@,
                    hcb_path: found[0].0@,
                    hcb_bytes: Seq::empty(),
                    hcb_info: found[0].1,
                    hcb_manifest: crate::hosted_host::line_views(
                        found.subrange(1, found.len() as int),
                    ),
                },
                evidence.script->Ok_0,
                evidence.screen->Ok_0,
            )
        },
    }
}

/// The lines that such a boot writes to the host's log.
pub open spec fn old_school_logs(boot: RfvpBootConfig<'_>, evidence: OldSchoolEvidence) -> Seq<
    (RfvpLogLevel, Seq<char>),
> {
    let scanning = (RfvpLogLevel::Info, "rfvp no_std boot: scanning asset root for HCB"@);
    if !boot_config_valid(boot) {
        Seq::empty()
    } else if old_school_failure(boot, evidence) is Some {
        seq![scanning]
    } else {
        seq![
            scanning,
            (
                RfvpLogLevel::Info,
                "rfvp no_std boot: parsed real HCB, initialized real GameData, and started VmRunner"@,
            ),
        ]
    }
}

/// What such a boot tells besides changing the core.
pub open spec fn old_school_told(
    boot: RfvpBootConfig<'_>,
    evidence: OldSchoolEvidence,
    outcome: BootOutcome,
) -> bool {
    &&& log_views(outcome.logs@) == old_school_logs(boot, evidence)
    &&& match old_school_failure(boot, evidence) {
        None => outcome.result is Ok,
        Some(failure) => outcome.result is Err && outcome.result->Err_0 == failure.0,
    }
    &&& if failure_before_font(boot, evidence) is None && evidence.font != FontReply::Loaded {
        &&& outcome.fatal is Some
        &&& (outcome.fatal->0).0 == if evidence.font == FontReply::Missing {
            FatalErrorCode::MissingDefaultFont
        } else {
            FatalErrorCode::InvalidDefaultFont
        }
        &&& (outcome.fatal->0).1@ == bitmap_font_message(evidence.font)
    } else {
        outcome.fatal is None
    }
}

impl RfvpCore {
    /// Boots a title with an old-school font from what the host and the engine
    /// answered. A script whose global variables have no numbers is not admitted.
    pub fn boot_old_school(&mut self, boot: RfvpBootConfig<'_>, evidence: OldSchoolEvidence) -> (r:
        BootOutcome)
        requires
            old(self).wf(),
            numbered(evidence.script),
        ensures
            final(self).wf(),
            final(self)@ == old_school_core(old(self)@, boot, evidence),
            old_school_told(boot, evidence, r),
    {
        let mut outcome = BootOutcome { logs: Vec::new(), fatal: None, result: Ok(()) };
        let result = self.try_boot_old_school(boot, evidence, &mut outcome);
        self.conclude(result);
        outcome.result = result;
        assert(self@ =~= old_school_core(old(self)@, boot, evidence));
        outcome
    }

    fn try_boot_old_school(
        &mut self,
        boot: RfvpBootConfig<'_>,
        evidence: OldSchoolEvidence,
        outcome: &mut BootOutcome,
    ) -> (r: Result<(), RfvpError>)
        requires
            old(self).wf(),
            old(outcome).logs@.len() == 0,
            old(outcome).fatal is None,
            numbered(evidence.script),
        ensures
            final(self).wf(),
            old_school_told(
                boot,
                evidence,
                BootOutcome { result: r, logs: final(outcome).logs, fatal: final(outcome).fatal },
            ),
            match old_school_failure(boot, evidence) {
                None => {
                    &&& final(self)@.interpreter
                    &&& (CoreView {
                        run_state: crate::engine_core::RfvpCoreRunState::Booted,
                        last_error: None,
                        detail: None,
                        ..final(self)@
                    }) == old_school_core(old(self)@, boot, evidence)
                },
                Some(failure) => final(self)@ == (CoreView {
                    detail: match failure.1 {
                        Some(words) => Some(words),
                        None => old(self)@.detail,
                    },
                    ..old(self)@
                }),
            },
    {
        assert(log_views(outcome.logs@) =~= Seq::<(RfvpLogLevel, Seq<char>)>::empty());
        if !boot_config_ok(&boot) {
            return Err(RfvpError::InvalidArgument);
        }
        Self::log(
            outcome,
            RfvpLogLevel::Info,
            text::owned("rfvp no_std boot: scanning asset root for HCB"),
        );
        let ghost scanned = seq![
            (RfvpLogLevel::Info, "rfvp no_std boot: scanning asset root for HCB"@),
        ];
        assert(log_views(outcome.logs@) =~= scanned);
        let (hcb_path, hcb_info, hcb_manifest) = match find_hcb(
            evidence.listing,
            boot.max_manifest_entries,
        ) {
            Ok(v) => v,
            Err(e) => return Err(e),
        };
        let len: u64 = match evidence.script_len {
            Ok(v) => v,
            Err(e) => return Err(e),
        };
        match check_script_length(len, boot.max_hcb_bytes) {
            Ok(_) => {},
            Err(e) => return Err(e),
        }
        let facts = match evidence.script {
            Ok(v) => v,
            Err(words) => {
                self.last_error_detail = Some(words);
                return Err(RfvpError::InvalidData);
            },
        };
        let screen = match evidence.screen {
            Ok(v) => v,
            Err((error, words)) => {
                self.last_error_detail = Some(text::owned(words));
                return Err(error);
            },
        };
        match load_required_bitmap_font(evidence.font) {
            Ok(_) => {},
            Err((error, code, message)) => {
                outcome.fatal = Some((code, message));
                self.last_error_detail = Some(text::owned(message));
                return Err(error);
            },
        }
        if !evidence.trace_accepted {
            return Err(RfvpError::CapacityExceeded);
        }
        Self::log(
            outcome,
            RfvpLogLevel::Info,
            text::owned(
                "rfvp no_std boot: parsed real HCB, initialized real GameData, and started VmRunner",
            ),
        );
        assert(log_views(outcome.logs@) =~= old_school_logs(boot, evidence));
        let loaded = RfvpLoadedGame {
            asset_root: text::owned(boot.asset_root),
            hcb_path,
            hcb_bytes: Vec::new(),
            hcb_info,
            hcb_manifest,
        };
        assert(loaded@ =~= old_school_core(old(self)@, boot, evidence).loaded->0);
        self.install(loaded, facts, screen.0, screen.1);
        Ok(())
    }
}

// ----------------------------------------------------------------------- laws

/// The scale is what stands behind the equals sign of the one line `scale = value`, without
/// the white space around it, if it is written as a floating-point number.
pub proof fn law_scale_is_the_one_field(key: Seq<char>, value: Seq<char>)
    requires
        !key.contains('='),
        !key.contains('\n'),
        !value.contains('\n'),
        key.len() > 0,
        value.len() > 0,
        !text::is_space(key[0]),
        !text::is_space(value.last()),
    ensures
        ({
            let line = key + seq!['='] + value;
            let told = scale_text(Some(line));
            let number = text::trimmed(value);
            &&& told is Ok <==> text::trimmed(key) == "scale"@ && (number.contains('.')
                || number.contains('e') || number.contains('E'))
            &&& told is Ok ==> told->Ok_0 == number
        }),
        scale_text(None) is Err,
        scale_text(Some(Seq::empty())) is Err,
{
    let line = key + seq!['='] + value;
    reveal_with_fuel(text::trimmed_start, 2);
    reveal_with_fuel(text::trimmed_end, 2);
    assert(line[0] == key[0]);
    assert(line.last() == value.last());
    assert(text::trimmed_start(line) == line);
    assert(text::trimmed_end(line) == line);
    text::law_first_place_is_the_first(line, '=', 0);
    let at = text::first_place(line, '=', 0);
    assert(line[key.len() as int] == '=');
    if at < key.len() {
        assert(key.contains(line[at]));
    }
    assert(at == key.len());
    assert(line.subrange(0, at) =~= key);
    assert(line.subrange(at + 1, line.len() as int) =~= value);
    assert(!line.contains('\n')) by {
        if line.contains('\n') {
            let i = choose|i: int| 0 <= i < line.len() && line[i] == '\n';
            if i < key.len() {
                assert(key.contains(line[i]));
            } else if i > key.len() {
                assert(value.contains(value[i - key.len() - 1]));
            }
        }
    }
}

/// White space around the file does not matter, and a file of more lines than one is refused.
pub proof fn law_scale_stands_alone(content: Seq<char>)
    ensures
        scale_text(Some(text::trimmed(content))) == scale_text(Some(content)),
        text::trimmed(content).contains('\n') ==> scale_text(Some(content)) is Err,
        !text::trimmed(content).contains('=') ==> scale_text(Some(content)) is Err,
{
    let line = text::trimmed(content);
    text::law_trimming_takes_white_space(content);
    assert(text::trimmed_start(line) == line);
    assert(text::trimmed_end(line) == line);
    text::law_first_place_is_the_first(line, '=', 0);
    let at = text::first_place(line, '=', 0);
    if at < line.len() {
        assert(line.contains(line[at]));
    }
}

/// A script is paged if it has bytes and, on machines that can address them, no more than
/// allowed.
pub proof fn law_paged_scripts_are_bounded(len: u64, most: usize)
    requires
        len <= usize::MAX,
    ensures
        length_accepted(len, most) <==> 0 < len <= most,
{
}

/// Such a boot succeeds if and only if it was asked for soundly, the listing came and holds
/// at least one script and no more than allowed, the script has a length that is allowed and
/// was parsed, the screen has a size, the font loaded and the trace was accepted. The core
/// then has that screen, the variables of the script and the first script of the listing.
pub proof fn law_old_school_boot_needs_everything(
    before: CoreView,
    boot: RfvpBootConfig<'_>,
    evidence: OldSchoolEvidence,
)
    ensures
        ({
            let why = old_school_failure(boot, evidence);
            let core = old_school_core(before, boot, evidence);
            &&& why is None <==> {
                &&& boot_config_valid(boot)
                &&& evidence.listing is Ok
                &&& 1 <= evidence.listing->Ok_0@.len() <= boot.max_manifest_entries
                &&& evidence.script_len is Ok
                &&& length_accepted(evidence.script_len->Ok_0, boot.max_hcb_bytes)
                &&& evidence.script is Ok
                &&& evidence.screen is Ok
                &&& evidence.font is Loaded
                &&& evidence.trace_accepted
            }
            &&& why is None ==> {
                let (width, height) = evidence.screen->Ok_0;
                let facts = evidence.script->Ok_0;
                &&& core.config.virtual_width == width
                &&& core.config.virtual_height == height
                &&& core.game.globals.non_volatile == facts.non_volatile_global_count
                &&& core.game.globals.volatile == facts.volatile_global_count
                &&& core.interpreter
                &&& core.loaded is Some
                &&& core.loaded->0.hcb_path == evidence.listing->Ok_0@[0].0@
                &&& core.loaded->0.hcb_info == evidence.listing->Ok_0@[0].1
                &&& core.loaded->0.hcb_manifest.len() == evidence.listing->Ok_0@.len() - 1
            }
            &&& why matches Some((error, words)) ==> core.last_error == Some(error)
                && core.game == before.game && core.config == before.config
        }),
{
}

}
