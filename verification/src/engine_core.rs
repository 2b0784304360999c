//! The engine core as its host drives it: pending events, boot, ticks, and the
//! state that outlives a tick.
//!
//! Scripts, motion and rasterizing run outside. What they produced in one tick
//! comes back as an `EngineReply`, and the core decides what becomes of it.

use bincode::Options;
use vstd::prelude::*;

use crate::digest::Hash256;
use crate::float::Float32;
use crate::global::{Global, GlobalView, HostedGlobalSnapshot, SnapshotView, Variant};
use crate::host_api::{
    AudioParams, AudioStreamDesc, AudioStreamId, ColorRgba, DrawSolidCommand, DrawSpriteCommand,
    EncodedAudioKind, RfvpError, RfvpEvent, RfvpFileInfo, RfvpFileKind, RfvpLogLevel, TextureDesc,
    TextureId, TextureRect,
};
use crate::input::InputAction;
use crate::nls::FvpNls;
use crate::recording::{AudioOp, AudioView, RecordingAudio};
use crate::surface::{DirectFrameCommand, DirectSurfaceTracker, TrackerView};
use crate::text;
use crate::videoplayer::{HostMovieCommand, VideoPlayerManager, VideoView};

verus! {

/// The greatest number of instructions that a trace may keep.
pub const MAX_TRACE_CAPACITY: usize = 65_536;

pub const HOSTED_CORE_SNAPSHOT_VERSION: u16 = 3;

#[derive(Debug, Clone, Copy, PartialEq, Eq, Structural)]
pub struct RfvpCoreConfig {
    pub virtual_width: u32,
    pub virtual_height: u32,
    pub max_pending_events: usize,
}

impl Default for RfvpCoreConfig {
    fn default() -> (r: Self)
        ensures
            r == (RfvpCoreConfig {
                virtual_width: 800,
                virtual_height: 600,
                max_pending_events: 256,
            }),
    {
        RfvpCoreConfig { virtual_width: 800, virtual_height: 600, max_pending_events: 256 }
    }
}

#[derive(Debug, Clone, Copy)]
pub struct RfvpBootConfig<'a> {
    pub asset_root: &'a str,
    pub hcb_extension: &'a str,
    pub max_hcb_bytes: usize,
    pub max_manifest_entries: usize,
    pub nls: FvpNls,
}

impl<'a> Default for RfvpBootConfig<'a> {
    fn default() -> (r: Self)
        ensures
            r.asset_root@ == "."@,
            r.hcb_extension@ == "hcb"@,
            r.max_hcb_bytes == 67_108_864,
            r.max_manifest_entries == 1024,
            r.nls == FvpNls::ShiftJis,
    {
        RfvpBootConfig {
            asset_root: ".",
            hcb_extension: "hcb",
            max_hcb_bytes: 67_108_864,
            max_manifest_entries: 1024,
            nls: FvpNls::ShiftJis,
        }
    }
}

#[derive(Debug, Clone, Copy, PartialEq, Eq, Structural)]
pub struct RfvpTickResult {
    pub frame_index: u64,
    pub consumed_events: usize,
    pub elapsed_us: u64,
}

#[derive(Debug, Clone, Copy, PartialEq, Eq, Structural)]
pub enum RfvpCoreRunState {
    NotBooted,
    Booted,
    BootFailed,
}

#[derive(Debug)]
pub struct RfvpResourceEntry {
    pub path: String,
    pub info: RfvpFileInfo,
}

/// What a boot has loaded.
#[derive(Debug)]
pub struct RfvpLoadedGame {
    pub asset_root: String,
    pub hcb_path: String,
    pub hcb_bytes: Vec<u8>,
    pub hcb_info: RfvpFileInfo,
    pub hcb_manifest: Vec<RfvpResourceEntry>,
}

#[verifier::ext_equal]
pub struct LoadedView {
    pub asset_root: Seq<char>,
    pub hcb_path: Seq<char>,
    pub hcb_bytes: Seq<u8>,
    pub hcb_info: RfvpFileInfo,
    pub hcb_manifest: Seq<(Seq<char>, RfvpFileInfo)>,
}

pub open spec fn resource_views(s: Seq<RfvpResourceEntry>) -> Seq<(Seq<char>, RfvpFileInfo)> {
    Seq::new(s.len(), |i: int| (s[i].path@, s[i].info))
}

impl RfvpLoadedGame {
    pub open spec fn view(&self) -> LoadedView {
        LoadedView {
            asset_root: self.asset_root@,
            hcb_path: self.hcb_path@,
            hcb_bytes: self.hcb_bytes@,
            hcb_info: self.hcb_info,
            hcb_manifest: resource_views(self.hcb_manifest@),
        }
    }
}

/// A text that a script printed.
#[derive(Debug)]
pub struct HostedTextEvent {
    pub slot: u8,
    pub text: String,
}

pub open spec fn text_views(s: Seq<HostedTextEvent>) -> Seq<(u8, Seq<char>)> {
    Seq::new(s.len(), |i: int| (s[i].slot, s[i].text@))
}

/// The part of a running game that the boundary itself reads.
#[derive(Debug)]
pub struct GameState {
    pub video_manager: VideoPlayerManager,
    pub globals: Global,
    pub halted: bool,
    pub main_thread_exited: bool,
    pub should_exit: bool,
    pub text_events: Vec<HostedTextEvent>,
}

#[verifier::ext_equal]
pub struct GameView {
    pub video: VideoView,
    pub globals: GlobalView,
    pub halted: bool,
    pub main_thread_exited: bool,
    pub should_exit: bool,
    pub text_events: Seq<(u8, Seq<char>)>,
}

/// A game that has not run.
pub open spec fn fresh_game(globals: GlobalView) -> GameView {
    GameView {
        video: crate::videoplayer::idle_video(),
        globals,
        halted: false,
        main_thread_exited: false,
        should_exit: false,
        text_events: Seq::empty(),
    }
}

pub open spec fn no_globals() -> GlobalView {
    GlobalView { table: Map::empty(), non_volatile: 0, volatile: 0 }
}

impl GameState {
    pub open spec fn view(&self) -> GameView {
        GameView {
            video: self.video_manager@,
            globals: self.globals@,
            halted: self.halted,
            main_thread_exited: self.main_thread_exited,
            should_exit: self.should_exit,
            text_events: text_views(self.text_events@),
        }
    }

    pub open spec fn wf(&self) -> bool {
        self.globals.wf()
    }

    fn with_globals(globals: Global) -> (r: Self)
        requires
            globals.wf(),
        ensures
            r.wf(),
            r@ == fresh_game(globals@),
    {
        let r = GameState {
            video_manager: VideoPlayerManager::new(),
            globals,
            halted: false,
            main_thread_exited: false,
            should_exit: false,
            text_events: Vec::new(),
        };
        assert(r@ =~= fresh_game(globals@));
        r
    }
}

/// The core.
#[derive(Debug)]
pub struct RfvpCore {
    pub config: RfvpCoreConfig,
    pub pending_events: Vec<RfvpEvent>,
    pub frame_index: u64,
    pub last_tick_us: Option<u64>,
    pub quit_requested: bool,
    pub run_state: RfvpCoreRunState,
    pub loaded_game: Option<RfvpLoadedGame>,
    pub game: GameState,
    /// A script has been parsed and its interpreter has been started.
    pub interpreter: bool,
    pub hosted_trace_capacity: usize,
    pub last_error: Option<RfvpError>,
    pub last_error_detail: Option<String>,
}

#[verifier::ext_equal]
pub struct CoreView {
    pub config: RfvpCoreConfig,
    pub pending: Seq<RfvpEvent>,
    pub frame_index: u64,
    pub last_tick_us: Option<u64>,
    pub quit_requested: bool,
    pub run_state: RfvpCoreRunState,
    pub loaded: Option<LoadedView>,
    pub game: GameView,
    pub interpreter: bool,
    pub trace_capacity: usize,
    pub last_error: Option<RfvpError>,
    pub detail: Option<Seq<char>>,
}

/// A core that has not booted.
pub open spec fn fresh_core(config: RfvpCoreConfig) -> CoreView {
    CoreView {
        config,
        pending: Seq::empty(),
        frame_index: 0,
        last_tick_us: None,
        quit_requested: false,
        run_state: RfvpCoreRunState::NotBooted,
        loaded: None,
        game: fresh_game(no_globals()),
        interpreter: false,
        trace_capacity: 0,
        last_error: None,
        detail: None,
    }
}

// ---------------------------------------------------------------------- booting

/// A line for the host's log.
#[derive(Debug)]
pub struct LogLine {
    pub level: RfvpLogLevel,
    pub message: String,
}

pub open spec fn log_views(s: Seq<LogLine>) -> Seq<(RfvpLogLevel, Seq<char>)> {
    Seq::new(s.len(), |i: int| (s[i].level, s[i].message@))
}

/// A failure that the platform shows to the player.
#[derive(Debug, Clone, Copy, PartialEq, Eq, Structural)]
pub enum FatalErrorCode {
    MissingDefaultFont,
    InvalidDefaultFont,
}

/// What became of the title's font.
#[derive(Debug, Clone, Copy, PartialEq, Eq, Structural)]
pub enum FontReply {
    Missing,
    Invalid,
    Loaded,
}

/// What the script parser reads out of a script.
#[derive(Debug, Clone, Copy, PartialEq, Eq, Structural)]
pub struct ScriptFacts {
    pub screen_width: u32,
    pub screen_height: u32,
    pub non_volatile_global_count: u16,
    pub volatile_global_count: u16,
    pub entry_point: u32,
}

/// Why the archives of a title could not be indexed; an archive with bad metadata
/// is named with the parser's words.
#[derive(Debug)]
pub struct PackFailure {
    pub error: RfvpError,
    pub rejected: Option<(String, String)>,
}

/// What the host and the engine answered while a title booted.
#[derive(Debug)]
pub struct BootEvidence {
    /// The scripts below the asset root.
    pub listing: Result<Vec<(String, RfvpFileInfo)>, RfvpError>,
    /// The bytes of the first script.
    pub script_bytes: Result<Vec<u8>, RfvpError>,
    /// The parsed script, or the parser's words.
    pub script: Result<ScriptFacts, String>,
    pub font: FontReply,
    pub packs: Result<(), PackFailure>,
    /// Whether the interpreter accepted the trace capacity.
    pub trace_accepted: bool,
}

/// What a boot did besides changing the core.
#[derive(Debug)]
pub struct BootOutcome {
    pub logs: Vec<LogLine>,
    pub fatal: Option<(FatalErrorCode, &'static str)>,
    pub result: Result<(), RfvpError>,
}

pub open spec fn has_nul(s: Seq<char>) -> bool {
    s.contains('\0')
}

/// Whether a boot can be tried at all.
pub open spec fn boot_config_valid(boot: RfvpBootConfig<'_>) -> bool {
    &&& boot.asset_root@.len() > 0 && !has_nul(boot.asset_root@)
    &&& boot.hcb_extension@.len() > 0 && !has_nul(boot.hcb_extension@)
    &&& boot.max_hcb_bytes > 0
    &&& boot.max_manifest_entries > 0
}

/// The sentence about a font that is missing or broken.
pub open spec fn font_message(reply: FontReply) -> Seq<char> {
    match reply {
        FontReply::Missing => "Required font file default.ttf was not found in the game directory."@,
        _ => "Required font file default.ttf exists but is not a valid TrueType/OpenType font."@,
    }
}

/// Why a boot fails, and the words kept about it; `None` when it succeeds.
pub open spec fn boot_failure(boot: RfvpBootConfig<'_>, evidence: BootEvidence) -> Option<
    (RfvpError, Option<Seq<char>>),
> {
    if !boot_config_valid(boot) {
        Some((RfvpError::InvalidArgument, None))
    } else if evidence.listing is Err {
        Some((evidence.listing->Err_0, None))
    } else if evidence.listing->Ok_0@.len() > boot.max_manifest_entries {
        Some((RfvpError::CapacityExceeded, None))
    } else if evidence.listing->Ok_0@.len() == 0 {
        Some((RfvpError::NotFound, None))
    } else if evidence.script_bytes is Err {
        Some((evidence.script_bytes->Err_0, None))
    } else if evidence.script is Err {
        Some((RfvpError::InvalidData, Some(evidence.script->Err_0@)))
    } else if evidence.font == FontReply::Missing {
        Some((RfvpError::NotFound, Some(font_message(FontReply::Missing))))
    } else if evidence.font == FontReply::Invalid {
        Some((RfvpError::InvalidData, Some(font_message(FontReply::Invalid))))
    } else if evidence.packs is Err {
        Some((evidence.packs->Err_0.error, None))
    } else if !evidence.trace_accepted {
        Some((RfvpError::CapacityExceeded, None))
    } else {
        None
    }
}

/// The game that a successful boot has loaded.
pub open spec fn booted_game(boot: RfvpBootConfig<'_>, evidence: BootEvidence) -> LoadedView {
    let found = evidence.listing->Ok_0@;
    LoadedView {
        asset_root: boot.asset_root@,
        hcb_path: found[0].0@,
        hcb_bytes: evidence.script_bytes->Ok_0@,
        hcb_info: found[0].1,
        hcb_manifest: crate::hosted_host::line_views(found.subrange(1, found.len() as int)),
    }
}

/// The core after a boot that failed.
pub open spec fn failed_core(before: CoreView, failure: (RfvpError, Option<Seq<char>>)) -> CoreView {
    CoreView {
        run_state: RfvpCoreRunState::BootFailed,
        last_error: Some(failure.0),
        detail: match failure.1 {
            Some(words) => Some(words),
            None => before.detail,
        },
        ..before
    }
}

/// The core after a boot that loaded `game`, a script with these facts, and shows it
/// on a screen of this size.
pub open spec fn started_core(
    before: CoreView,
    game: LoadedView,
    facts: ScriptFacts,
    screen: (u32, u32),
) -> CoreView {
    CoreView {
        config: RfvpCoreConfig {
            virtual_width: screen.0,
            virtual_height: screen.1,
            ..before.config
        },
        run_state: RfvpCoreRunState::Booted,
        loaded: Some(game),
        game: fresh_game(
            (GlobalView {
                non_volatile: facts.non_volatile_global_count,
                volatile: facts.volatile_global_count,
                ..no_globals()
            }).assigned(
                0,
                Seq::new(
                    (facts.non_volatile_global_count + facts.volatile_global_count) as nat,
                    |i: int| Variant::Nil,
                ),
            ),
        ),
        interpreter: true,
        last_error: None,
        detail: None,
        ..before
    }
}

/// The core after a boot.
pub open spec fn booted_core(before: CoreView, boot: RfvpBootConfig<'_>, evidence: BootEvidence) -> CoreView {
    match boot_failure(boot, evidence) {
        Some(failure) => failed_core(before, failure),
        None => {
            let facts = evidence.script->Ok_0;
            started_core(
                before,
                booted_game(boot, evidence),
                facts,
                (facts.screen_width, facts.screen_height),
            )
        },
    }
}

/// The lines that a boot writes to the host's log.
pub open spec fn boot_logs(boot: RfvpBootConfig<'_>, evidence: BootEvidence) -> Seq<
    (RfvpLogLevel, Seq<char>),
> {
    let scanning = (RfvpLogLevel::Info, "rfvp no_std boot: scanning asset root for HCB"@);
    if !boot_config_valid(boot) {
        Seq::empty()
    } else {
        match boot_failure(boot, evidence) {
            None => seq![
                scanning,
                (
                    RfvpLogLevel::Info,
                    "rfvp no_std boot: parsed real HCB, initialized real GameData, and started VmRunner"@,
                ),
            ],
            Some(_) => if reaches_packs(boot, evidence) && evidence.packs is Err
                && evidence.packs->Err_0.rejected is Some {
                let rejected = evidence.packs->Err_0.rejected->0;
                seq![
                    scanning,
                    (
                        RfvpLogLevel::Warn,
                        "failed to parse host pack metadata "@ + rejected.0@ + ": "@ + rejected.1@,
                    ),
                ]
            } else {
                seq![scanning]
            },
        }
    }
}

/// Whether the global variables of a script have numbers.
pub open spec fn numbered(script: Result<ScriptFacts, String>) -> bool {
    script is Ok ==> script->Ok_0.non_volatile_global_count + script->Ok_0.volatile_global_count
        <= u16::MAX
}

/// Whether a script that was read is no longer than a boot allows.
pub open spec fn within_limit(script_bytes: Result<Vec<u8>, RfvpError>, max_hcb_bytes: usize) -> bool {
    script_bytes is Ok ==> script_bytes->Ok_0@.len() <= max_hcb_bytes
}

/// What a boot tells besides changing the core: its log, its result, and the code and
/// sentence for the platform where the font is at fault.
pub open spec fn boot_told(
    boot: RfvpBootConfig<'_>,
    evidence: BootEvidence,
    outcome: BootOutcome,
) -> bool {
    &&& log_views(outcome.logs@) == boot_logs(boot, evidence)
    &&& match boot_failure(boot, evidence) {
        None => outcome.result is Ok,
        Some(failure) => outcome.result is Err && outcome.result->Err_0 == failure.0,
    }
    &&& if reaches_font(boot, evidence) && evidence.font != FontReply::Loaded {
        &&& outcome.fatal is Some
        &&& (outcome.fatal->0).0 == if evidence.font == FontReply::Missing {
            FatalErrorCode::MissingDefaultFont
        } else {
            FatalErrorCode::InvalidDefaultFont
        }
        &&& (outcome.fatal->0).1@ == font_message(evidence.font)
    } else {
        outcome.fatal is None
    }
}

/// Whether a boot comes as far as indexing the archives.
pub open spec fn reaches_packs(boot: RfvpBootConfig<'_>, evidence: BootEvidence) -> bool {
    &&& boot_config_valid(boot)
    &&& evidence.listing is Ok
    &&& 0 < evidence.listing->Ok_0@.len() <= boot.max_manifest_entries
    &&& evidence.script_bytes is Ok
    &&& evidence.script is Ok
    &&& evidence.font == FontReply::Loaded
}

/// Whether a boot comes as far as loading the font.
pub open spec fn reaches_font(boot: RfvpBootConfig<'_>, evidence: BootEvidence) -> bool {
    &&& boot_config_valid(boot)
    &&& evidence.listing is Ok
    &&& 0 < evidence.listing->Ok_0@.len() <= boot.max_manifest_entries
    &&& evidence.script_bytes is Ok
    &&& evidence.script is Ok
}

fn text_valid(s: &str) -> (r: bool)
    ensures
        r == (s@.len() > 0 && !has_nul(s@)),
{
    let v = text::chars_of(s);
    v.len() > 0 && !text::has_char(&v, '\0')
}

/// Whether a boot can be tried with this configuration.
pub fn boot_config_ok(boot: &RfvpBootConfig<'_>) -> (r: bool)
    ensures
        r == boot_config_valid(*boot),
{
    text_valid(boot.asset_root) && text_valid(boot.hcb_extension) && boot.max_hcb_bytes > 0
        && boot.max_manifest_entries > 0
}

/// Picks the script to boot: the first of the listing; the others stay listed.
pub fn find_hcb(found: Result<Vec<(String, RfvpFileInfo)>, RfvpError>, max_manifest_entries: usize) -> (r:
    Result<(String, RfvpFileInfo, Vec<RfvpResourceEntry>), RfvpError>)
    ensures
        match found {
            Err(e) => r is Err && r->Err_0 == e,
            Ok(list) => if list@.len() > max_manifest_entries {
                r is Err && r->Err_0 == RfvpError::CapacityExceeded
            } else if list@.len() == 0 {
                r is Err && r->Err_0 == RfvpError::NotFound
            } else {
                &&& r is Ok
                &&& r->Ok_0.0@ == list@[0].0@
                &&& r->Ok_0.1 == list@[0].1
                &&& resource_views(r->Ok_0.2@) == crate::hosted_host::line_views(
                    list@.subrange(1, list@.len() as int),
                )
            },
        },
{
    let list = match found {
        Ok(v) => v,
        Err(e) => return Err(e),
    };
    if list.len() > max_manifest_entries {
        return Err(RfvpError::CapacityExceeded);
    }
    if list.len() == 0 {
        return Err(RfvpError::NotFound);
    }
    let path = text::owned(list[0].0.as_str());
    let info = list[0].1;
    let ghost rest = crate::hosted_host::line_views(list@.subrange(1, list@.len() as int));
    let mut manifest: Vec<RfvpResourceEntry> = Vec::new();
    let mut i: usize = 1;
    while i < list.len()
        invariant
            1 <= i <= list@.len(),
            rest == crate::hosted_host::line_views(list@.subrange(1, list@.len() as int)),
            resource_views(manifest@) =~= rest.subrange(0, i - 1),
        decreases list@.len() - i,
    {
        let ghost before = resource_views(manifest@);
        let entry = RfvpResourceEntry { path: text::owned(list[i].0.as_str()), info: list[i].1 };
        manifest.push(entry);
        assert(resource_views(manifest@) =~= before.push((entry.path@, entry.info)));
        i = i + 1;
    }
    assert(resource_views(manifest@) =~= rest);
    Ok((path, info, manifest))
}

/// What a missing or broken font means: the failure, the code for the platform and
/// the sentence.
pub fn load_required_default_font(reply: FontReply) -> (r: Result<
    (),
    (RfvpError, FatalErrorCode, &'static str),
>)
    ensures
        match reply {
            FontReply::Loaded => r is Ok,
            FontReply::Missing => {
                &&& r is Err
                &&& r->Err_0.0 == RfvpError::NotFound
                &&& r->Err_0.1 == FatalErrorCode::MissingDefaultFont
                &&& r->Err_0.2@ == font_message(reply)
            },
            FontReply::Invalid => {
                &&& r is Err
                &&& r->Err_0.0 == RfvpError::InvalidData
                &&& r->Err_0.1 == FatalErrorCode::InvalidDefaultFont
                &&& r->Err_0.2@ == font_message(reply)
            },
        },
{
    match reply {
        FontReply::Loaded => Ok(()),
        FontReply::Missing => Err(
            (
                RfvpError::NotFound,
                FatalErrorCode::MissingDefaultFont,
                "Required font file default.ttf was not found in the game directory.",
            ),
        ),
        FontReply::Invalid => Err(
            (
                RfvpError::InvalidData,
                FatalErrorCode::InvalidDefaultFont,
                "Required font file default.ttf exists but is not a valid TrueType/OpenType font.",
            ),
        ),
    }
}

/// The last segment of a path.
pub open spec fn file_name(path: Seq<char>) -> Seq<char> {
    match crate::hosted_host::last_place(path, '/', path.len() as int) {
        Some(i) => path.subrange(i + 1, path.len() as int),
        None => path,
    }
}

/// The folder under which the entries of an archive are found: its file name
/// without `.bin`, or the whole path when the name does not end so.
pub open spec fn folder_of(path: Seq<char>) -> Seq<char> {
    let name = file_name(path);
    if text::has_suffix(name, ".bin"@) {
        name.subrange(0, name.len() - 4)
    } else {
        path
    }
}

/// The folder of an archive.
pub fn pack_folder(path: &str) -> (r: String)
    ensures
        r@ == folder_of(path@),
{
    let v = text::chars_of(path);
    let start: usize = match crate::hosted_host::find_last(&v, '/') {
        Some(i) => i + 1,
        None => 0,
    };
    let name = text::slice_chars(&v, start, v.len());
    assert(name@ =~= file_name(path@));
    proof {
        reveal_strlit(".bin");
    }
    if text::ends_with(&name, ".bin") {
        text::string_of_range(&name, 0, name.len() - 4)
    } else {
        text::owned(path)
    }
}

/// The paths of those lines that are files.
pub open spec fn file_paths(lines: Seq<(String, RfvpFileInfo)>) -> Seq<Seq<char>>
    decreases lines.len(),
{
    if lines.len() == 0 {
        Seq::empty()
    } else if lines.last().1.kind == RfvpFileKind::File {
        file_paths(lines.drop_last()).push(lines.last().0@)
    } else {
        file_paths(lines.drop_last())
    }
}

/// The archives to index: those lines of the enumeration that are files.
pub fn build_host_vfs(lines: &Vec<(String, RfvpFileInfo)>) -> (r: Vec<String>)
    ensures
        crate::hosted_host::path_views(r@) == file_paths(lines@),
{
    let mut packs: Vec<String> = Vec::new();
    let mut i: usize = 0;
    assert(lines@.subrange(0, 0) =~= Seq::<(String, RfvpFileInfo)>::empty());
    assert(crate::hosted_host::path_views(packs@) =~= Seq::<Seq<char>>::empty());
    while i < lines.len()
        invariant
            i <= lines@.len(),
            crate::hosted_host::path_views(packs@) == file_paths(lines@.subrange(0, i as int)),
        decreases lines@.len() - i,
    {
        let ghost next = lines@.subrange(0, i + 1);
        assert(next.drop_last() =~= lines@.subrange(0, i as int));
        assert(next.last() == lines@[i as int]);
        if lines[i].1.kind == RfvpFileKind::File {
            let ghost before = crate::hosted_host::path_views(packs@);
            packs.push(text::owned(lines[i].0.as_str()));
            assert(crate::hosted_host::path_views(packs@) =~= before.push(lines@[i as int].0@));
        }
        i = i + 1;
    }
    assert(lines@.subrange(0, lines@.len() as int) =~= lines@);
    packs
}

// ----------------------------------------------------------------------- ticks

/// What one tick starts from.
#[derive(Debug)]
pub struct TickStart {
    pub elapsed_us: u64,
    /// The time that scripts and motion advance by.
    pub frame_time_ms: u64,
    pub consumed_events: usize,
    pub input: Vec<InputAction>,
    /// An event asked to quit; the host's log gets a line about it.
    pub quit: bool,
}

/// An audio command of the engine.
#[allow(inconsistent_fields)]
#[derive(Debug)]
pub enum AudioCommand {
    LoadEncoded {
        id: AudioStreamId,
        kind: EncodedAudioKind,
        resource_uri: Option<String>,
        bytes: Vec<u8>,
    },
    CreateStream { id: AudioStreamId, desc: AudioStreamDesc },
    SubmitI16 { id: AudioStreamId, samples: Vec<i16> },
    SubmitF32 { id: AudioStreamId, samples: Vec<Float32> },
    Play { id: AudioStreamId, params: AudioParams, fade_in_ms: u32 },
    Stop { id: AudioStreamId, fade_ms: u32 },
    Pause { id: AudioStreamId },
    Resume { id: AudioStreamId },
    SetParams { id: AudioStreamId, params: AudioParams },
    DestroyStream { id: AudioStreamId },
    MasterVolume { volume: Float32 },
}

impl AudioCommand {
    /// The operation that a command stands for. A payload with a resource name is
    /// passed on by that name alone.
    pub open spec fn op(self) -> AudioOp {
        match self {
            AudioCommand::LoadEncoded { id, kind, resource_uri, bytes } => match resource_uri {
                Some(uri) => AudioOp::LoadResource { id, kind, resource_uri: uri@ },
                None => AudioOp::LoadEncoded { id, kind, bytes: bytes@ },
            },
            AudioCommand::CreateStream { id, desc } => AudioOp::CreateStream { id, desc },
            AudioCommand::SubmitI16 { id, samples } => AudioOp::SubmitI16 { id, samples: samples@ },
            AudioCommand::SubmitF32 { id, samples } => AudioOp::SubmitF32 { id, samples: samples@ },
            AudioCommand::Play { id, params, fade_in_ms } => AudioOp::Play { id, params, fade_in_ms },
            AudioCommand::Stop { id, fade_ms } => AudioOp::Stop { id, fade_ms },
            AudioCommand::Pause { id } => AudioOp::Pause(id),
            AudioCommand::Resume { id } => AudioOp::Resume(id),
            AudioCommand::SetParams { id, params } => AudioOp::SetParams { id, params },
            AudioCommand::DestroyStream { id } => AudioOp::DestroyStream(id),
            AudioCommand::MasterVolume { volume } => AudioOp::SetMasterVolume(volume),
        }
    }
}

/// The record after the commands from `i` on; it stops at the first that is
/// refused. Ending a stream is never refused.
pub open spec fn flushed(audio: AudioView, commands: Seq<AudioCommand>, i: int) -> (
    AudioView,
    Result<(), RfvpError>,
)
    decreases commands.len() - i,
{
    if i >= commands.len() {
        (audio, Ok(()))
    } else {
        let next = audio.recorded(commands[i].op());
        if next.1 is Err && !(commands[i] is DestroyStream) {
            next
        } else {
            flushed(next.0, commands, i + 1)
        }
    }
}

/// Hands the engine's audio commands to the record of the step.
pub fn flush_audio(audio: &mut RecordingAudio, commands: &Vec<AudioCommand>) -> (r: Result<
    (),
    RfvpError,
>)
    ensures
        (final(audio)@, r) == flushed(old(audio)@, commands@, 0),
{
    let mut i: usize = 0;
    let ghost expected = flushed(audio@, commands@, 0);
    while i < commands.len()
        invariant
            i <= commands@.len(),
            expected == flushed(audio@, commands@, i as int),
            expected == flushed(old(audio)@, commands@, 0),
        decreases commands@.len() - i,
    {
        let r = match &commands[i] {
            AudioCommand::LoadEncoded { id, kind, resource_uri, bytes } => match resource_uri {
                Some(uri) => audio.load_resource(*id, *kind, uri.as_str()),
                None => audio.load_encoded(*id, *kind, bytes.as_slice()),
            },
            AudioCommand::CreateStream { id, desc } => audio.create_stream(*id, *desc),
            AudioCommand::SubmitI16 { id, samples } => audio.submit_i16(*id, samples.as_slice()),
            AudioCommand::SubmitF32 { id, samples } => audio.submit_f32(*id, samples.as_slice()),
            AudioCommand::Play { id, params, fade_in_ms } => audio.play(*id, *params, *fade_in_ms),
            AudioCommand::Stop { id, fade_ms } => audio.stop(*id, *fade_ms),
            AudioCommand::Pause { id } => audio.pause(*id),
            AudioCommand::Resume { id } => audio.resume(*id),
            AudioCommand::SetParams { id, params } => audio.set_params(*id, *params),
            AudioCommand::DestroyStream { id } => {
                audio.destroy_stream(*id);
                Ok(())
            },
            AudioCommand::MasterVolume { volume } => audio.set_master_volume(*volume),
        };
        match r {
            Err(e) => return Err(e),
            Ok(_) => {},
        }
        i = i + 1;
    }
    Ok(())
}

/// One call of the engine's renderer. Of pixels only their amount is of interest.
#[allow(inconsistent_fields)]
#[derive(Debug, Clone, Copy)]
pub enum RenderCall {
    CreateTexture { id: TextureId, desc: TextureDesc, pixels: Option<usize> },
    UpdateTexture { id: TextureId, rect: TextureRect, pixels: usize },
    DestroyTexture { id: TextureId },
    BeginFrame { width: u32, height: u32, clear: Option<ColorRgba> },
    DrawSprite { command: DrawSpriteCommand },
    DrawSolid { command: DrawSolidCommand },
    EndFrame,
    Present,
}

/// The tracker after a call, and why the call failed if it did.
pub open spec fn called(tracker: TrackerView, call: RenderCall) -> (TrackerView, Result<(), RfvpError>) {
    match call {
        RenderCall::CreateTexture { id, desc, pixels } => {
            let len = match pixels {
                Some(n) => Some(n as int),
                None => None,
            };
            match tracker.create_fault(desc, len) {
                Some(e) => (tracker, Err(e)),
                None => (tracker.created(id, desc), Ok(())),
            }
        },
        RenderCall::UpdateTexture { id, rect, pixels } => match tracker.update_fault(
            id,
            rect,
            pixels as int,
        ) {
            Some(e) => (tracker, Err(e)),
            None => (tracker.touched(id), Ok(())),
        },
        RenderCall::DestroyTexture { id } => (tracker.destroyed(id), Ok(())),
        RenderCall::BeginFrame { width, height, clear } => if width == 0 || height == 0 {
            (tracker, Err(RfvpError::InvalidArgument))
        } else {
            drawn(tracker, DirectFrameCommand::BeginFrame { width, height, clear })
        },
        RenderCall::DrawSprite { command } => drawn(
            tracker,
            DirectFrameCommand::DrawSprite(command),
        ),
        RenderCall::DrawSolid { command } => drawn(tracker, DirectFrameCommand::DrawSolid(command)),
        RenderCall::EndFrame => drawn(tracker, DirectFrameCommand::EndFrame),
        RenderCall::Present => {
            let next = drawn(tracker, DirectFrameCommand::Present);
            if next.1 is Ok {
                (next.0.presented(), next.1)
            } else {
                next
            }
        },
    }
}

/// The tracker after a frame command.
pub open spec fn drawn(tracker: TrackerView, command: DirectFrameCommand) -> (
    TrackerView,
    Result<(), RfvpError>,
) {
    match tracker.failure {
        Some(e) => (tracker, Err(e)),
        None => (tracker.pushed(command), Ok(())),
    }
}

/// The tracker after the calls from `i` on; it stops at the first that fails.
pub open spec fn rendered(tracker: TrackerView, calls: Seq<RenderCall>, i: int) -> (
    TrackerView,
    Result<(), RfvpError>,
)
    decreases calls.len() - i,
{
    if i >= calls.len() {
        (tracker, Ok(()))
    } else {
        let next = called(tracker, calls[i]);
        if next.1 is Err {
            next
        } else {
            rendered(next.0, calls, i + 1)
        }
    }
}

/// Hands one renderer call to the tracker.
pub fn track_call(tracker: &mut DirectSurfaceTracker, call: RenderCall) -> (r: Result<(), RfvpError>)
    ensures
        (final(tracker)@, r) == called(old(tracker)@, call),
{
    let r = match call {
        RenderCall::CreateTexture { id, desc, pixels } => tracker.create_sized(id, desc, pixels),
        RenderCall::UpdateTexture { id, rect, pixels } => tracker.update_sized(id, rect, pixels),
        RenderCall::DestroyTexture { id } => {
            tracker.destroy_texture(id);
            Ok(())
        },
        RenderCall::BeginFrame { width, height, clear } => tracker.begin_frame(width, height, clear),
        RenderCall::DrawSprite { command } => tracker.draw_sprite(&command),
        RenderCall::DrawSolid { command } => tracker.draw_solid(&command),
        RenderCall::EndFrame => tracker.end_frame(),
        RenderCall::Present => tracker.present(),
    };
    match r {
        Ok(_) => Ok(()),
        Err(e) => Err(e),
    }
}

/// Hands the engine's renderer calls to the tracker.
pub fn render_game_frame(tracker: &mut DirectSurfaceTracker, calls: &Vec<RenderCall>) -> (r: Result<
    (),
    RfvpError,
>)
    ensures
        (final(tracker)@, r) == rendered(old(tracker)@, calls@, 0),
{
    let mut i: usize = 0;
    while i < calls.len()
        invariant
            i <= calls@.len(),
            rendered(old(tracker)@, calls@, 0) == rendered(tracker@, calls@, i as int),
        decreases calls@.len() - i,
    {
        match track_call(tracker, calls[i]) {
            Err(e) => return Err(e),
            Ok(_) => {},
        }
        i = i + 1;
    }
    Ok(())
}

/// What the engine did in one tick.
#[derive(Debug)]
pub struct EngineReply {
    /// Whether the script ran, or the interpreter's words.
    pub script: Result<(), String>,
    /// The variables that the script set, in this order.
    pub globals: Vec<(u16, Variant)>,
    pub movies: Vec<HostMovieCommand>,
    pub text: Vec<HostedTextEvent>,
    pub main_thread_exited: bool,
    pub should_exit: bool,
    pub halted: bool,
    pub audio: Vec<AudioCommand>,
    pub render: Vec<RenderCall>,
}


// ------------------------------------------------------------- engine effects

/// The video state after the requests from `i` on were queued.
pub open spec fn queued(video: VideoView, movies: Seq<HostMovieCommand>, i: int) -> VideoView
    decreases movies.len() - i,
{
    if i >= movies.len() {
        video
    } else {
        queued(video.started(movies[i]@), movies, i + 1)
    }
}

/// The game after the engine ran for one tick.
pub open spec fn advanced(game: GameView, engine: EngineReply) -> GameView {
    GameView {
        video: queued(game.video, engine.movies@, 0),
        globals: game.globals.written(engine.globals@, 0),
        halted: engine.halted,
        main_thread_exited: engine.main_thread_exited,
        should_exit: engine.should_exit,
        text_events: game.text_events + text_views(engine.text@),
    }
}

/// Whether a session is over: the host asked to quit, or the script ended.
pub open spec fn is_terminal(core: CoreView) -> bool {
    core.quit_requested || core.game.main_thread_exited || core.game.should_exit
}

/// What a tick leaves behind and returns.
#[verifier::ext_equal]
pub struct TickOutcome {
    pub core: CoreView,
    pub audio: AudioView,
    pub tracker: TrackerView,
    pub logs: crate::recording::LogsView,
    pub result: Result<RfvpTickResult, RfvpError>,
}

/// The core after a tick began: events are consumed, a quit event is remembered.
pub open spec fn tick_begun(core: CoreView, now: u64) -> CoreView {
    CoreView {
        pending: Seq::empty(),
        last_tick_us: Some(now),
        quit_requested: core.quit_requested || crate::input::asks_to_quit(core.pending),
        ..core
    }
}

/// The time since the last tick; zero for the first one and for a clock that went
/// back.
pub open spec fn elapsed_since(last: Option<u64>, now: u64) -> u64 {
    match last {
        Some(before) => if now >= before {
            (now - before) as u64
        } else {
            0
        },
        None => 0,
    }
}

/// The log after a line about the quit event.
pub open spec fn quit_logged(logs: crate::recording::LogsView, quit: bool) -> crate::recording::LogsView {
    if quit {
        logs.recorded(RfvpLogLevel::Info, "quit requested by host event"@)
    } else {
        logs
    }
}

/// A tick from its start to its end.
pub open spec fn ticked(
    core: CoreView,
    start: TickStart,
    engine: EngineReply,
    audio: AudioView,
    tracker: TrackerView,
    logs: crate::recording::LogsView,
) -> TickOutcome {
    let first_logs = quit_logged(logs, start.quit);
    let clocked = audio.recorded(AudioOp::Tick { elapsed_us: start.elapsed_us });
    let quiet = TickOutcome {
        core,
        audio: clocked.0,
        tracker,
        logs: first_logs,
        result: Err(RfvpError::InvalidData),
    };
    if clocked.1 is Err {
        TickOutcome { result: Err(clocked.1->Err_0), ..quiet }
    } else if core.interpreter {
        let ran = CoreView { game: advanced(core.game, engine), ..core };
        match engine.script {
            Err(words) => TickOutcome {
                core: CoreView {
                    last_error: Some(RfvpError::Unsupported),
                    detail: Some(words@),
                    ..ran
                },
                logs: first_logs.recorded(RfvpLogLevel::Error, words@),
                result: Err(RfvpError::Unsupported),
                ..quiet
            },
            Ok(_) => {
                let sounded = flushed(clocked.0, engine.audio@, 0);
                if sounded.1 is Err {
                    TickOutcome {
                        core: ran,
                        audio: sounded.0,
                        result: Err(sounded.1->Err_0),
                        ..quiet
                    }
                } else {
                    let shown = rendered(tracker, engine.render@, 0);
                    let seen = TickOutcome {
                        core: ran,
                        audio: sounded.0,
                        tracker: shown.0,
                        ..quiet
                    };
                    if shown.1 is Err {
                        TickOutcome { result: Err(shown.1->Err_0), ..seen }
                    } else {
                        counted(seen, start)
                    }
                }
            },
        }
    } else if core.run_state == RfvpCoreRunState::BootFailed {
        TickOutcome {
            result: Err(
                match core.last_error {
                    Some(e) => e,
                    None => RfvpError::InvalidData,
                },
            ),
            ..quiet
        }
    } else {
        counted(quiet, start)
    }
}

/// The end of a tick that did not fail: the frame is counted.
pub open spec fn counted(outcome: TickOutcome, start: TickStart) -> TickOutcome {
    let index = if outcome.core.frame_index == u64::MAX {
        0
    } else {
        (outcome.core.frame_index + 1) as u64
    };
    TickOutcome {
        core: CoreView { frame_index: index, ..outcome.core },
        result: Ok(
            RfvpTickResult {
                frame_index: index,
                consumed_events: start.consumed_events,
                elapsed_us: start.elapsed_us,
            },
        ),
        ..outcome
    }
}

// -------------------------------------------------------------------- snapshots

/// An exact checkpoint of a booted session.
#[derive(Debug)]
pub struct HostedCoreSnapshot {
    pub version: u16,
    pub frame_index: u64,
    pub last_tick_us: Option<u64>,
    pub quit_requested: bool,
    pub globals: HostedGlobalSnapshot,
    pub video: VideoPlayerManager,
    pub halted: bool,
    pub main_thread_exited: bool,
    pub should_exit: bool,
    /// The state of the interpreter and of its managers, as the engine wrote it.
    pub engine: Vec<u8>,
}

/// What a checkpoint holds of the core itself.
#[verifier::ext_equal]
pub struct CheckpointView {
    pub version: u16,
    pub frame_index: u64,
    pub last_tick_us: Option<u64>,
    pub quit_requested: bool,
    pub globals: SnapshotView,
    pub video: VideoView,
    pub halted: bool,
    pub main_thread_exited: bool,
    pub should_exit: bool,
}

impl HostedCoreSnapshot {
    pub open spec fn view(&self) -> CheckpointView {
        CheckpointView {
            version: self.version,
            frame_index: self.frame_index,
            last_tick_us: self.last_tick_us,
            quit_requested: self.quit_requested,
            globals: self.globals@,
            video: self.video@,
            halted: self.halted,
            main_thread_exited: self.main_thread_exited,
            should_exit: self.should_exit,
        }
    }
}

/// The checkpoint of a core.
pub open spec fn checkpoint_of(core: CoreView) -> CheckpointView {
    CheckpointView {
        version: HOSTED_CORE_SNAPSHOT_VERSION,
        frame_index: core.frame_index,
        last_tick_us: core.last_tick_us,
        quit_requested: core.quit_requested,
        globals: core.game.globals.captured(),
        video: core.game.video,
        halted: core.game.halted,
        main_thread_exited: core.game.main_thread_exited,
        should_exit: core.game.should_exit,
    }
}

/// Whether a core can return to a checkpoint: it has booted, and a script with as many
/// variables.
pub open spec fn checkpoint_fits(core: CoreView, checkpoint: CheckpointView) -> bool {
    &&& checkpoint.version == HOSTED_CORE_SNAPSHOT_VERSION
    &&& core.run_state == RfvpCoreRunState::Booted
    &&& core.game.globals.fits(checkpoint.globals)
}

/// A core that returned to a checkpoint. Texts that nobody has taken yet stay.
pub open spec fn restored_core(core: CoreView, checkpoint: CheckpointView) -> CoreView {
    CoreView {
        frame_index: checkpoint.frame_index,
        last_tick_us: checkpoint.last_tick_us,
        quit_requested: checkpoint.quit_requested,
        game: GameView {
            video: checkpoint.video,
            globals: core.game.globals.assigned(0, checkpoint.globals.values),
            halted: checkpoint.halted,
            main_thread_exited: checkpoint.main_thread_exited,
            should_exit: checkpoint.should_exit,
            text_events: core.game.text_events,
        },
        last_error: None,
        detail: None,
        ..core
    }
}

/// Digests of the parts of a state.
#[derive(Debug, Clone, Copy)]
pub struct HostedStateComponentHashesV1 {
    pub session: Hash256,
    pub globals: Hash256,
    pub input_and_time: Hash256,
    pub runtime: Hash256,
    pub motion: Hash256,
    pub audio: Hash256,
    pub vm: Hash256,
}

/// The parts of a state in their canonical bytes.
#[derive(Debug)]
pub struct CanonicalParts {
    /// The variables of the core, as the engine writes them.
    pub globals: Vec<u8>,
    pub input_and_time: Vec<u8>,
    pub runtime: Vec<u8>,
    pub motion: Vec<u8>,
    pub audio: Vec<u8>,
    pub vm: Vec<u8>,
}

#[verifier::ext_equal]
pub struct PartsView {
    pub globals: Seq<u8>,
    pub input_and_time: Seq<u8>,
    pub runtime: Seq<u8>,
    pub motion: Seq<u8>,
    pub audio: Seq<u8>,
    pub vm: Seq<u8>,
}

impl CanonicalParts {
    pub open spec fn view(&self) -> PartsView {
        PartsView {
            globals: self.globals@,
            input_and_time: self.input_and_time@,
            runtime: self.runtime@,
            motion: self.motion@,
            audio: self.audio@,
            vm: self.vm@,
        }
    }
}

#[verifier::ext_equal]
pub struct HashesView {
    pub session: Seq<u8>,
    pub globals: Seq<u8>,
    pub input_and_time: Seq<u8>,
    pub runtime: Seq<u8>,
    pub motion: Seq<u8>,
    pub audio: Seq<u8>,
    pub vm: Seq<u8>,
}

impl HostedStateComponentHashesV1 {
    pub open spec fn view(&self) -> HashesView {
        HashesView {
            session: self.session@,
            globals: self.globals@,
            input_and_time: self.input_and_time@,
            runtime: self.runtime@,
            motion: self.motion@,
            audio: self.audio@,
            vm: self.vm@,
        }
    }
}

/// The session part of the state of a core.
pub open spec fn session_part(core: CoreView) -> Seq<u8> {
    session_bytes(1, core.frame_index, core.last_tick_us, core.quit_requested)
}

/// The digests of the state of a core; `None` if it has not booted.
pub open spec fn state_hashes(core: CoreView, parts: PartsView) -> Option<HashesView> {
    if core.run_state == RfvpCoreRunState::Booted {
        Some(
            HashesView {
                session: crate::digest::sha256_of(session_part(core)),
                globals: crate::digest::sha256_of(parts.globals),
                input_and_time: crate::digest::sha256_of(parts.input_and_time),
                runtime: crate::digest::sha256_of(parts.runtime),
                motion: crate::digest::sha256_of(parts.motion),
                audio: crate::digest::sha256_of(parts.audio),
                vm: crate::digest::sha256_of(parts.vm),
            },
        )
    } else {
        None
    }
}

/// The state of a core in its canonical bytes; `None` if it has not booted.
pub open spec fn state_bytes(core: CoreView, parts: PartsView) -> Option<Seq<u8>> {
    if core.run_state == RfvpCoreRunState::Booted {
        Some(
            session_part(core) + parts.globals + parts.input_and_time + parts.runtime
                + parts.motion + parts.audio + parts.vm,
        )
    } else {
        None
    }
}

pub open spec fn u16_bytes(x: u16) -> Seq<u8> {
    seq![(x % 0x100) as u8, (x / 0x100) as u8]
}

pub open spec fn u64_bytes(x: u64) -> Seq<u8> {
    seq![
        (x % 0x100) as u8,
        (x / 0x100 % 0x100) as u8,
        (x / 0x1_0000 % 0x100) as u8,
        (x / 0x100_0000 % 0x100) as u8,
        (x / 0x1_0000_0000 % 0x100) as u8,
        (x / 0x100_0000_0000 % 0x100) as u8,
        (x / 0x1_0000_0000_0000 % 0x100) as u8,
        (x / 0x100_0000_0000_0000 % 0x100) as u8,
    ]
}

/// The session part of a state: version, frame, time of the last tick behind a
/// presence byte, and the quit flag, in little-endian fields of fixed size.
pub open spec fn session_bytes(version: u16, frame: u64, last: Option<u64>, quit: bool) -> Seq<u8> {
    u16_bytes(version) + u64_bytes(frame) + match last {
        Some(t) => seq![1u8] + u64_bytes(t),
        None => seq![0u8],
    } + if quit {
        seq![1u8]
    } else {
        seq![0u8]
    }
}

/// `Options::serialize` of `bincode` with fixed-size integers in little-endian
/// order and no size limit, on a tuple of numbers: it succeeds, and gives the fields
/// one after another, an optional number behind one byte that tells whether it is
/// there, a flag as one byte.
#[verifier::external_body]
fn encode_session(version: u16, frame: u64, last: Option<u64>, quit: bool) -> (r: Option<Vec<u8>>)
    ensures
        r is Some && r->0@ == session_bytes(version, frame, last, quit),
{
    bincode::DefaultOptions::new()
        .with_fixint_encoding()
        .with_little_endian()
        .serialize(&(version, frame, last, quit))
        .ok()
}

/// The digest of one part.
pub fn hosted_component_hash(bytes: &[u8]) -> (r: Hash256)
    ensures
        r@ == crate::digest::sha256_of(bytes@),
{
    Hash256::from_sha256(bytes)
}

/// What the session's archive index answered for a resource: the length that it
/// knows, and at most one byte more than was asked for.
#[derive(Debug)]
pub enum PackReply {
    Missing,
    Stream { known_len: Option<u64>, bytes: Option<Vec<u8>> },
}

/// Whether a resource name and a limit make sense.
pub open spec fn resource_request_valid(uri: Seq<char>, max_bytes: usize) -> bool {
    uri.len() > 0 && !has_nul(uri) && max_bytes > 0
}

/// The bytes of a resource of the archive index, or why they are not delivered.
pub open spec fn packed_resource(max_bytes: usize, reply: PackReply) -> Result<Seq<u8>, RfvpError> {
    match reply {
        PackReply::Missing => Err(RfvpError::NotFound),
        PackReply::Stream { known_len, bytes } => if known_len is Some && known_len->0 > max_bytes {
            Err(RfvpError::CapacityExceeded)
        } else if max_bytes == usize::MAX {
            Err(RfvpError::CapacityExceeded)
        } else {
            match bytes {
                None => Err(RfvpError::Io),
                Some(b) => if b@.len() > max_bytes {
                    Err(RfvpError::CapacityExceeded)
                } else {
                    Ok(b@)
                },
            }
        },
    }
}

// --------------------------------------------------------------------- the core

impl RfvpCore {
    pub open spec fn view(&self) -> CoreView {
        CoreView {
            config: self.config,
            pending: self.pending_events@,
            frame_index: self.frame_index,
            last_tick_us: self.last_tick_us,
            quit_requested: self.quit_requested,
            run_state: self.run_state,
            loaded: match self.loaded_game {
                Some(g) => Some(g@),
                None => None,
            },
            game: self.game@,
            interpreter: self.interpreter,
            trace_capacity: self.hosted_trace_capacity,
            last_error: self.last_error,
            detail: match self.last_error_detail {
                Some(d) => Some(d@),
                None => None,
            },
        }
    }

    /// The variables have numbers, and a booted core has an interpreter.
    pub open spec fn wf(&self) -> bool {
        &&& self.game.wf()
        &&& self.run_state == RfvpCoreRunState::Booted ==> self.interpreter
    }

    pub fn new(config: RfvpCoreConfig) -> (r: Self)
        ensures
            r.wf(),
            r@ == fresh_core(config),
    {
        let r = RfvpCore {
            config,
            pending_events: Vec::new(),
            frame_index: 0,
            last_tick_us: None,
            quit_requested: false,
            run_state: RfvpCoreRunState::NotBooted,
            loaded_game: None,
            game: GameState::with_globals(Global::new()),
            interpreter: false,
            hosted_trace_capacity: 0,
            last_error: None,
            last_error_detail: None,
        };
        assert(r@ =~= fresh_core(config));
        r
    }

    pub fn config(&self) -> (r: RfvpCoreConfig)
        ensures
            r == self@.config,
    {
        self.config
    }

    pub fn frame_index(&self) -> (r: u64)
        ensures
            r == self@.frame_index,
    {
        self.frame_index
    }

    pub fn quit_requested(&self) -> (r: bool)
        ensures
            r == self@.quit_requested,
    {
        self.quit_requested
    }

    /// Whether the session is over: the host asked to quit, or the script ended.
    pub fn hosted_terminal(&self) -> (r: bool)
        ensures
            r == is_terminal(self@),
    {
        self.quit_requested || self.game.main_thread_exited || self.game.should_exit
    }

    pub fn run_state(&self) -> (r: RfvpCoreRunState)
        ensures
            r == self@.run_state,
    {
        self.run_state
    }

    pub fn loaded_game(&self) -> (r: Option<&RfvpLoadedGame>)
        ensures
            match r {
                Some(g) => self@.loaded == Some(g@),
                None => self@.loaded is None,
            },
    {
        self.loaded_game.as_ref()
    }

    pub fn last_error(&self) -> (r: Option<RfvpError>)
        ensures
            r == self@.last_error,
    {
        self.last_error
    }

    pub fn last_error_detail(&self) -> (r: Option<&str>)
        ensures
            match r {
                Some(d) => self@.detail == Some(d@),
                None => self@.detail is None,
            },
    {
        match &self.last_error_detail {
            Some(d) => Some(d.as_str()),
            None => None,
        }
    }

    /// Sets the length of the instruction trace. A running interpreter decides
    /// itself whether it accepts the length; before that the core's limit holds.
    pub fn set_hosted_trace_capacity(&mut self, capacity: usize, accepted: bool) -> (r: Result<
        (),
        RfvpError,
    >)
        requires
            old(self).wf(),
        ensures
            final(self).wf(),
            ({
                let fine = if old(self)@.interpreter {
                    accepted
                } else {
                    capacity <= MAX_TRACE_CAPACITY
                };
                if fine {
                    &&& r is Ok
                    &&& final(self)@ == (CoreView { trace_capacity: capacity, ..old(self)@ })
                } else {
                    &&& r is Err && r->Err_0 == RfvpError::CapacityExceeded
                    &&& final(self)@ == old(self)@
                }
            }),
    {
        if self.interpreter {
            if !accepted {
                return Err(RfvpError::CapacityExceeded);
            }
        } else if capacity > MAX_TRACE_CAPACITY {
            return Err(RfvpError::CapacityExceeded);
        }
        self.hosted_trace_capacity = capacity;
        Ok(())
    }

    /// The instruction trace `records` of the interpreter, if one runs.
    pub fn hosted_trace<T>(&self, records: Vec<T>) -> (r: Result<Vec<T>, RfvpError>)
        ensures
            if self@.interpreter {
                r is Ok && r->Ok_0 == records
            } else {
                r is Err && r->Err_0 == RfvpError::InvalidData
            },
    {
        if self.interpreter {
            Ok(records)
        } else {
            Err(RfvpError::InvalidData)
        }
    }

    /// The movie requests that the host has not seen yet.
    pub fn take_hosted_video_commands(&mut self) -> (r: Vec<HostMovieCommand>)
        requires
            old(self).wf(),
        ensures
            final(self).wf(),
            crate::videoplayer::movie_views(r@) == old(self)@.game.video.pending,
            final(self)@ == (CoreView {
                game: GameView {
                    video: VideoView { pending: Seq::empty(), ..old(self)@.game.video },
                    ..old(self)@.game
                },
                ..old(self)@
            }),
    {
        let mut commands: Vec<HostMovieCommand> = Vec::new();
        self.game.video_manager.drain_host_commands(&mut commands);
        assert(commands@ =~= old(self).game.video_manager.pending_commands@);
        commands
    }

    /// The texts that scripts have printed since they were last asked for.
    pub fn take_hosted_text_events(&mut self) -> (r: Vec<HostedTextEvent>)
        requires
            old(self).wf(),
        ensures
            final(self).wf(),
            text_views(r@) == old(self)@.game.text_events,
            final(self)@ == (CoreView {
                game: GameView { text_events: Seq::empty(), ..old(self)@.game },
                ..old(self)@
            }),
    {
        let mut r: Vec<HostedTextEvent> = Vec::new();
        core::mem::swap(&mut r, &mut self.game.text_events);
        assert(text_views(self.game.text_events@) =~= Seq::<(u8, Seq<char>)>::empty());
        r
    }

    /// Ends the movie that plays; the script goes on.
    pub fn complete_hosted_video(&mut self) -> (r: Result<(), RfvpError>)
        requires
            old(self).wf(),
        ensures
            final(self).wf(),
            if old(self)@.game.video.playing {
                &&& r is Ok
                &&& final(self)@ == (CoreView {
                    game: GameView {
                        video: old(self)@.game.video.stopped(),
                        halted: false,
                        ..old(self)@.game
                    },
                    ..old(self)@
                })
            } else {
                &&& r is Err && r->Err_0 == RfvpError::InvalidData
                &&& final(self)@ == old(self)@
            },
    {
        if !self.game.video_manager.is_playing() {
            return Err(RfvpError::InvalidData);
        }
        self.game.video_manager.stop();
        self.game.halted = false;
        Ok(())
    }

    /// An exact checkpoint; `engine` is what the engine wrote of its own state.
    pub fn capture_hosted_snapshot(&self, engine: Vec<u8>) -> (r: Result<HostedCoreSnapshot, RfvpError>)
        requires
            self.wf(),
        ensures
            if self@.run_state == RfvpCoreRunState::Booted {
                &&& r is Ok
                &&& r->Ok_0@ == checkpoint_of(self@)
                &&& r->Ok_0.engine == engine
            } else {
                r is Err && r->Err_0 == RfvpError::InvalidData
            },
    {
        if self.run_state != RfvpCoreRunState::Booted || !self.interpreter {
            return Err(RfvpError::InvalidData);
        }
        Ok(
            HostedCoreSnapshot {
                version: HOSTED_CORE_SNAPSHOT_VERSION,
                frame_index: self.frame_index,
                last_tick_us: self.last_tick_us,
                quit_requested: self.quit_requested,
                globals: self.game.globals.capture_hosted_snapshot(),
                video: self.game.video_manager.copied(),
                halted: self.game.halted,
                main_thread_exited: self.game.main_thread_exited,
                should_exit: self.game.should_exit,
                engine,
            },
        )
    }

    /// Returns to a checkpoint; `engine_applied` tells whether the engine took its
    /// own part back.
    pub fn restore_hosted_snapshot(&mut self, snapshot: &HostedCoreSnapshot, engine_applied: bool) -> (r:
        Result<(), RfvpError>)
        requires
            old(self).wf(),
        ensures
            final(self).wf(),
            if checkpoint_fits(old(self)@, snapshot@) && engine_applied {
                &&& r is Ok
                &&& final(self)@ == restored_core(old(self)@, snapshot@)
            } else {
                &&& r is Err && r->Err_0 == RfvpError::InvalidData
                &&& final(self)@ == old(self)@
            },
    {
        if snapshot.version != HOSTED_CORE_SNAPSHOT_VERSION || self.run_state
            != RfvpCoreRunState::Booted {
            return Err(RfvpError::InvalidData);
        }
        if !self.interpreter {
            return Err(RfvpError::InvalidData);
        }
        if !engine_applied {
            return Err(RfvpError::InvalidData);
        }
        if !self.game.globals.restore_hosted_snapshot(&snapshot.globals) {
            return Err(RfvpError::InvalidData);
        }
        self.frame_index = snapshot.frame_index;
        self.last_tick_us = snapshot.last_tick_us;
        self.quit_requested = snapshot.quit_requested;
        self.game.video_manager = snapshot.video.copied();
        self.game.halted = snapshot.halted;
        self.game.main_thread_exited = snapshot.main_thread_exited;
        self.game.should_exit = snapshot.should_exit;
        self.last_error = None;
        self.last_error_detail = None;
        Ok(())
    }

    /// The digests of the parts of the state; the session part is written here, the
    /// others come in their canonical bytes.
    pub fn canonical_hosted_state_component_hashes(&self, parts: &CanonicalParts) -> (r: Result<
        HostedStateComponentHashesV1,
        RfvpError,
    >)
        requires
            self.wf(),
        ensures
            match state_hashes(self@, parts@) {
                Some(hashes) => r is Ok && r->Ok_0@ == hashes,
                None => r is Err && r->Err_0 == RfvpError::InvalidData,
            },
    {
        if self.run_state != RfvpCoreRunState::Booted || !self.interpreter {
            return Err(RfvpError::InvalidData);
        }
        let session = match encode_session(
            1,
            self.frame_index,
            self.last_tick_us,
            self.quit_requested,
        ) {
            Some(bytes) => bytes,
            None => return Err(RfvpError::InvalidData),
        };
        Ok(
            HostedStateComponentHashesV1 {
                session: hosted_component_hash(session.as_slice()),
                globals: hosted_component_hash(parts.globals.as_slice()),
                input_and_time: hosted_component_hash(parts.input_and_time.as_slice()),
                runtime: hosted_component_hash(parts.runtime.as_slice()),
                motion: hosted_component_hash(parts.motion.as_slice()),
                audio: hosted_component_hash(parts.audio.as_slice()),
                vm: hosted_component_hash(parts.vm.as_slice()),
            },
        )
    }

    /// The state as a whole in its canonical bytes: the session part, then the parts
    /// that come in theirs, in the order of their fields.
    pub fn canonical_hosted_state_bytes(&self, parts: &CanonicalParts) -> (r: Result<
        Vec<u8>,
        RfvpError,
    >)
        requires
            self.wf(),
        ensures
            match state_bytes(self@, parts@) {
                Some(bytes) => r is Ok && r->Ok_0@ == bytes,
                None => r is Err && r->Err_0 == RfvpError::InvalidData,
            },
    {
        if self.run_state != RfvpCoreRunState::Booted || !self.interpreter {
            return Err(RfvpError::InvalidData);
        }
        let mut state = match encode_session(
            1,
            self.frame_index,
            self.last_tick_us,
            self.quit_requested,
        ) {
            Some(bytes) => bytes,
            None => return Err(RfvpError::InvalidData),
        };
        state.extend_from_slice(parts.globals.as_slice());
        state.extend_from_slice(parts.input_and_time.as_slice());
        state.extend_from_slice(parts.runtime.as_slice());
        state.extend_from_slice(parts.motion.as_slice());
        state.extend_from_slice(parts.audio.as_slice());
        state.extend_from_slice(parts.vm.as_slice());
        Ok(state)
    }

    /// Draws a frame of a game without content: the engine's renderer calls go to
    /// the tracker as in any frame.
    pub fn render_empty_frame(&self, tracker: &mut DirectSurfaceTracker, calls: &Vec<RenderCall>) -> (r:
        Result<(), RfvpError>)
        ensures
            (final(tracker)@, r) == rendered(old(tracker)@, calls@, 0),
    {
        render_game_frame(tracker, calls)
    }

    /// Draws a frame that shows the state of the game, in the same way.
    pub fn render_status_frame(&self, tracker: &mut DirectSurfaceTracker, calls: &Vec<RenderCall>) -> (r:
        Result<(), RfvpError>)
        ensures
            (final(tracker)@, r) == rendered(old(tracker)@, calls@, 0),
    {
        render_game_frame(tracker, calls)
    }

    /// Queues an event for the next tick.
    pub fn push_event(&mut self, event: RfvpEvent) -> (r: Result<(), RfvpError>)
        requires
            old(self).wf(),
        ensures
            final(self).wf(),
            if old(self)@.pending.len() < old(self)@.config.max_pending_events {
                &&& r is Ok
                &&& final(self)@ == (CoreView {
                    pending: old(self)@.pending.push(event),
                    ..old(self)@
                })
            } else {
                &&& r is Err && r->Err_0 == RfvpError::CapacityExceeded
                &&& final(self)@ == old(self)@
            },
    {
        if self.pending_events.len() >= self.config.max_pending_events {
            return Err(RfvpError::CapacityExceeded);
        }
        self.pending_events.push(event);
        Ok(())
    }

    /// The bytes of a resource that the session's archive index holds.
    pub fn read_hosted_resource(&self, resource_uri: &str, max_bytes: usize, reply: PackReply) -> (r:
        Result<Vec<u8>, RfvpError>)
        ensures
            if !resource_request_valid(resource_uri@, max_bytes) {
                r is Err && r->Err_0 == RfvpError::InvalidArgument
            } else {
                match packed_resource(max_bytes, reply) {
                    Ok(bytes) => r is Ok && r->Ok_0@ == bytes,
                    Err(e) => r is Err && r->Err_0 == e,
                }
            },
    {
        if !text_valid(resource_uri) || max_bytes == 0 {
            return Err(RfvpError::InvalidArgument);
        }
        match reply {
            PackReply::Missing => Err(RfvpError::NotFound),
            PackReply::Stream { known_len, bytes } => {
                match known_len {
                    Some(len) => if len > max_bytes as u64 {
                        return Err(RfvpError::CapacityExceeded);
                    },
                    None => {},
                }
                if max_bytes == usize::MAX {
                    return Err(RfvpError::CapacityExceeded);
                }
                match bytes {
                    None => Err(RfvpError::Io),
                    Some(b) => if b.len() > max_bytes {
                        Err(RfvpError::CapacityExceeded)
                    } else {
                        Ok(b)
                    },
                }
            },
        }
    }

    pub fn clear_events(&mut self)
        requires
            old(self).wf(),
        ensures
            final(self).wf(),
            final(self)@ == (CoreView { pending: Seq::empty(), ..old(self)@ }),
    {
        self.pending_events.clear();
        assert(self@ =~= (CoreView { pending: Seq::empty(), ..old(self)@ }));
    }

    /// Boots a title from what the host and the engine answered. A script whose
    /// global variables have no numbers is not admitted, nor one that is longer than
    /// the configuration allows.
    pub fn boot(&mut self, boot: RfvpBootConfig<'_>, evidence: BootEvidence) -> (r: BootOutcome)
        requires
            old(self).wf(),
            numbered(evidence.script),
            within_limit(evidence.script_bytes, boot.max_hcb_bytes),
        ensures
            final(self).wf(),
            final(self)@ == booted_core(old(self)@, boot, evidence),
            boot_told(boot, evidence, r),
            r.result is Ok ==> final(self)@.loaded is Some && final(self)@.loaded->0.hcb_bytes.len()
                <= boot.max_hcb_bytes,
    {
        let mut outcome = BootOutcome { logs: Vec::new(), fatal: None, result: Ok(()) };
        let result = self.try_boot(boot, evidence, &mut outcome);
        self.conclude(result);
        outcome.result = result;
        assert(self@ =~= booted_core(old(self)@, boot, evidence));
        outcome
    }

    pub(crate) fn log(outcome: &mut BootOutcome, level: RfvpLogLevel, message: String)
        ensures
            log_views(final(outcome).logs@) == log_views(old(outcome).logs@).push((level, message@)),
            final(outcome).fatal == old(outcome).fatal,
            final(outcome).result == old(outcome).result,
    {
        outcome.logs.push(LogLine { level, message });
        assert(log_views(outcome.logs@) =~= log_views(old(outcome).logs@).push((level, message@)));
    }

    #[verifier::rlimit(40)]
    fn try_boot(&mut self, boot: RfvpBootConfig<'_>, evidence: BootEvidence, outcome: &mut BootOutcome) -> (r:
        Result<(), RfvpError>)
        requires
            old(self).wf(),
            old(outcome).logs@.len() == 0,
            old(outcome).fatal is None,
            numbered(evidence.script),
        ensures
            final(self).wf(),
            log_views(final(outcome).logs@) == boot_logs(boot, evidence),
            match boot_failure(boot, evidence) {
                None => {
                    &&& r is Ok
                    &&& final(self)@.interpreter
                    &&& final(outcome).fatal is None
                    &&& (CoreView {
                        run_state: RfvpCoreRunState::Booted,
                        last_error: None,
                        detail: None,
                        ..final(self)@
                    }) == booted_core(old(self)@, boot, evidence)
                },
                Some(failure) => {
                    &&& r is Err && r->Err_0 == failure.0
                    &&& final(self)@ == (CoreView {
                        detail: match failure.1 {
                            Some(words) => Some(words),
                            None => old(self)@.detail,
                        },
                        ..old(self)@
                    })
                    &&& (reaches_font(boot, evidence) && evidence.font != FontReply::Loaded) == (
                    final(outcome).fatal is Some)
                    &&& final(outcome).fatal is Some ==> {
                        &&& (final(outcome).fatal->0).0 == if evidence.font == FontReply::Missing {
                            FatalErrorCode::MissingDefaultFont
                        } else {
                            FatalErrorCode::InvalidDefaultFont
                        }
                        &&& (final(outcome).fatal->0).1@ == font_message(evidence.font)
                    }
                },
            },
    {
        assert(log_views(outcome.logs@) =~= Seq::<(RfvpLogLevel, Seq<char>)>::empty());
        if !boot_config_ok(&boot) {
            return Err(RfvpError::InvalidArgument);
        }
        Self::log(
            outcome,
            RfvpLogLevel::Info,
            text::owned("rfvp no_std boot: scanning asset root for HCB"),
        );
        let ghost scanned = seq![
            (RfvpLogLevel::Info, "rfvp no_std boot: scanning asset root for HCB"@),
        ];
        assert(log_views(outcome.logs@) =~= scanned);
        let (hcb_path, hcb_info, hcb_manifest) = match find_hcb(
            evidence.listing,
            boot.max_manifest_entries,
        ) {
            Ok(v) => v,
            Err(e) => return Err(e),
        };
        let hcb_bytes = match evidence.script_bytes {
            Ok(v) => v,
            Err(e) => return Err(e),
        };
        let facts = match evidence.script {
            Ok(v) => v,
            Err(words) => {
                self.last_error_detail = Some(words);
                return Err(RfvpError::InvalidData);
            },
        };
        match load_required_default_font(evidence.font) {
            Ok(_) => {},
            Err((error, code, message)) => {
                outcome.fatal = Some((code, message));
                self.last_error_detail = Some(text::owned(message));
                return Err(error);
            },
        }
        match evidence.packs {
            Ok(_) => {},
            Err(failure) => {
                match failure.rejected {
                    Some((path, words)) => {
                        let head = text::join3(
                            "failed to parse host pack metadata ",
                            path.as_str(),
                            ": ",
                        );
                        let message = text::join2(head.as_str(), words.as_str());
                        Self::log(outcome, RfvpLogLevel::Warn, message);
                        assert(log_views(outcome.logs@) =~= boot_logs(boot, evidence));
                    },
                    None => {},
                }
                return Err(failure.error);
            },
        }
        if !evidence.trace_accepted {
            return Err(RfvpError::CapacityExceeded);
        }
        Self::log(
            outcome,
            RfvpLogLevel::Info,
            text::owned(
                "rfvp no_std boot: parsed real HCB, initialized real GameData, and started VmRunner",
            ),
        );
        assert(log_views(outcome.logs@) =~= boot_logs(boot, evidence));
        let loaded = RfvpLoadedGame {
            asset_root: text::owned(boot.asset_root),
            hcb_path,
            hcb_bytes,
            hcb_info,
            hcb_manifest,
        };
        assert(loaded@ =~= booted_game(boot, evidence));
        self.install(loaded, facts, facts.screen_width, facts.screen_height);
        Ok(())
    }

    /// Takes over a game that a boot has loaded.
    pub(crate) fn install(
        &mut self,
        loaded: RfvpLoadedGame,
        facts: ScriptFacts,
        width: u32,
        height: u32,
    )
        requires
            old(self).wf(),
            facts.non_volatile_global_count + facts.volatile_global_count <= u16::MAX,
        ensures
            final(self).wf(),
            (CoreView {
                run_state: RfvpCoreRunState::Booted,
                last_error: None,
                detail: None,
                ..final(self)@
            }) == started_core(old(self)@, loaded@, facts, (width, height)),
    {
        let mut globals = Global::new();
        globals.init_with(facts.non_volatile_global_count, facts.volatile_global_count);
        self.loaded_game = Some(loaded);
        self.config.virtual_width = width;
        self.config.virtual_height = height;
        self.game = GameState::with_globals(globals);
        self.interpreter = true;
    }

    /// Remembers how a boot ended.
    pub(crate) fn conclude(&mut self, result: Result<(), RfvpError>)
        requires
            old(self).game.wf(),
            result is Ok ==> old(self)@.interpreter,
        ensures
            final(self).wf(),
            final(self)@ == match result {
                Ok(_) => CoreView {
                    run_state: RfvpCoreRunState::Booted,
                    last_error: None,
                    detail: None,
                    ..old(self)@
                },
                Err(e) => CoreView {
                    run_state: RfvpCoreRunState::BootFailed,
                    last_error: Some(e),
                    ..old(self)@
                },
            },
    {
        match result {
            Ok(_) => {
                self.run_state = RfvpCoreRunState::Booted;
                self.last_error = None;
                self.last_error_detail = None;
            },
            Err(e) => {
                self.run_state = RfvpCoreRunState::BootFailed;
                self.last_error = Some(e);
            },
        }
    }

    /// Begins a tick at the host's time `now`.
    pub fn begin_tick(&mut self, now: u64) -> (r: TickStart)
        requires
            old(self).wf(),
        ensures
            final(self).wf(),
            final(self)@ == tick_begun(old(self)@, now),
            r.elapsed_us == elapsed_since(old(self)@.last_tick_us, now),
            r.frame_time_ms == r.elapsed_us / 1_000,
            r.consumed_events == old(self)@.pending.len(),
            r.input@ == crate::input::actions_of(old(self)@.pending),
            r.quit == crate::input::asks_to_quit(old(self)@.pending),
    {
        let elapsed_us: u64 = match self.last_tick_us {
            Some(before) => now.saturating_sub(before),
            None => 0,
        };
        self.last_tick_us = Some(now);
        let consumed_events: usize = self.pending_events.len();
        let input = crate::input::apply_pending_events_to_game_data(&self.pending_events);
        let quit = crate::input::wants_quit(&self.pending_events);
        self.pending_events.clear();
        if quit {
            self.quit_requested = true;
        }
        assert(self@ =~= tick_begun(old(self)@, now));
        TickStart { elapsed_us, frame_time_ms: elapsed_us / 1_000, consumed_events, input, quit }
    }

    /// Takes over what the engine did to the game.
    fn absorb(
        &mut self,
        globals: Vec<(u16, Variant)>,
        movies: &Vec<HostMovieCommand>,
        mut text_events: Vec<HostedTextEvent>,
        main_thread_exited: bool,
        should_exit: bool,
        halted: bool,
    )
        requires
            old(self).wf(),
        ensures
            final(self).wf(),
            final(self)@ == (CoreView {
                game: GameView {
                    video: queued(old(self)@.game.video, movies@, 0),
                    globals: old(self)@.game.globals.written(globals@, 0),
                    halted,
                    main_thread_exited,
                    should_exit,
                    text_events: old(self)@.game.text_events + text_views(text_events@),
                },
                ..old(self)@
            }),
    {
        self.game.globals.write(globals);
        let ghost written = self@;
        let mut i: usize = 0;
        while i < movies.len()
            invariant
                i <= movies@.len(),
                self.wf(),
                queued(old(self)@.game.video, movies@, 0) == queued(
                    self@.game.video,
                    movies@,
                    i as int,
                ),
                self@ == (CoreView {
                    game: GameView { video: self@.game.video, ..written.game },
                    ..written
                }),
            decreases movies@.len() - i,
        {
            let copy = movies[i].copied();
            self.game.video_manager.queue(copy);
            i = i + 1;
        }
        let ghost added = text_views(text_events@);
        let ghost before = text_views(self.game.text_events@);
        self.game.text_events.append(&mut text_events);
        assert(text_views(self.game.text_events@) =~= before + added);
        self.game.main_thread_exited = main_thread_exited;
        self.game.should_exit = should_exit;
        self.game.halted = halted;
    }

    /// Ends a tick with what the engine did in it.
    #[verifier::rlimit(40)]
    pub fn tick(
        &mut self,
        start: &TickStart,
        engine: EngineReply,
        audio: &mut RecordingAudio,
        tracker: &mut DirectSurfaceTracker,
        logs: &mut crate::recording::RecordingLogs,
    ) -> (r: Result<RfvpTickResult, RfvpError>)
        requires
            old(self).wf(),
        ensures
            final(self).wf(),
            ({
                let outcome = ticked(
                    old(self)@,
                    *start,
                    engine,
                    old(audio)@,
                    old(tracker)@,
                    old(logs)@,
                );
                &&& final(self)@ == outcome.core
                &&& final(audio)@ == outcome.audio
                &&& final(tracker)@ == outcome.tracker
                &&& final(logs)@ == outcome.logs
                &&& r == outcome.result
            }),
    {
        if start.quit {
            logs.record(RfvpLogLevel::Info, "quit requested by host event");
        }
        match audio.tick(start.elapsed_us) {
            Err(e) => return Err(e),
            Ok(_) => {},
        }
        if self.interpreter {
            self.absorb(
                engine.globals,
                &engine.movies,
                engine.text,
                engine.main_thread_exited,
                engine.should_exit,
                engine.halted,
            );
            match engine.script {
                Err(words) => {
                    logs.record(RfvpLogLevel::Error, words.as_str());
                    self.last_error = Some(RfvpError::Unsupported);
                    self.last_error_detail = Some(words);
                    return Err(RfvpError::Unsupported);
                },
                Ok(_) => {},
            }
            match flush_audio(audio, &engine.audio) {
                Err(e) => return Err(e),
                Ok(_) => {},
            }
            match render_game_frame(tracker, &engine.render) {
                Err(e) => return Err(e),
                Ok(_) => {},
            }
        } else if self.run_state == RfvpCoreRunState::BootFailed {
            return Err(
                match self.last_error {
                    Some(e) => e,
                    None => RfvpError::InvalidData,
                },
            );
        }
        self.frame_index = self.frame_index.wrapping_add(1);
        Ok(
            RfvpTickResult {
                frame_index: self.frame_index,
                consumed_events: start.consumed_events,
                elapsed_us: start.elapsed_us,
            },
        )
    }
}

// ----------------------------------------------------------------------- laws

/// A checkpoint of one core, restored into another one that booted the same kind
/// of script, brings back all that it holds: the frame, the clock, the quit flag, the
/// movie, whether the game is halted or has ended, and every global variable.
pub proof fn law_core_snapshot_round_trip(taken: CoreView, other: CoreView)
    requires
        taken.game.globals.wf(),
        other.run_state == RfvpCoreRunState::Booted,
        other.game.globals.non_volatile == taken.game.globals.non_volatile,
        other.game.globals.volatile == taken.game.globals.volatile,
    ensures
        checkpoint_fits(other, checkpoint_of(taken)),
        checkpoint_of(restored_core(other, checkpoint_of(taken))) == checkpoint_of(taken),
        is_terminal(restored_core(other, checkpoint_of(taken))) == is_terminal(taken),
{
    crate::global::law_snapshot_round_trip(taken.game.globals, other.game.globals);
}

/// A restore brings the identity of the state back. The session part is hashed as at
/// the checkpoint; where the engine writes its parts as it did then, all hashes and the
/// canonical bytes are the same.
pub proof fn law_restore_brings_the_hashes_back(
    taken: CoreView,
    other: CoreView,
    parts_then: PartsView,
    parts_now: PartsView,
)
    requires
        taken.run_state == RfvpCoreRunState::Booted,
        checkpoint_fits(other, checkpoint_of(taken)),
    ensures
        ({
            let restored = restored_core(other, checkpoint_of(taken));
            &&& state_hashes(restored, parts_now) is Some
            &&& state_hashes(restored, parts_now)->0.session == state_hashes(
                taken,
                parts_then,
            )->0.session
            &&& parts_now == parts_then ==> {
                &&& state_hashes(restored, parts_now) == state_hashes(taken, parts_then)
                &&& state_bytes(restored, parts_now) == state_bytes(taken, parts_then)
            }
        }),
{
}

/// Ticks do not spoil a checkpoint: a core that could return to one still can after a
/// tick, however the tick ends.
pub proof fn law_checkpoint_fits_after_a_tick(
    core: CoreView,
    now: u64,
    start: TickStart,
    engine: EngineReply,
    audio: AudioView,
    tracker: TrackerView,
    logs: crate::recording::LogsView,
    checkpoint: CheckpointView,
)
    requires
        checkpoint_fits(core, checkpoint),
    ensures
        checkpoint_fits(
            ticked(tick_begun(core, now), start, engine, audio, tracker, logs).core,
            checkpoint,
        ),
{
    crate::global::lemma_written_value(core.game.globals, engine.globals@, 0, 0);
}

/// What a script sets reaches the checkpoint: after a tick in which the interpreter
/// ran, each variable that the script set last to a value is captured with that value,
/// and each that it left alone as it was before.
pub proof fn law_checkpoint_holds_what_the_script_set(
    core: CoreView,
    start: TickStart,
    engine: EngineReply,
    audio: AudioView,
    tracker: TrackerView,
    logs: crate::recording::LogsView,
    key: u16,
)
    requires
        core.interpreter,
        core.game.globals.wf(),
        key < core.game.globals.non_volatile + core.game.globals.volatile,
    ensures
        ({
            let outcome = ticked(core, start, engine, audio, tracker, logs);
            let captured = outcome.core.game.globals.captured().values;
            outcome.result is Ok ==> captured[key as int] == match crate::global::last_write(
                engine.globals@,
                key,
            ) {
                Some(value) => value,
                None => core.game.globals.value(key as int),
            }
        }),
{
    crate::global::lemma_written_value(core.game.globals, engine.globals@, 0, key);
    let writes = engine.globals@;
    assert(writes.subrange(0, writes.len() as int) =~= writes);
}

/// A tick that succeeds counts one frame; a tick that fails counts none.
pub proof fn law_tick_counts_frames(
    core: CoreView,
    start: TickStart,
    engine: EngineReply,
    audio: AudioView,
    tracker: TrackerView,
    logs: crate::recording::LogsView,
)
    ensures
        ({
            let outcome = ticked(core, start, engine, audio, tracker, logs);
            match outcome.result {
                Ok(tick) => {
                    &&& outcome.core.frame_index == tick.frame_index
                    &&& core.frame_index < u64::MAX ==> tick.frame_index == core.frame_index + 1
                    &&& tick.elapsed_us == start.elapsed_us
                    &&& tick.consumed_events == start.consumed_events
                },
                Err(_) => outcome.core.frame_index == core.frame_index,
            }
        }),
{
}

/// A boot that succeeds has loaded the first script of the listing, within the length
/// that the configuration allows; the other scripts stay listed, in their order.
pub proof fn law_boot_loads_the_first_script(
    before: CoreView,
    boot: RfvpBootConfig<'_>,
    evidence: BootEvidence,
)
    requires
        within_limit(evidence.script_bytes, boot.max_hcb_bytes),
        boot_failure(boot, evidence) is None,
    ensures
        ({
            let listed = crate::hosted_host::line_views(evidence.listing->Ok_0@);
            let core = booted_core(before, boot, evidence);
            &&& core.run_state == RfvpCoreRunState::Booted
            &&& core.loaded matches Some(game)
            &&& game.asset_root == boot.asset_root@
            &&& game.hcb_bytes == evidence.script_bytes->Ok_0@
            &&& game.hcb_bytes.len() <= boot.max_hcb_bytes
            &&& (game.hcb_path, game.hcb_info) == listed[0]
            &&& game.hcb_manifest == listed.skip(1)
            &&& 1 + game.hcb_manifest.len() <= boot.max_manifest_entries
        }),
{
    let found = evidence.listing->Ok_0@;
    assert(crate::hosted_host::line_views(found.subrange(1, found.len() as int))
        =~= crate::hosted_host::line_views(found).skip(1));
}

/// Once an event has asked to quit, the core stays terminal whatever the engine
/// does.
pub proof fn law_quit_is_final(
    core: CoreView,
    now: u64,
    start: TickStart,
    engine: EngineReply,
    audio: AudioView,
    tracker: TrackerView,
    logs: crate::recording::LogsView,
)
    requires
        core.quit_requested || crate::input::asks_to_quit(core.pending),
    ensures
        tick_begun(core, now).quit_requested,
        ticked(tick_begun(core, now), start, engine, audio, tracker, logs).core.quit_requested,
{
}

/// A boot succeeds if and only if it was asked for with names that have characters and no
/// NUL and with limits above zero, the listing came and holds at least one script and no more
/// than allowed, the script was read and parsed, the font loaded, the archives were indexed
/// and the trace was accepted. What fails first is the failure.
pub proof fn law_boot_needs_everything(boot: RfvpBootConfig<'_>, evidence: BootEvidence)
    ensures
        ({
            let asked = {
                &&& boot.asset_root@.len() > 0 && !boot.asset_root@.contains('\0')
                &&& boot.hcb_extension@.len() > 0 && !boot.hcb_extension@.contains('\0')
                &&& boot.max_hcb_bytes > 0
                &&& boot.max_manifest_entries > 0
            };
            let listed = evidence.listing is Ok && 1 <= evidence.listing->Ok_0@.len()
                <= boot.max_manifest_entries;
            let parsed = evidence.script_bytes is Ok && evidence.script is Ok;
            let why = boot_failure(boot, evidence);
            let (why_error, why_words) = why->0;
            &&& why is None <==> asked && listed && parsed && evidence.font is Loaded
                && evidence.packs is Ok && evidence.trace_accepted
            &&& !asked ==> why_error == RfvpError::InvalidArgument
            &&& asked ==> (evidence.listing matches Err(e) ==> why_error == e)
            &&& asked && evidence.listing is Ok && evidence.listing->Ok_0@.len() == 0 ==> why_error
                == RfvpError::NotFound
            &&& asked && evidence.listing is Ok && evidence.listing->Ok_0@.len()
                > boot.max_manifest_entries ==> why_error == RfvpError::CapacityExceeded
            &&& asked && listed ==> (evidence.script_bytes matches Err(e) ==> why_error == e)
            &&& asked && listed && evidence.script_bytes is Ok ==> (evidence.script matches Err(
                words,
            ) ==> why_error == RfvpError::InvalidData && why_words == Some(words@))
            &&& asked && listed && parsed && evidence.font is Missing ==> why_error
                == RfvpError::NotFound
            &&& asked && listed && parsed && evidence.font is Invalid ==> why_error
                == RfvpError::InvalidData
            &&& asked && listed && parsed && evidence.font is Loaded ==> (evidence.packs matches Err(
                failure,
            ) ==> why_error == failure.error)
        }),
{
}

/// A booted core has the screen and as many variables of each kind as the script asks for,
/// all of them nil, a game that has not run, and no error. A core that failed to boot keeps
/// what it had and remembers the failure.
pub proof fn law_booted_core_is_the_script(
    before: CoreView,
    boot: RfvpBootConfig<'_>,
    evidence: BootEvidence,
    key: u16,
)
    requires
        numbered(evidence.script),
    ensures
        ({
            let core = booted_core(before, boot, evidence);
            let why = boot_failure(boot, evidence);
            &&& why is None ==> {
                let facts = evidence.script->Ok_0;
                &&& core.config.virtual_width == facts.screen_width
                &&& core.config.virtual_height == facts.screen_height
                &&& core.config.max_pending_events == before.config.max_pending_events
                &&& core.game.globals.non_volatile == facts.non_volatile_global_count
                &&& core.game.globals.volatile == facts.volatile_global_count
                &&& core.game.globals.value(key as int) is Nil
                &&& core.game.globals.table.contains_key(key) <==> key
                    < facts.non_volatile_global_count + facts.volatile_global_count
                &&& core.interpreter
                &&& !core.game.halted && !core.game.main_thread_exited && !core.game.should_exit
                &&& !core.game.video.playing && core.game.video.pending.len() == 0
                &&& core.game.text_events.len() == 0
                &&& core.last_error is None && core.detail is None
                &&& core.frame_index == before.frame_index
                &&& core.pending == before.pending
                &&& core.quit_requested == before.quit_requested
            }
            &&& why matches Some((error, words)) ==> {
                &&& core.run_state is BootFailed
                &&& core.last_error == Some(error)
                &&& words is Some ==> core.detail == words
                &&& words is None ==> core.detail == before.detail
                &&& core.loaded == before.loaded
                &&& core.game == before.game
                &&& core.config == before.config
                &&& core.interpreter == before.interpreter
            }
        }),
{
}

proof fn lemma_one_more_command(
    audio: AudioView,
    commands: Seq<AudioCommand>,
    more: AudioCommand,
    i: int,
)
    requires
        0 <= i <= commands.len(),
    ensures
        ({
            let before = flushed(audio, commands, i);
            let after = flushed(audio, commands.push(more), i);
            if before.1 is Err {
                after == before
            } else {
                let next = before.0.recorded(more.op());
                if next.1 is Err && !(more is DestroyStream) {
                    after == next
                } else {
                    after == (next.0, Ok::<(), RfvpError>(()))
                }
            }
        }),
    decreases commands.len() - i,
{
    let all = commands.push(more);
    if i < commands.len() {
        assert(all[i] == commands[i]);
        let next = audio.recorded(commands[i].op());
        if !(next.1 is Err && !(commands[i] is DestroyStream)) {
            lemma_one_more_command(next.0, commands, more, i + 1);
        }
    } else {
        assert(all[i] == more);
        let next = audio.recorded(more.op());
        assert(flushed(next.0, all, i + 1) == (next.0, Ok::<(), RfvpError>(())));
    }
}

/// One more audio command of the engine becomes one more operation that says the same:
/// about the same stream, with the same parameters. Encoded sound that has an address goes
/// by the address, other encoded sound by its bytes. A refused command ends the row.
pub proof fn law_audio_commands_keep_their_meaning(
    audio: AudioView,
    commands: Seq<AudioCommand>,
    more: AudioCommand,
)
    requires
        audio.failure is None,
        flushed(audio, commands, 0).1 is Ok,
    ensures
        flushed(audio, Seq::empty(), 0) == (audio, Ok::<(), RfvpError>(())),
        ({
            let (before, fine) = flushed(audio, commands, 0);
            let (after, outcome) = flushed(audio, commands.push(more), 0);
            &&& outcome is Err ==> after == before
            &&& outcome is Ok ==> {
                let op = after.ops.last();
                &&& after.ops == before.ops.push(op)
                &&& match more {
                    AudioCommand::LoadEncoded { id, kind, resource_uri, bytes } => {
                        &&& resource_uri matches Some(uri) ==> op == (AudioOp::LoadResource {
                            id,
                            kind,
                            resource_uri: uri@,
                        })
                        &&& resource_uri is None ==> op == (AudioOp::LoadEncoded {
                            id,
                            kind,
                            bytes: bytes@,
                        })
                    },
                    AudioCommand::CreateStream { id, desc } => {
                        &&& op matches AudioOp::CreateStream { id: a, desc: b } && a == id && b
                            == desc
                    },
                    AudioCommand::SubmitI16 { id, samples } => {
                        &&& op matches AudioOp::SubmitI16 { id: a, samples: b } && a == id && b
                            == samples@
                    },
                    AudioCommand::SubmitF32 { id, samples } => {
                        &&& op matches AudioOp::SubmitF32 { id: a, samples: b } && a == id && b
                            == samples@
                    },
                    AudioCommand::Play { id, params, fade_in_ms } => {
                        &&& op matches AudioOp::Play { id: a, params: b, fade_in_ms: c } && a == id
                            && b.volume == params.volume && b.pan == params.pan && b.repeat
                            == params.repeat && c == fade_in_ms
                    },
                    AudioCommand::Stop { id, fade_ms } => {
                        &&& op matches AudioOp::Stop { id: a, fade_ms: b } && a == id && b
                            == fade_ms
                    },
                    AudioCommand::Pause { id } => op == AudioOp::Pause(id),
                    AudioCommand::Resume { id } => op == AudioOp::Resume(id),
                    AudioCommand::SetParams { id, params } => {
                        &&& op matches AudioOp::SetParams { id: a, params: b } && a == id
                            && b.volume == params.volume && b.pan == params.pan && b.repeat
                            == params.repeat
                    },
                    AudioCommand::DestroyStream { id } => op == AudioOp::DestroyStream(id),
                    AudioCommand::MasterVolume { volume } => op == AudioOp::SetMasterVolume(volume),
                }
            }
        }),
{
    lemma_one_more_command(audio, commands, more, 0);
    lemma_no_failure(audio, commands, 0);
    let before = flushed(audio, commands, 0).0;
    let after = flushed(audio, commands.push(more), 0).0;
    assert(before.ops.push(more.op()).last() == more.op());
}

proof fn lemma_no_failure(audio: AudioView, commands: Seq<AudioCommand>, i: int)
    requires
        0 <= i <= commands.len(),
        audio.failure is None,
    ensures
        flushed(audio, commands, i).0.failure is None,
    decreases commands.len() - i,
{
    if i < commands.len() {
        lemma_no_failure(audio.recorded(commands[i].op()).0, commands, i + 1);
    }
}

/// A call of the renderer does what it is called: what is drawn joins the frame as it was
/// given, a frame without width or height is refused, and presenting shows the frame. Where
/// the renderer has failed, it draws nothing more and repeats the failure.
pub proof fn law_renderer_calls_draw_what_they_say(
    tracker: TrackerView,
    sprite: DrawSpriteCommand,
    solid: DrawSolidCommand,
    width: u32,
    height: u32,
    clear: Option<ColorRgba>,
)
    ensures
        ({
            let begin = called(tracker, RenderCall::BeginFrame { width, height, clear });
            let draw = called(tracker, RenderCall::DrawSprite { command: sprite });
            let fill = called(tracker, RenderCall::DrawSolid { command: solid });
            let end = called(tracker, RenderCall::EndFrame);
            let present = called(tracker, RenderCall::Present);
            &&& width == 0 || height == 0 ==> begin == (
                tracker,
                Err::<(), RfvpError>(RfvpError::InvalidArgument),
            )
            &&& tracker.failure matches Some(e) ==> {
                &&& width > 0 && height > 0 ==> begin == (tracker, Err::<(), RfvpError>(e))
                &&& draw == (tracker, Err::<(), RfvpError>(e))
                &&& fill == (tracker, Err::<(), RfvpError>(e))
                &&& end == (tracker, Err::<(), RfvpError>(e))
                &&& present == (tracker, Err::<(), RfvpError>(e))
            }
            &&& tracker.failure is None ==> {
                &&& draw.1 is Ok && fill.1 is Ok && end.1 is Ok && present.1 is Ok
                &&& width > 0 && height > 0 ==> begin.1 is Ok && begin.0.frame
                    == tracker.frame.push(DirectFrameCommand::BeginFrame { width, height, clear })
                &&& draw.0.frame == tracker.frame.push(DirectFrameCommand::DrawSprite(sprite))
                &&& fill.0.frame == tracker.frame.push(DirectFrameCommand::DrawSolid(solid))
                &&& end.0.frame == tracker.frame.push(DirectFrameCommand::EndFrame)
                &&& present.0.frame.len() == 0
                &&& present.0.previous == tracker.frame.push(DirectFrameCommand::Present)
                &&& draw.0.previous == tracker.previous
                &&& draw.0.textures == tracker.textures
            }
        }),
{
}

proof fn lemma_queued(video: VideoView, movies: Seq<HostMovieCommand>, i: int)
    requires
        0 <= i <= movies.len(),
    ensures
        queued(video, movies, i).pending == video.pending + crate::videoplayer::movie_views(
            movies,
        ).skip(i),
        i < movies.len() ==> queued(video, movies, i).playing && (queued(video, movies, i).modal
            <==> movies.last().mode is ModalWithAudio),
        i == movies.len() ==> queued(video, movies, i) == video,
    decreases movies.len() - i,
{
    let all = crate::videoplayer::movie_views(movies);
    if i < movies.len() {
        lemma_queued(video.started(movies[i]@), movies, i + 1);
        assert(all[i] == movies[i]@);
        assert(video.pending.push(movies[i]@) + all.skip(i + 1) =~= video.pending + all.skip(i));
    } else {
        assert(video.pending + all.skip(i) =~= video.pending);
    }
}

/// A tick in which the interpreter ran and nothing failed leaves the game as the engine left
/// it: it is halted, over or to be left as the engine says, its texts and movies are queued
/// behind the earlier ones, the tick of the clock is recorded first and sound behind it.
pub proof fn law_tick_takes_over_the_engine(
    core: CoreView,
    start: TickStart,
    engine: EngineReply,
    audio: AudioView,
    tracker: TrackerView,
    logs: crate::recording::LogsView,
)
    requires
        core.interpreter,
        audio.failure is None,
        ticked(core, start, engine, audio, tracker, logs).result is Ok,
    ensures
        ({
            let outcome = ticked(core, start, engine, audio, tracker, logs);
            let game = outcome.core.game;
            &&& engine.script is Ok
            &&& game.halted == engine.halted
            &&& game.main_thread_exited == engine.main_thread_exited
            &&& game.should_exit == engine.should_exit
            &&& game.text_events.len() == core.game.text_events.len() + engine.text@.len()
            &&& forall|i: int|
                0 <= i < core.game.text_events.len() ==> game.text_events[i]
                    == core.game.text_events[i]
            &&& forall|i: int|
                #![trigger engine.text@[i]]
                0 <= i < engine.text@.len() ==> {
                    let event = game.text_events[core.game.text_events.len() + i];
                    event.0 == engine.text@[i].slot && event.1 == engine.text@[i].text@
                }
            &&& game.video.pending == core.game.video.pending + crate::videoplayer::movie_views(
                engine.movies@,
            )
            &&& engine.movies@.len() > 0 ==> game.video.playing
            &&& engine.movies@.len() == 0 ==> game.video == core.game.video
            &&& outcome.audio == flushed(
                audio.recorded(AudioOp::Tick { elapsed_us: start.elapsed_us }).0,
                engine.audio@,
                0,
            ).0
            &&& outcome.tracker == rendered(tracker, engine.render@, 0).0
            &&& outcome.core.quit_requested == core.quit_requested
            &&& outcome.core.loaded == core.loaded
            &&& outcome.core.config == core.config
            &&& is_terminal(outcome.core) <==> core.quit_requested || engine.main_thread_exited
                || engine.should_exit
        }),
{
    lemma_queued(core.game.video, engine.movies@, 0);
    let all = crate::videoplayer::movie_views(engine.movies@);
    assert(all.skip(0) =~= all);
}

/// A script that fails ends the tick as unsupported, with the interpreter's words kept and
/// logged as an error. Where the boot failed, a tick repeats its failure; where nothing was
/// booted, a tick only counts.
pub proof fn law_failed_scripts_are_told(
    core: CoreView,
    start: TickStart,
    engine: EngineReply,
    audio: AudioView,
    tracker: TrackerView,
    logs: crate::recording::LogsView,
)
    requires
        audio.failure is None,
    ensures
        ({
            let outcome = ticked(core, start, engine, audio, tracker, logs);
            &&& core.interpreter ==> (engine.script matches Err(words) ==> {
                &&& outcome.result == Err::<RfvpTickResult, RfvpError>(RfvpError::Unsupported)
                &&& outcome.core.last_error == Some(RfvpError::Unsupported)
                &&& outcome.core.detail == Some(words@)
                &&& outcome.tracker == tracker
                &&& !start.quit ==> outcome.logs == logs.recorded(RfvpLogLevel::Error, words@)
            })
            &&& !core.interpreter && core.run_state is BootFailed && core.last_error is Some
                ==> outcome.result == Err::<RfvpTickResult, RfvpError>(core.last_error->0)
            &&& !core.interpreter && !(core.run_state is BootFailed) ==> {
                &&& outcome.result is Ok
                &&& outcome.core.game == core.game
                &&& outcome.tracker == tracker
            }
        }),
{
}

/// A checkpoint holds what the core holds, each part as itself, and a restore puts each part
/// back to where it was.
pub proof fn law_checkpoint_parts(core: CoreView, checkpoint: CheckpointView)
    ensures
        ({
            let taken = checkpoint_of(core);
            let back = restored_core(core, checkpoint);
            &&& taken.frame_index == core.frame_index
            &&& taken.last_tick_us == core.last_tick_us
            &&& taken.quit_requested == core.quit_requested
            &&& taken.video == core.game.video
            &&& taken.halted == core.game.halted
            &&& taken.main_thread_exited == core.game.main_thread_exited
            &&& taken.should_exit == core.game.should_exit
            &&& taken.globals == core.game.globals.captured()
            &&& back.frame_index == checkpoint.frame_index
            &&& back.last_tick_us == checkpoint.last_tick_us
            &&& back.quit_requested == checkpoint.quit_requested
            &&& back.game.video == checkpoint.video
            &&& back.game.halted == checkpoint.halted
            &&& back.game.main_thread_exited == checkpoint.main_thread_exited
            &&& back.game.should_exit == checkpoint.should_exit
            &&& back.game.text_events == core.game.text_events
            &&& back.loaded == core.loaded
            &&& back.config == core.config
            &&& back.run_state == core.run_state
            &&& back.last_error is None && back.detail is None
            &&& checkpoint_fits(core, checkpoint) ==> core.run_state is Booted
        }),
{
}

/// Each digest of a state is that of its own part, and the canonical bytes are the parts one
/// behind the other; a core that has not booted has neither.
pub proof fn law_each_part_has_its_digest(
    core: CoreView,
    parts: CanonicalParts,
    hashes: HostedStateComponentHashesV1,
)
    requires
        state_hashes(core, parts@) == Some(hashes@),
    ensures
        core.run_state is Booted,
        hashes.session@ == crate::digest::sha256_of(session_part(core)),
        hashes.globals@ == crate::digest::sha256_of(parts.globals@),
        hashes.input_and_time@ == crate::digest::sha256_of(parts.input_and_time@),
        hashes.runtime@ == crate::digest::sha256_of(parts.runtime@),
        hashes.motion@ == crate::digest::sha256_of(parts.motion@),
        hashes.audio@ == crate::digest::sha256_of(parts.audio@),
        hashes.vm@ == crate::digest::sha256_of(parts.vm@),
        state_bytes(core, parts@) == Some(
            session_part(core) + parts.globals@ + parts.input_and_time@ + parts.runtime@
                + parts.motion@ + parts.audio@ + parts.vm@,
        ),
{
}

/// States that differ in the frame, the clock or the wish to quit differ in the session part.
pub proof fn law_session_part_tells_states_apart(a: CoreView, b: CoreView)
    requires
        session_part(a) == session_part(b),
    ensures
        a.frame_index == b.frame_index,
        a.last_tick_us == b.last_tick_us,
        a.quit_requested == b.quit_requested,
{
    let x = session_part(a);
    let y = session_part(b);
    lemma_session_part(a);
    lemma_session_part(b);
    lemma_u64_bytes(a.frame_index, b.frame_index);
    if x[10] == 1 {
        lemma_u64_bytes(a.last_tick_us->0, b.last_tick_us->0);
    }
}

proof fn lemma_session_part(core: CoreView)
    ensures
        session_part(core).subrange(2, 10) == u64_bytes(core.frame_index),
        session_part(core)[10] == if core.last_tick_us is Some {
            1u8
        } else {
            0u8
        },
        core.last_tick_us is Some ==> session_part(core).subrange(11, 19) == u64_bytes(
            core.last_tick_us->0,
        ),
        session_part(core).len() > 11,
        session_part(core).last() == if core.quit_requested {
            1u8
        } else {
            0u8
        },
{
    let part = session_part(core);
    assert(part.subrange(2, 10) =~= u64_bytes(core.frame_index));
    if core.last_tick_us is Some {
        assert(part.subrange(11, 19) =~= u64_bytes(core.last_tick_us->0));
    }
}

/// A number of 64 bits is made of its bytes.
proof fn lemma_u64_parts(a: u64)
    ensures
        ({
            let x = u64_bytes(a);
            a == x[0] + 0x100 * (x[1] + 0x100 * (x[2] + 0x100 * (x[3] + 0x100 * (x[4] + 0x100 * (
            x[5] + 0x100 * (x[6] + 0x100 * x[7]))))))
        }),
{
    let a1 = a as int / 0x100;
    let a2 = a1 / 0x100;
    let a3 = a2 / 0x100;
    let a4 = a3 / 0x100;
    let a5 = a4 / 0x100;
    let a6 = a5 / 0x100;
    let a7 = a6 / 0x100;
    assert(a2 == a as int / 0x1_0000);
    assert(a3 == a as int / 0x100_0000);
    assert(a4 == a as int / 0x1_0000_0000);
    assert(a5 == a as int / 0x100_0000_0000);
    assert(a6 == a as int / 0x1_0000_0000_0000);
    assert(a7 == a as int / 0x100_0000_0000_0000);
}

proof fn lemma_u64_bytes(a: u64, b: u64)
    ensures
        u64_bytes(a) == u64_bytes(b) ==> a == b,
{
    if u64_bytes(a) == u64_bytes(b) {
        let x = u64_bytes(a);
        let y = u64_bytes(b);
        assert(x[0] == y[0] && x[1] == y[1] && x[2] == y[2] && x[3] == y[3]);
        assert(x[4] == y[4] && x[5] == y[5] && x[6] == y[6] && x[7] == y[7]);
        lemma_u64_parts(a);
        lemma_u64_parts(b);
    }
}

proof fn lemma_last_slash(dir: Seq<char>, name: Seq<char>, end: int)
    requires
        !name.contains('/'),
        0 <= end <= name.len(),
    ensures
        crate::hosted_host::last_place(dir + seq!['/'] + name, '/', dir.len() + 1 + end) == Some(
            dir.len() as int,
        ),
        crate::hosted_host::last_place(name, '/', end) is None,
    decreases end,
{
    let path = dir + seq!['/'] + name;
    if end > 0 {
        assert(name.contains(name[end - 1]));
        assert(path[dir.len() + end] == name[end - 1]);
        lemma_last_slash(dir, name, end - 1);
    } else {
        assert(path[dir.len() as int] == '/');
    }
}

/// The entries of an archive are found under the archive's own name: in whatever directory
/// it lies, the folder is its file name without `.bin`. A file with another ending goes by
/// its whole path.
pub proof fn law_folder_is_the_name_of_the_archive(dir: Seq<char>, stem: Seq<char>, name: Seq<char>)
    requires
        !stem.contains('/'),
        !name.contains('/'),
        !text::has_suffix(name, ".bin"@),
    ensures
        folder_of(stem + ".bin"@) == stem,
        folder_of(dir + seq!['/'] + (stem + ".bin"@)) == stem,
        folder_of(name) == name,
        folder_of(dir + seq!['/'] + name) == dir + seq!['/'] + name,
{
    reveal_strlit(".bin");
    let file = stem + ".bin"@;
    assert(!file.contains('/')) by {
        if file.contains('/') {
            let i = choose|i: int| 0 <= i < file.len() && file[i] == '/';
            if i < stem.len() {
                assert(stem.contains(stem[i]));
            } else {
                assert(".bin"@[i - stem.len()] == '/');
            }
        }
    }
    lemma_last_slash(dir, file, file.len() as int);
    lemma_last_slash(dir, name, name.len() as int);
    let path = dir + seq!['/'] + file;
    let other = dir + seq!['/'] + name;
    assert(path.len() == dir.len() + 1 + file.len());
    assert(other.len() == dir.len() + 1 + name.len());
    assert(file_name(path) =~= file);
    assert(file_name(other) =~= name);
    assert(file.subrange(file.len() - 4, file.len() as int) =~= ".bin"@);
    assert(file.subrange(0, file.len() - 4) =~= stem);
}

/// The archives are the files of the enumeration, in its order.
pub proof fn law_archives_are_the_files(lines: Seq<(String, RfvpFileInfo)>, line: (String, RfvpFileInfo))
    ensures
        file_paths(Seq::empty()) == Seq::<Seq<char>>::empty(),
        line.1.kind is File ==> file_paths(lines.push(line)) == file_paths(lines).push(line.0@),
        !(line.1.kind is File) ==> file_paths(lines.push(line)) == file_paths(lines),
{
    assert(lines.push(line).drop_last() =~= lines);
}

/// A resource is delivered as the index gave it, if it was found and read and is no longer
/// than was asked for; otherwise the answer says why not.
pub proof fn law_resources_are_delivered_whole(
    uri: Seq<char>,
    max_bytes: usize,
    known_len: Option<u64>,
    bytes: Option<Vec<u8>>,
)
    requires
        max_bytes < usize::MAX,
    ensures
        resource_request_valid(uri, max_bytes) <==> uri.len() > 0 && !uri.contains('\0') && max_bytes
            > 0,
        packed_resource(max_bytes, PackReply::Missing) == Err::<Seq<u8>, RfvpError>(
            RfvpError::NotFound,
        ),
        ({
            let answer = packed_resource(max_bytes, PackReply::Stream { known_len, bytes });
            let fits = known_len is None || known_len->0 <= max_bytes;
            &&& !fits ==> answer == Err::<Seq<u8>, RfvpError>(RfvpError::CapacityExceeded)
            &&& fits && bytes is None ==> answer == Err::<Seq<u8>, RfvpError>(RfvpError::Io)
            &&& fits ==> (bytes matches Some(b) ==> {
                &&& b@.len() <= max_bytes ==> answer == Ok::<Seq<u8>, RfvpError>(b@)
                &&& b@.len() > max_bytes ==> answer == Err::<Seq<u8>, RfvpError>(
                    RfvpError::CapacityExceeded,
                )
            })
        }),
{
}

/// A boot tells what came of it: the result is its failure, if there is one, the platform
/// learns of a font that is missing or broken and of nothing else, and the log has one line
/// for the scan and one more for a boot that succeeded or an archive that was not taken.
pub proof fn law_boot_tells_what_came_of_it(
    boot: RfvpBootConfig<'_>,
    evidence: BootEvidence,
    outcome: BootOutcome,
)
    requires
        boot_told(boot, evidence, outcome),
    ensures
        outcome.result is Ok <==> boot_failure(boot, evidence) is None,
        boot_failure(boot, evidence) matches Some((error, words)) ==> outcome.result == Err::<
            (),
            RfvpError,
        >(error),
        outcome.fatal matches Some((code, words)) ==> {
            &&& outcome.result is Err
            &&& evidence.font is Missing <==> code is MissingDefaultFont
            &&& evidence.font is Invalid <==> code is InvalidDefaultFont
            &&& boot_failure(boot, evidence) matches Some((error, kept)) && kept == Some(words@)
        },
        outcome.result is Ok ==> outcome.fatal is None && outcome.logs@.len() == 2
            && outcome.logs@[0].level is Info && outcome.logs@[1].level is Info,
        !boot_config_valid(boot) ==> outcome.logs@.len() == 0,
        outcome.result is Err && boot_config_valid(boot) && outcome.logs@.len() > 1
            ==> outcome.logs@[1].level is Warn && evidence.packs is Err,
{
    let lines = log_views(outcome.logs@);
    assert(lines.len() == outcome.logs@.len());
    if outcome.logs@.len() > 0 {
        assert(lines[0] == (outcome.logs@[0].level, outcome.logs@[0].message@));
    }
    if outcome.logs@.len() > 1 {
        assert(lines[1] == (outcome.logs@[1].level, outcome.logs@[1].message@));
    }
}

/// What is said of a snapshot is said of its own fields.
pub proof fn law_snapshot_is_seen_as_it_is(snapshot: HostedCoreSnapshot)
    ensures
        snapshot@.version == snapshot.version,
        snapshot@.frame_index == snapshot.frame_index,
        snapshot@.last_tick_us == snapshot.last_tick_us,
        snapshot@.quit_requested == snapshot.quit_requested,
        snapshot@.globals == snapshot.globals@,
        snapshot@.video == snapshot.video@,
        snapshot@.halted == snapshot.halted,
        snapshot@.main_thread_exited == snapshot.main_thread_exited,
        snapshot@.should_exit == snapshot.should_exit,
{
}

/// What is said of a game is said of its own fields.
pub proof fn law_game_is_seen_as_it_is(game: GameState)
    ensures
        game@.video == game.video_manager@,
        game@.globals == game.globals@,
        game@.halted == game.halted,
        game@.main_thread_exited == game.main_thread_exited,
        game@.should_exit == game.should_exit,
{
}

/// What is said of a core is said of its own fields.
pub proof fn law_core_is_seen_as_it_is(core: RfvpCore)
    ensures
        core@.config == core.config,
        core@.pending == core.pending_events@,
        core@.frame_index == core.frame_index,
        core@.last_tick_us == core.last_tick_us,
        core@.quit_requested == core.quit_requested,
        core@.run_state == core.run_state,
        core@.game == core.game@,
        core@.interpreter == core.interpreter,
        core@.trace_capacity == core.hosted_trace_capacity,
        core@.last_error == core.last_error,
{
}

/// A new core has its configuration and has done nothing.
pub proof fn law_new_core_has_done_nothing(config: RfvpCoreConfig)
    ensures
        ({
            let core = fresh_core(config);
            &&& core.config == config
            &&& core.pending.len() == 0
            &&& core.frame_index == 0
            &&& core.last_tick_us is None
            &&& !core.quit_requested
            &&& core.run_state is NotBooted
            &&& core.loaded is None
            &&& !core.interpreter
            &&& core.trace_capacity == 0
            &&& core.last_error is None
            &&& core.detail is None
            &&& !core.game.halted && !core.game.main_thread_exited && !core.game.should_exit
            &&& !core.game.video.playing && core.game.video.pending.len() == 0
            &&& core.game.text_events.len() == 0
            &&& core.game.globals.non_volatile == 0 && core.game.globals.volatile == 0
            &&& core.game.globals.table.dom() == Set::<u16>::empty()
            &&& !is_terminal(core)
        }),
{
}

}
