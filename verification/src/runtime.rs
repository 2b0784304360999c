//! The life of one hosted engine: its host, its session and their failures.
//!
//! The engine stays on one thread. What crosses to it and back are the values of
//! this module.

use vstd::prelude::*;

use crate::bytes;
use crate::engine_core::{BootEvidence, BootOutcome, EngineReply, RfvpBootConfig, RfvpCoreConfig};
use crate::host_api::RfvpError;
use crate::hosted_host::HostedMemoryHost;
use crate::names::NameMap;
use crate::nls::FvpNls;
use crate::recording::HostedLimits;
use crate::session::{
    BootPorts, HostedSession, HostedStepDelta, HostedStepInput, HostedTraceProfile, SessionView,
    StepStart,
};
use crate::text;

verus! {

pub const MAX_HOSTED_CASE_FILES: usize = 65_536;

pub const MAX_HOSTED_HCB_BYTES: usize = 512 * 1024 * 1024;

/// Why the engine's thread did not answer.
#[derive(Debug, Clone, Copy, PartialEq, Eq, Structural)]
pub enum HostedWorkerError {
    Unavailable,
    Terminated,
    Panicked,
}

impl HostedWorkerError {
    pub open spec fn line(self) -> Seq<char> {
        match self {
            HostedWorkerError::Unavailable => "hosted session worker is unavailable"@,
            HostedWorkerError::Terminated => {
                "hosted session worker terminated before answering"@
            },
            HostedWorkerError::Panicked => "hosted session worker panicked"@,
        }
    }

    pub fn to_text(self) -> (r: &'static str)
        ensures
            r@ == self.line(),
    {
        match self {
            HostedWorkerError::Unavailable => "hosted session worker is unavailable",
            HostedWorkerError::Terminated => "hosted session worker terminated before answering",
            HostedWorkerError::Panicked => "hosted session worker panicked",
        }
    }
}

/// Why the engine's thread did not start.
#[derive(Debug)]
pub enum HostedWorkerStartError<E> {
    Initialization(E),
    Worker(HostedWorkerError),
}

/// The name of an engine failure.
pub open spec fn error_name(error: RfvpError) -> Seq<char> {
    match error {
        RfvpError::InvalidArgument => "InvalidArgument"@,
        RfvpError::InvalidData => "InvalidData"@,
        RfvpError::NotFound => "NotFound"@,
        RfvpError::Unsupported => "Unsupported"@,
        RfvpError::EndOfFile => "EndOfFile"@,
        RfvpError::CapacityExceeded => "CapacityExceeded"@,
        RfvpError::Io => "Io"@,
        RfvpError::Backend => "Backend"@,
    }
}

fn error_word(error: RfvpError) -> (r: &'static str)
    ensures
        r@ == error_name(error),
{
    match error {
        RfvpError::InvalidArgument => "InvalidArgument",
        RfvpError::InvalidData => "InvalidData",
        RfvpError::NotFound => "NotFound",
        RfvpError::Unsupported => "Unsupported",
        RfvpError::EndOfFile => "EndOfFile",
        RfvpError::CapacityExceeded => "CapacityExceeded",
        RfvpError::Io => "Io",
        RfvpError::Backend => "Backend",
    }
}

/// Why a hosted engine could not do what it was asked.
#[derive(Debug)]
pub enum HostedRuntimeError {
    ScriptUri,
    ScriptCollision,
    ScriptBinding,
    Initialization(String),
    Worker(HostedWorkerError),
    Core(RfvpError),
}

#[verifier::ext_equal]
pub enum RuntimeFault {
    ScriptUri,
    ScriptCollision,
    ScriptBinding,
    Initialization(Seq<char>),
    Worker(HostedWorkerError),
    Core(RfvpError),
}

impl RuntimeFault {
    /// The line shown for the failure.
    pub open spec fn line(self) -> Seq<char> {
        match self {
            RuntimeFault::ScriptUri => "hosted case script URI is invalid"@,
            RuntimeFault::ScriptCollision => {
                "hosted case script conflicts with a supplied file"@
            },
            RuntimeFault::ScriptBinding => {
                "hosted core booted a different HCB than the session binding"@
            },
            RuntimeFault::Initialization(words) => {
                "hosted session initialization failed: "@ + words
            },
            RuntimeFault::Worker(error) => error.line(),
            RuntimeFault::Core(error) => "hosted core failed: "@ + error_name(error),
        }
    }
}

impl HostedRuntimeError {
    pub open spec fn view(&self) -> RuntimeFault {
        match *self {
            HostedRuntimeError::ScriptUri => RuntimeFault::ScriptUri,
            HostedRuntimeError::ScriptCollision => RuntimeFault::ScriptCollision,
            HostedRuntimeError::ScriptBinding => RuntimeFault::ScriptBinding,
            HostedRuntimeError::Initialization(words) => RuntimeFault::Initialization(words@),
            HostedRuntimeError::Worker(error) => RuntimeFault::Worker(error),
            HostedRuntimeError::Core(error) => RuntimeFault::Core(error),
        }
    }

    pub fn to_text(&self) -> (r: String)
        ensures
            r@ == self@.line(),
    {
        match self {
            HostedRuntimeError::ScriptUri => text::owned("hosted case script URI is invalid"),
            HostedRuntimeError::ScriptCollision => text::owned(
                "hosted case script conflicts with a supplied file",
            ),
            HostedRuntimeError::ScriptBinding => text::owned(
                "hosted core booted a different HCB than the session binding",
            ),
            HostedRuntimeError::Initialization(words) => text::join2(
                "hosted session initialization failed: ",
                words.as_str(),
            ),
            HostedRuntimeError::Worker(error) => text::owned(error.to_text()),
            HostedRuntimeError::Core(error) => text::join2(
                "hosted core failed: ",
                error_word(*error),
            ),
        }
    }
}

/// The failure behind an engine thread that did not start.
pub fn map_start_error(error: HostedWorkerStartError<HostedRuntimeError>) -> (r: HostedRuntimeError)
    ensures
        r@ == match error {
            HostedWorkerStartError::Initialization(inner) => inner@,
            HostedWorkerStartError::Worker(inner) => RuntimeFault::Worker(inner),
        },
{
    match error {
        HostedWorkerStartError::Initialization(inner) => inner,
        HostedWorkerStartError::Worker(inner) => HostedRuntimeError::Worker(inner),
    }
}

// ---------------------------------------------------------------------- scripts

/// The path of a script as the engine reports it; `None` for a path that is none.
pub open spec fn script_path(uri: Seq<char>) -> Option<Seq<char>> {
    if !text::has_suffix(uri, ".hcb"@) {
        None
    } else {
        crate::hosted_host::normal_path(uri)
    }
}

pub fn normalize_script_uri(uri: &str) -> (r: Result<String, HostedRuntimeError>)
    ensures
        match script_path(uri@) {
            Some(path) => r is Ok && r->Ok_0@ == path,
            None => r is Err && r->Err_0@ == RuntimeFault::ScriptUri,
        },
{
    if !text::ends_with(&text::chars_of(uri), ".hcb") {
        return Err(HostedRuntimeError::ScriptUri);
    }
    match crate::hosted_host::normalize(uri) {
        Ok(path) => Ok(path),
        Err(_) => Err(HostedRuntimeError::ScriptUri),
    }
}

// ------------------------------------------------------------------------ opening

/// The engine configuration for a stage.
pub open spec fn stage_config(width: u32, height: u32) -> RfvpCoreConfig {
    RfvpCoreConfig { virtual_width: width, virtual_height: height, max_pending_events: 256 }
}

/// A session that has not booted, with its trace profile.
pub open spec fn unbooted(width: u32, height: u32, profile: HostedTraceProfile, length: usize) -> SessionView {
    let core = crate::engine_core::fresh_core(stage_config(width, height));
    SessionView {
        core: crate::engine_core::CoreView { trace_capacity: length, ..core },
        limits: crate::recording::default_limits(),
        tracker: crate::surface::fresh_tracker(),
        surface_ready: false,
        capture_logs: profile is Evidence,
    }
}

/// What is wrong with a trace profile, if anything is.
pub open spec fn profile_fault(profile: HostedTraceProfile) -> Option<RfvpError> {
    match crate::session::trace_length(profile) {
        None => Some(RfvpError::InvalidArgument),
        Some(length) => if length <= crate::engine_core::MAX_TRACE_CAPACITY {
            None
        } else {
            Some(RfvpError::CapacityExceeded)
        },
    }
}

/// One hosted engine with its host.
#[derive(Debug)]
pub struct HostedState {
    pub session: HostedSession,
    pub host: HostedMemoryHost,
}

fn open_session(width: u32, height: u32, profile: HostedTraceProfile) -> (r: Result<
    HostedSession,
    HostedRuntimeError,
>)
    ensures
        match profile_fault(profile) {
            Some(e) => r is Err && r->Err_0@ == RuntimeFault::Core(e),
            None => {
                &&& r is Ok
                &&& r->Ok_0.wf()
                &&& r->Ok_0@ == unbooted(
                    width,
                    height,
                    profile,
                    crate::session::trace_length(profile)->0,
                )
            },
        },
{
    let config = RfvpCoreConfig {
        virtual_width: width,
        virtual_height: height,
        max_pending_events: 256,
    };
    let mut session = match HostedSession::new(config, HostedLimits::default()) {
        Ok(v) => v,
        Err(e) => return Err(HostedRuntimeError::Core(e)),
    };
    match session.set_trace_profile(profile) {
        Ok(_) => Ok(session),
        Err(e) => Err(HostedRuntimeError::Core(e)),
    }
}

/// What a memory host makes of files: the files under their normal paths.
pub open spec fn hosted_files(files: NameMap<Vec<u8>>) -> Result<
    Map<Seq<char>, Vec<u8>>,
    RfvpError,
> {
    if files.names@.len() > crate::hosted_host::MAX_HOSTED_FILES
        || crate::hosted_host::has_oversized(files.values@) {
        Err(RfvpError::CapacityExceeded)
    } else {
        crate::hosted_host::collected_files(files.names@, files.values@, 0, Map::empty())
    }
}

/// Whether `all` are the files of a case with its script.
pub open spec fn with_script(
    all: NameMap<Vec<u8>>,
    files: NameMap<Vec<u8>>,
    uri: Seq<char>,
    script: Seq<u8>,
) -> bool {
    all.wf() && crate::provider::contents(all) == crate::provider::contents(files).insert(uri, script)
}

/// The outcome of opening a case whose files, script among them, are `all`.
pub open spec fn case_opened(
    all: NameMap<Vec<u8>>,
    stage: (u32, u32),
    profile: HostedTraceProfile,
    r: Result<HostedState, HostedRuntimeError>,
) -> bool {
    match hosted_files(all) {
        Err(e) => r is Err && r->Err_0@ == RuntimeFault::Core(e),
        Ok(map) => match profile_fault(profile) {
            Some(e) => r is Err && r->Err_0@ == RuntimeFault::Core(e),
            None => {
                &&& r is Ok
                &&& r->Ok_0.wf()
                &&& r->Ok_0.session@ == unbooted(
                    stage.0,
                    stage.1,
                    profile,
                    crate::session::trace_length(profile)->0,
                )
                &&& r->Ok_0.host.fs.source is Memory
                &&& r->Ok_0.host.fs.source->files@ == map
                &&& r->Ok_0.host.fs.writable is None
                &&& r->Ok_0.host.clock.now_us == 0
            },
        },
    }
}

/// How a session reads its game through the host.
#[derive(Debug)]
pub struct HostedVfsSessionConfig {
    pub mount_set_id: String,
    pub expected_script_uri: String,
    pub pack_paths: Vec<String>,
    pub nls: FvpNls,
    pub stage_width: u32,
    pub stage_height: u32,
    pub trace_profile: HostedTraceProfile,
}

/// The words that tell why a boot failed.
pub open spec fn boot_words(error: RfvpError, detail: Option<Seq<char>>) -> Seq<char> {
    "ASTRA_FVP_HOSTED_BOOT:"@ + error_name(error) + ":"@ + match detail {
        Some(words) => words,
        None => "unspecified"@,
    }
}

/// How every hosted session boots.
pub open spec fn boots_like(boot: RfvpBootConfig<'_>, nls: FvpNls) -> bool {
    &&& boot.asset_root@ == "."@
    &&& boot.hcb_extension@ == "hcb"@
    &&& boot.max_hcb_bytes == MAX_HOSTED_HCB_BYTES
    &&& boot.max_manifest_entries == MAX_HOSTED_CASE_FILES
    &&& boot.nls == nls
}

/// The boot configuration of a hosted session.
pub fn session_boot_config(nls: FvpNls) -> (r: RfvpBootConfig<'static>)
    ensures
        boots_like(r, nls),
{
    RfvpBootConfig {
        asset_root: ".",
        hcb_extension: "hcb",
        max_hcb_bytes: MAX_HOSTED_HCB_BYTES,
        max_manifest_entries: MAX_HOSTED_CASE_FILES,
        nls,
    }
}

impl HostedState {
    pub open spec fn wf(&self) -> bool {
        self.session.wf() && self.host.wf()
    }

    /// Opens a case held in memory: its files and its script, which must not
    /// contradict a file of the same path.
    pub fn open_case(
        files: NameMap<Vec<u8>>,
        script_uri: String,
        script_bytes: Vec<u8>,
        stage_width: u32,
        stage_height: u32,
        trace_profile: HostedTraceProfile,
    ) -> (r: Result<Self, HostedRuntimeError>)
        requires
            files.wf(),
        ensures
            if !text::has_suffix(script_uri@, ".hcb"@) {
                r is Err && r->Err_0@ == RuntimeFault::ScriptUri
            } else if files@.contains_key(script_uri@) && files@[script_uri@]@ != script_bytes@ {
                r is Err && r->Err_0@ == RuntimeFault::ScriptCollision
            } else {
                exists|all: NameMap<Vec<u8>>| #[trigger]
                    with_script(all, files, script_uri@, script_bytes@) && case_opened(
                        all,
                        (stage_width, stage_height),
                        trace_profile,
                        r,
                    )
            },
    {
        if !text::ends_with(&text::chars_of(script_uri.as_str()), ".hcb") {
            return Err(HostedRuntimeError::ScriptUri);
        }
        let mut all = files;
        let ghost uri = script_uri@;
        let ghost script = script_bytes@;
        let present = match all.get(script_uri.as_str()) {
            Some(existing) => {
                if !bytes::same_bytes(existing.as_slice(), script_bytes.as_slice()) {
                    return Err(HostedRuntimeError::ScriptCollision);
                }
                true
            },
            None => false,
        };
        if !present {
            let _ = all.insert_new(script_uri, script_bytes);
        }
        proof {
            assert(crate::provider::contents(all) =~= crate::provider::contents(files).insert(
                uri,
                script,
            ));
            assert(with_script(all, files, uri, script));
        }
        let host = match HostedMemoryHost::new(all) {
            Ok(v) => v,
            Err(e) => return Err(HostedRuntimeError::Core(e)),
        };
        match open_session(stage_width, stage_height, trace_profile) {
            Ok(session) => Ok(HostedState { session, host }),
            Err(e) => Err(e),
        }
    }

    /// Opens a session that reads its game through the host.
    pub fn open_vfs(config: HostedVfsSessionConfig) -> (r: Result<Self, HostedRuntimeError>)
        ensures
            if script_path(config.expected_script_uri@) is None {
                r is Err && r->Err_0@ == RuntimeFault::ScriptUri
            } else if config.mount_set_id@.len() == 0 {
                r is Err && r->Err_0@ == RuntimeFault::Core(RfvpError::InvalidArgument)
            } else if config.pack_paths@.len() > crate::hosted_host::MAX_HOSTED_FILES {
                r is Err && r->Err_0@ == RuntimeFault::Core(RfvpError::CapacityExceeded)
            } else {
                match crate::hosted_host::collected_packs(config.pack_paths@, 0, Map::empty()) {
                    None => r is Err && r->Err_0@ == RuntimeFault::Core(RfvpError::InvalidArgument),
                    Some(packs) => match profile_fault(config.trace_profile) {
                        Some(e) => r is Err && r->Err_0@ == RuntimeFault::Core(e),
                        None => {
                            &&& r is Ok
                            &&& r->Ok_0.wf()
                            &&& r->Ok_0.session@ == unbooted(
                                config.stage_width,
                                config.stage_height,
                                config.trace_profile,
                                crate::session::trace_length(config.trace_profile)->0,
                            )
                            &&& r->Ok_0.host.fs.source is Vfs
                            &&& r->Ok_0.host.fs.source->mount_set_id@ == config.mount_set_id@
                            &&& r->Ok_0.host.fs.source->pack_paths@ == packs
                            &&& r->Ok_0.host.fs.writable is None
                            &&& r->Ok_0.host.clock.now_us == 0
                        },
                    },
                }
            },
    {
        match normalize_script_uri(config.expected_script_uri.as_str()) {
            Ok(_) => {},
            Err(e) => return Err(e),
        }
        let host = match HostedMemoryHost::from_vfs(config.mount_set_id, config.pack_paths) {
            Ok(v) => v,
            Err(e) => return Err(HostedRuntimeError::Core(e)),
        };
        match open_session(config.stage_width, config.stage_height, config.trace_profile) {
            Ok(session) => Ok(HostedState { session, host }),
            Err(e) => Err(e),
        }
    }

    /// Boots the engine, and tells what the boot told. Where `expected_script` is given,
    /// the engine must have found that very script.
    pub fn boot(
        &mut self,
        nls: FvpNls,
        evidence: BootEvidence,
        ports: BootPorts,
        expected_script: Option<&str>,
    ) -> (r: (BootOutcome, Result<(), HostedRuntimeError>))
        requires
            old(self).wf(),
            crate::engine_core::numbered(evidence.script),
            crate::engine_core::within_limit(evidence.script_bytes, MAX_HOSTED_HCB_BYTES),
        ensures
            final(self).wf(),
            final(self).host == old(self).host,
            exists|boot: RfvpBootConfig<'_>|
                {
                    let done = crate::session::session_booted(
                        old(self).session@,
                        boot,
                        evidence,
                        ports,
                    );
                    &&& #[trigger] boots_like(boot, nls)
                    &&& crate::engine_core::boot_told(boot, evidence, r.0)
                    &&& final(self).session@ == done.0
                    &&& match done.1 {
                        Some(e) => r.1 is Err && r.1->Err_0@ == RuntimeFault::Initialization(
                            boot_words(e, done.0.core.detail),
                        ),
                        None => if expected_script is Some && (done.0.core.loaded is None
                            || script_path(expected_script->0@) != Some(
                            done.0.core.loaded->0.hcb_path,
                        )) {
                            r.1 is Err && r.1->Err_0@ == if script_path(expected_script->0@) is None {
                                RuntimeFault::ScriptUri
                            } else {
                                RuntimeFault::ScriptBinding
                            }
                        } else {
                            r.1 is Ok
                        },
                    }
                },
    {
        let boot = session_boot_config(nls);
        assert(boots_like(boot, nls));
        let (outcome, result) = self.session.boot(boot, evidence, ports);
        match result {
            Err(e) => {
                let detail = match self.session.engine.last_error_detail() {
                    Some(words) => words,
                    None => "unspecified",
                };
                let left = text::join3("ASTRA_FVP_HOSTED_BOOT:", error_word(e), ":");
                let words = text::join2(left.as_str(), detail);
                return (outcome, Err(HostedRuntimeError::Initialization(words)));
            },
            Ok(_) => {},
        }
        match expected_script {
            None => (outcome, Ok(())),
            Some(uri) => {
                let expected = match normalize_script_uri(uri) {
                    Ok(v) => v,
                    Err(e) => return (outcome, Err(e)),
                };
                match self.session.engine.loaded_game() {
                    Some(game) => if text::same_text(game.hcb_path.as_str(), expected.as_str()) {
                        (outcome, Ok(()))
                    } else {
                        (outcome, Err(HostedRuntimeError::ScriptBinding))
                    },
                    None => (outcome, Err(HostedRuntimeError::ScriptBinding)),
                }
            },
        }
    }

    /// The first half of a step: the clock moves, the input is queued and the tick
    /// begins.
    pub fn begin_step(&mut self, delta_ns: u64, input: HostedStepInput) -> (r: Result<
        StepStart,
        HostedRuntimeError,
    >)
        requires
            old(self).wf(),
        ensures
            final(self).wf(),
            final(self).host.fs == old(self).host.fs,
            ({
                let now = old(self).host.clock.now_us + delta_ns as int / 1_000;
                if delta_ns < 1_000 {
                    &&& r is Err && r->Err_0@ == RuntimeFault::Core(RfvpError::InvalidArgument)
                    &&& *final(self) == *old(self)
                } else if now > u64::MAX {
                    &&& r is Err && r->Err_0@ == RuntimeFault::Core(RfvpError::CapacityExceeded)
                    &&& *final(self) == *old(self)
                } else {
                    let begun = crate::session::step_begun(
                        old(self).session@,
                        input.events@,
                        now as u64,
                    );
                    &&& final(self).host.clock.now_us == now
                    &&& final(self).session@ == begun.0
                    &&& match begun.1 {
                        Ok(tick) => r is Ok && r->Ok_0@ == tick,
                        Err(e) => r is Err && r->Err_0@ == RuntimeFault::Core(e),
                    }
                }
            }),
    {
        match self.host.advance(delta_ns) {
            Err(e) => return Err(HostedRuntimeError::Core(e)),
            Ok(_) => {},
        }
        let now: u64 = self.host.elapsed_us();
        match self.session.begin_step(input, now) {
            Ok(start) => Ok(start),
            Err(e) => Err(HostedRuntimeError::Core(e)),
        }
    }

    /// The second half of a step: what the engine did becomes a delta.
    pub fn step(&mut self, start: StepStart, engine: EngineReply) -> (r: Result<
        HostedStepDelta,
        HostedRuntimeError,
    >)
        requires
            old(self).wf(),
        ensures
            final(self).wf(),
            final(self).host == old(self).host,
            final(self).session@ == crate::session::stepped(
                old(self).session@,
                start.tick,
                engine,
            ).0,
            match crate::session::stepped(old(self).session@, start.tick, engine).1 {
                Ok(delta) => r is Ok && r->Ok_0@ == delta,
                Err(e) => r is Err && r->Err_0@ == RuntimeFault::Core(e),
            },
    {
        match self.session.step(start, engine) {
            Ok(delta) => Ok(delta),
            Err(e) => Err(HostedRuntimeError::Core(e)),
        }
    }
}

// ----------------------------------------------------------------------- laws

/// A script goes by its path in small letters, with or without `./` in front of it, and must
/// end in `.hcb`.
pub proof fn law_scripts_go_by_their_paths(uri: Seq<char>)
    ensures
        script_path(uri) is Some <==> text::has_suffix(uri, ".hcb"@)
            && crate::hosted_host::normal_path(uri) is Some,
        text::plain_path(uri) && !uri.contains('\\') && text::has_suffix(uri, ".hcb"@) ==> script_path(
            uri,
        ) == Some(text::lower(uri)),
{
    crate::hosted_host::law_paths_are_found_in_small_letters(uri);
}

/// A session that has not booted has the screen of its stage, a queue of 256 events, keeps
/// logs only for evidence, and has drawn, heard and counted nothing.
pub proof fn law_unbooted_session_is_fresh(
    width: u32,
    height: u32,
    profile: HostedTraceProfile,
    length: usize,
)
    ensures
        ({
            let session = unbooted(width, height, profile, length);
            &&& session.core.config.virtual_width == width
            &&& session.core.config.virtual_height == height
            &&& session.core.config.max_pending_events == 256
            &&& session.core.trace_capacity == length
            &&& session.core.frame_index == 0
            &&& session.core.last_tick_us is None
            &&& session.core.pending.len() == 0
            &&& !session.core.quit_requested
            &&& session.core.run_state is NotBooted
            &&& session.core.loaded is None
            &&& !session.core.interpreter
            &&& session.core.last_error is None
            &&& session.capture_logs <==> profile is Evidence
            &&& !session.surface_ready
            &&& session.limits.max_input_events == 256
            &&& session.limits.max_log_records == 256
            &&& session.limits.max_log_bytes == 16_384
        }),
{
}

/// A trace profile is refused if it asks for evidence without instructions or for more of
/// them than there can be.
pub proof fn law_trace_profiles_are_bounded(n: usize)
    ensures
        profile_fault(HostedTraceProfile::Shipping) is None,
        ({
            let fault = profile_fault(HostedTraceProfile::Evidence { crash_trace_capacity: n });
            &&& n == 0 ==> fault == Some(RfvpError::InvalidArgument)
            &&& 1 <= n <= 65_536 ==> fault is None
            &&& n > 65_536 ==> fault == Some(RfvpError::CapacityExceeded)
        }),
{
}

/// A title has at most 65536 files, each of at most eight gibibytes; otherwise it is refused
/// before its paths are looked at.
pub proof fn law_hosted_files_are_bounded(files: NameMap<Vec<u8>>, i: int)
    ensures
        files.names@.len() > 65_536 ==> hosted_files(files) == Err::<
            Map<Seq<char>, Vec<u8>>,
            RfvpError,
        >(RfvpError::CapacityExceeded),
        0 <= i < files.values@.len() && files.values@[i]@.len() > 0x2_0000_0000 ==> hosted_files(files)
            == Err::<Map<Seq<char>, Vec<u8>>, RfvpError>(RfvpError::CapacityExceeded),
        files.names@.len() <= 65_536 && (forall|k: int|
            0 <= k < files.values@.len() ==> (#[trigger] files.values@[k])@.len() <= 0x2_0000_0000)
            ==> hosted_files(files) == crate::hosted_host::collected_files(
            files.names@,
            files.values@,
            0,
            Map::empty(),
        ),
{
    if 0 <= i < files.values@.len() {
        let file = files.values@[i];
    }
}

/// Failures of the engine have names of their own, and the words about a boot tell the name
/// and what is known beyond it.
pub proof fn law_boot_words_tell_the_failure(error: RfvpError, words: Seq<char>)
    ensures
        error_name(RfvpError::InvalidArgument) == "InvalidArgument"@,
        error_name(RfvpError::InvalidData) == "InvalidData"@,
        error_name(RfvpError::NotFound) == "NotFound"@,
        error_name(RfvpError::Unsupported) == "Unsupported"@,
        error_name(RfvpError::EndOfFile) == "EndOfFile"@,
        error_name(RfvpError::CapacityExceeded) == "CapacityExceeded"@,
        error_name(RfvpError::Io) == "Io"@,
        error_name(RfvpError::Backend) == "Backend"@,
        boot_words(error, Some(words)) == "ASTRA_FVP_HOSTED_BOOT:"@ + error_name(error) + ":"@ + words,
        boot_words(error, None) == boot_words(error, Some("unspecified"@)),
{
}

/// Every hosted session boots from the place where its files lie, looks for scripts by their
/// extension and reads them up to half a gibibyte, in the encoding of the title.
pub proof fn law_hosted_sessions_boot_alike(boot: RfvpBootConfig<'_>, nls: FvpNls)
    ensures
        boots_like(boot, nls) <==> {
            &&& boot.asset_root@ == "."@
            &&& boot.hcb_extension@ == "hcb"@
            &&& boot.max_hcb_bytes == 0x2000_0000
            &&& boot.max_manifest_entries == 65_536
            &&& boot.nls == nls
        },
{
}

/// A case is opened with its files and its script, the script under its own address, and
/// with the stage that was asked for.
pub proof fn law_case_is_opened_with_its_script(
    all: NameMap<Vec<u8>>,
    files: NameMap<Vec<u8>>,
    uri: Seq<char>,
    script: Seq<u8>,
    width: u32,
    height: u32,
    profile: HostedTraceProfile,
    state: HostedState,
    name: Seq<char>,
)
    requires
        with_script(all, files, uri, script),
        case_opened(all, (width, height), profile, Ok(state)),
    ensures
        all@.contains_key(uri) && all@[uri]@ == script,
        name != uri ==> (all@.contains_key(name) <==> files@.contains_key(name)),
        name != uri && files@.contains_key(name) ==> all@[name]@ == files@[name]@,
        hosted_files(all) is Ok,
        state.host.fs.source is Memory,
        state.host.fs.source->files@ == hosted_files(all)->Ok_0,
        state.session@.core.config.virtual_width == width,
        state.session@.core.config.virtual_height == height,
        profile_fault(profile) is None,
        state.host.clock.now_us == 0,
{
    let map = crate::provider::contents(all);
    let given = crate::provider::contents(files);
    assert(map.contains_key(uri) && map[uri] == script);
    assert(map.contains_key(name) == all@.contains_key(name));
    assert(given.contains_key(name) == files@.contains_key(name));
    if name != uri && files@.contains_key(name) {
        assert(map[name] == given[name]);
    }
}

/// Each failure has a line of its own; those that carry a name or words end in them.
pub proof fn law_runtime_failures_have_their_lines(words: Seq<char>, error: RfvpError)
    ensures
        RuntimeFault::ScriptUri.line() == "hosted case script URI is invalid"@,
        RuntimeFault::ScriptCollision.line() == "hosted case script conflicts with a supplied file"@,
        RuntimeFault::ScriptBinding.line()
            == "hosted core booted a different HCB than the session binding"@,
        RuntimeFault::Initialization(words).line() == "hosted session initialization failed: "@
            + words,
        RuntimeFault::Core(error).line() == "hosted core failed: "@ + error_name(error),
        RuntimeFault::Worker(HostedWorkerError::Unavailable).line()
            == "hosted session worker is unavailable"@,
        RuntimeFault::Worker(HostedWorkerError::Terminated).line()
            == "hosted session worker terminated before answering"@,
        RuntimeFault::Worker(HostedWorkerError::Panicked).line() == "hosted session worker panicked"@,
{
}

}
