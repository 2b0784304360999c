//! The order of a boot.
//!
//! A boot alternates between what the core decides and what the host's files and the
//! engine answer. `BootRun` holds how far it has come: it says what has to be done
//! next and takes in what came of it, until nothing more can change how the boot ends.

use vstd::prelude::*;

use crate::engine_core::{
    boot_config_ok, boot_config_valid, boot_failure, boot_logs, booted_core, build_host_vfs,
    file_paths, folder_of, numbered, pack_folder, within_limit, BootEvidence, CoreView, FontReply, PackFailure,
    RfvpBootConfig, ScriptFacts,
};
use crate::host_api::{RfvpError, RfvpFileInfo};
use crate::text;

verus! {

/// What has to be done next.
#[derive(Debug)]
pub enum BootAction {
    /// List the files of an extension below a folder.
    List { root: String, extension: String },
    /// Read a script that has at most `limit` bytes.
    ReadScript { path: String, limit: usize },
    /// Let the engine parse the script that was read.
    ParseScript,
    /// Read the font and hand it to the engine.
    LoadFont { path: String },
    /// Open an archive and let the engine index it under a folder.
    AddPack { path: String, folder: String },
    /// Start the script with a trace of this length.
    Start { entry_point: u32, trace_capacity: usize },
    /// Nothing is left to do.
    Finish,
}

/// What became of an archive.
#[derive(Debug)]
pub enum IndexReply {
    Added,
    Unopened(RfvpError),
    /// The engine does not take its metadata; its words say why.
    Rejected(String),
}

/// What came of an action.
#[derive(Debug)]
pub enum BootEvent {
    Listed(Result<Vec<(String, RfvpFileInfo)>, RfvpError>),
    ScriptRead(Result<Vec<u8>, RfvpError>),
    ScriptParsed(Result<ScriptFacts, String>),
    FontLoaded(FontReply),
    PackAdded(IndexReply),
    /// Whether the interpreter accepted the trace.
    Started(bool),
}

/// How far a boot has come.
#[derive(Debug)]
pub enum BootPhase {
    Listing,
    Reading,
    Parsing,
    Font,
    PackListing,
    /// The archives from `at` on are still to be indexed.
    Packs { paths: Vec<String>, at: usize },
    Starting,
    Finished,
}

/// A boot on its way, with what it has found.
#[derive(Debug)]
pub struct BootRun {
    pub phase: BootPhase,
    pub evidence: BootEvidence,
}

pub enum ActionView {
    List { root: Seq<char>, extension: Seq<char> },
    ReadScript { path: Seq<char>, limit: usize },
    ParseScript,
    LoadFont { path: Seq<char> },
    AddPack { path: Seq<char>, folder: Seq<char> },
    Start { entry_point: u32, trace_capacity: usize },
    Finish,
}

impl BootAction {
    pub open spec fn view(&self) -> ActionView {
        match *self {
            BootAction::List { root, extension } => ActionView::List {
                root: root@,
                extension: extension@,
            },
            BootAction::ReadScript { path, limit } => ActionView::ReadScript { path: path@, limit },
            BootAction::ParseScript => ActionView::ParseScript,
            BootAction::LoadFont { path } => ActionView::LoadFont { path: path@ },
            BootAction::AddPack { path, folder } => ActionView::AddPack {
                path: path@,
                folder: folder@,
            },
            BootAction::Start { entry_point, trace_capacity } => ActionView::Start {
                entry_point,
                trace_capacity,
            },
            BootAction::Finish => ActionView::Finish,
        }
    }
}

pub enum PhaseView {
    Listing,
    Reading,
    Parsing,
    Font,
    PackListing,
    Packs { paths: Seq<Seq<char>>, at: int },
    Starting,
    Finished,
}

impl BootPhase {
    pub open spec fn view(&self) -> PhaseView {
        match *self {
            BootPhase::Listing => PhaseView::Listing,
            BootPhase::Reading => PhaseView::Reading,
            BootPhase::Parsing => PhaseView::Parsing,
            BootPhase::Font => PhaseView::Font,
            BootPhase::PackListing => PhaseView::PackListing,
            BootPhase::Packs { paths, at } => PhaseView::Packs {
                paths: crate::hosted_host::path_views(paths@),
                at: at as int,
            },
            BootPhase::Starting => PhaseView::Starting,
            BootPhase::Finished => PhaseView::Finished,
        }
    }
}

/// Why the archives could not be indexed.
pub struct PackFault {
    pub error: RfvpError,
    pub rejected: Option<(Seq<char>, Seq<char>)>,
}

/// What a boot has found so far.
pub struct Findings {
    pub listing: Result<Vec<(String, RfvpFileInfo)>, RfvpError>,
    pub script_bytes: Result<Vec<u8>, RfvpError>,
    pub script: Result<ScriptFacts, String>,
    pub font: FontReply,
    pub packs: Option<PackFault>,
    pub trace_accepted: bool,
}

pub open spec fn findings(evidence: BootEvidence) -> Findings {
    Findings {
        listing: evidence.listing,
        script_bytes: evidence.script_bytes,
        script: evidence.script,
        font: evidence.font,
        packs: match evidence.packs {
            Ok(_) => None,
            Err(failure) => Some(
                PackFault {
                    error: failure.error,
                    rejected: match failure.rejected {
                        Some(rejected) => Some((rejected.0@, rejected.1@)),
                        None => None,
                    },
                },
            ),
        },
        trace_accepted: evidence.trace_accepted,
    }
}

pub struct RunView {
    pub phase: PhaseView,
    pub found: Findings,
}

impl BootRun {
    pub open spec fn view(&self) -> RunView {
        RunView { phase: self.phase@, found: findings(self.evidence) }
    }
}

/// Whether a listing names a script to boot.
pub open spec fn lists_a_script(
    boot: RfvpBootConfig<'_>,
    listing: Result<Vec<(String, RfvpFileInfo)>, RfvpError>,
) -> bool {
    listing is Ok && 0 < listing->Ok_0@.len() <= boot.max_manifest_entries
}

/// The findings that a phase rests on.
pub open spec fn sound(boot: RfvpBootConfig<'_>, run: RunView) -> bool {
    let found = run.found;
    let listed = boot_config_valid(boot) && lists_a_script(boot, found.listing);
    let parsed = listed && found.script_bytes is Ok && found.script is Ok;
    let drawn = parsed && found.font == FontReply::Loaded;
    &&& numbered(found.script)
    &&& within_limit(found.script_bytes, boot.max_hcb_bytes)
    &&& !(run.phase is Finished) ==> found.packs is None && !found.trace_accepted
    &&& match run.phase {
        PhaseView::Listing => boot_config_valid(boot),
        PhaseView::Reading => listed,
        PhaseView::Parsing => listed && found.script_bytes is Ok,
        PhaseView::Font => parsed,
        PhaseView::PackListing => drawn,
        PhaseView::Packs { paths, at } => drawn && 0 <= at < paths.len(),
        PhaseView::Starting => drawn,
        PhaseView::Finished => found.trace_accepted ==> drawn && found.packs is None,
    }
}

/// A boot of which nothing is known yet.
pub open spec fn begun(boot: RfvpBootConfig<'_>, run: RunView) -> bool {
    &&& run.phase == if boot_config_valid(boot) {
        PhaseView::Listing
    } else {
        PhaseView::Finished
    }
    &&& run.found.script_bytes is Err
    &&& run.found.script is Err
    &&& run.found.packs is None
    &&& !run.found.trace_accepted
}

/// What a boot asks for.
pub open spec fn asked(boot: RfvpBootConfig<'_>, trace_capacity: usize, run: RunView) -> ActionView {
    match run.phase {
        PhaseView::Listing => ActionView::List {
            root: boot.asset_root@,
            extension: boot.hcb_extension@,
        },
        PhaseView::Reading => ActionView::ReadScript {
            path: run.found.listing->Ok_0@[0].0@,
            limit: boot.max_hcb_bytes,
        },
        PhaseView::Parsing => ActionView::ParseScript,
        PhaseView::Font => ActionView::LoadFont { path: "default.ttf"@ },
        PhaseView::PackListing => ActionView::List { root: boot.asset_root@, extension: "bin"@ },
        PhaseView::Packs { paths, at } => ActionView::AddPack {
            path: paths[at],
            folder: folder_of(paths[at]),
        },
        PhaseView::Starting => ActionView::Start {
            entry_point: run.found.script->Ok_0.entry_point,
            trace_capacity,
        },
        PhaseView::Finished => ActionView::Finish,
    }
}

/// Whether an event tells what came of what was asked for. A script that was read has
/// at most the bytes that were asked for, and one that was parsed has variables with
/// numbers.
pub open spec fn answers(boot: RfvpBootConfig<'_>, phase: PhaseView, event: BootEvent) -> bool {
    match event {
        BootEvent::Listed(_) => phase is Listing || phase is PackListing,
        BootEvent::ScriptRead(script_bytes) => phase is Reading && within_limit(
            script_bytes,
            boot.max_hcb_bytes,
        ),
        BootEvent::ScriptParsed(script) => phase is Parsing && numbered(script),
        BootEvent::FontLoaded(_) => phase is Font,
        BootEvent::PackAdded(_) => phase is Packs,
        BootEvent::Started(_) => phase is Starting,
    }
}

/// Where a boot goes on after the first `at` archives.
pub open spec fn next_pack(paths: Seq<Seq<char>>, at: int) -> PhaseView {
    if at < paths.len() {
        PhaseView::Packs { paths, at }
    } else {
        PhaseView::Starting
    }
}

/// A boot that goes on if `good` holds.
pub open spec fn goes_on(good: bool, phase: PhaseView, found: Findings) -> RunView {
    RunView {
        phase: if good {
            phase
        } else {
            PhaseView::Finished
        },
        found,
    }
}

/// A boot whose archives cannot be indexed.
pub open spec fn packs_failed(found: Findings, fault: PackFault) -> RunView {
    RunView { phase: PhaseView::Finished, found: Findings { packs: Some(fault), ..found } }
}

/// A boot after an event.
pub open spec fn after(boot: RfvpBootConfig<'_>, run: RunView, event: BootEvent) -> RunView {
    let found = run.found;
    match event {
        BootEvent::Listed(listing) => if run.phase is Listing {
            goes_on(
                lists_a_script(boot, listing),
                PhaseView::Reading,
                Findings { listing, ..found },
            )
        } else {
            match listing {
                Ok(lines) => RunView { phase: next_pack(file_paths(lines@), 0), found },
                Err(error) => packs_failed(found, PackFault { error, rejected: None }),
            }
        },
        BootEvent::ScriptRead(script_bytes) => goes_on(
            script_bytes is Ok,
            PhaseView::Parsing,
            Findings { script_bytes, ..found },
        ),
        BootEvent::ScriptParsed(script) => goes_on(
            script is Ok,
            PhaseView::Font,
            Findings { script, ..found },
        ),
        BootEvent::FontLoaded(font) => goes_on(
            font == FontReply::Loaded,
            PhaseView::PackListing,
            Findings { font, ..found },
        ),
        BootEvent::PackAdded(reply) => match run.phase {
            PhaseView::Packs { paths, at } => match reply {
                IndexReply::Added => RunView { phase: next_pack(paths, at + 1), found },
                IndexReply::Unopened(error) => packs_failed(
                    found,
                    PackFault { error, rejected: None },
                ),
                IndexReply::Rejected(words) => packs_failed(
                    found,
                    PackFault {
                        error: RfvpError::InvalidData,
                        rejected: Some((paths[at], words@)),
                    },
                ),
            },
            _ => run,
        },
        BootEvent::Started(trace_accepted) => RunView {
            phase: PhaseView::Finished,
            found: Findings { trace_accepted, ..found },
        },
    }
}

impl BootRun {
    /// Whether the findings so far are those that the phase rests on.
    pub open spec fn wf(&self, boot: RfvpBootConfig<'_>) -> bool {
        sound(boot, self@)
    }

    /// Begins a boot.
    pub fn begin(boot: &RfvpBootConfig<'_>) -> (r: Self)
        ensures
            r.wf(*boot),
            begun(*boot, r@),
    {
        let evidence = BootEvidence {
            listing: Err(RfvpError::NotFound),
            script_bytes: Err(RfvpError::NotFound),
            script: Err(text::owned("")),
            font: FontReply::Missing,
            packs: Ok(()),
            trace_accepted: false,
        };
        let phase = if boot_config_ok(boot) {
            BootPhase::Listing
        } else {
            BootPhase::Finished
        };
        BootRun { phase, evidence }
    }

    /// What has to be done next.
    pub fn action(&self, boot: &RfvpBootConfig<'_>, trace_capacity: usize) -> (r: BootAction)
        requires
            self.wf(*boot),
        ensures
            r@ == asked(*boot, trace_capacity, self@),
    {
        match &self.phase {
            BootPhase::Listing => BootAction::List {
                root: text::owned(boot.asset_root),
                extension: text::owned(boot.hcb_extension),
            },
            BootPhase::Reading => match &self.evidence.listing {
                Ok(lines) => BootAction::ReadScript {
                    path: text::owned(lines[0].0.as_str()),
                    limit: boot.max_hcb_bytes,
                },
                Err(_) => BootAction::Finish,
            },
            BootPhase::Parsing => BootAction::ParseScript,
            BootPhase::Font => BootAction::LoadFont { path: text::owned("default.ttf") },
            BootPhase::PackListing => BootAction::List {
                root: text::owned(boot.asset_root),
                extension: text::owned("bin"),
            },
            BootPhase::Packs { paths, at } => {
                let path = paths[*at].as_str();
                BootAction::AddPack { path: text::owned(path), folder: pack_folder(path) }
            },
            BootPhase::Starting => match &self.evidence.script {
                Ok(facts) => BootAction::Start { entry_point: facts.entry_point, trace_capacity },
                Err(_) => BootAction::Finish,
            },
            BootPhase::Finished => BootAction::Finish,
        }
    }

    /// The script that the engine has to parse.
    pub fn script(&self) -> (r: Option<&Vec<u8>>)
        ensures
            match self.evidence.script_bytes {
                Ok(bytes) => r is Some && *r->0 == bytes,
                Err(_) => r is None,
            },
    {
        match &self.evidence.script_bytes {
            Ok(bytes) => Some(bytes),
            Err(_) => None,
        }
    }

    /// Takes in what came of an action.
    pub fn advance(self, boot: &RfvpBootConfig<'_>, event: BootEvent) -> (r: Self)
        requires
            self.wf(*boot),
            answers(*boot, self@.phase, event),
        ensures
            r.wf(*boot),
            r@ == after(*boot, self@, event),
    {
        let mut evidence = self.evidence;
        let phase = match event {
            BootEvent::Listed(listing) => match self.phase {
                BootPhase::Listing => {
                    let good = match &listing {
                        Ok(lines) => lines.len() > 0 && lines.len() <= boot.max_manifest_entries,
                        Err(_) => false,
                    };
                    evidence.listing = listing;
                    if good {
                        BootPhase::Reading
                    } else {
                        BootPhase::Finished
                    }
                },
                _ => match listing {
                    Ok(lines) => Self::pack_phase(build_host_vfs(&lines), 0),
                    Err(error) => {
                        evidence.packs = Err(PackFailure { error, rejected: None });
                        BootPhase::Finished
                    },
                },
            },
            BootEvent::ScriptRead(script_bytes) => {
                let good = script_bytes.is_ok();
                evidence.script_bytes = script_bytes;
                if good {
                    BootPhase::Parsing
                } else {
                    BootPhase::Finished
                }
            },
            BootEvent::ScriptParsed(script) => {
                let good = script.is_ok();
                evidence.script = script;
                if good {
                    BootPhase::Font
                } else {
                    BootPhase::Finished
                }
            },
            BootEvent::FontLoaded(font) => {
                evidence.font = font;
                if font == FontReply::Loaded {
                    BootPhase::PackListing
                } else {
                    BootPhase::Finished
                }
            },
            BootEvent::PackAdded(reply) => match self.phase {
                BootPhase::Packs { paths, at } => match reply {
                    IndexReply::Added => {
                        assert(at < paths.len());
                        Self::pack_phase(paths, at + 1)
                    },
                    IndexReply::Unopened(error) => {
                        evidence.packs = Err(PackFailure { error, rejected: None });
                        BootPhase::Finished
                    },
                    IndexReply::Rejected(words) => {
                        let path = text::owned(paths[at].as_str());
                        evidence.packs = Err(
                            PackFailure {
                                error: RfvpError::InvalidData,
                                rejected: Some((path, words)),
                            },
                        );
                        BootPhase::Finished
                    },
                },
                other => other,
            },
            BootEvent::Started(trace_accepted) => {
                evidence.trace_accepted = trace_accepted;
                BootPhase::Finished
            },
        };
        BootRun { phase, evidence }
    }

    fn pack_phase(paths: Vec<String>, at: usize) -> (r: BootPhase)
        ensures
            r@ == next_pack(crate::hosted_host::path_views(paths@), at as int),
    {
        if at < paths.len() {
            BootPhase::Packs { paths, at }
        } else {
            BootPhase::Starting
        }
    }

    /// What the boot has found.
    pub fn finish(self, boot: &RfvpBootConfig<'_>) -> (r: BootEvidence)
        requires
            self.wf(*boot),
            self@.phase is Finished,
        ensures
            r == self.evidence,
            numbered(r.script),
            within_limit(r.script_bytes, boot.max_hcb_bytes),
            boot_failure(*boot, r) is None <==> r.trace_accepted,
    {
        self.evidence
    }
}

/// The stages that a boot still has before it.
pub open spec fn stages_left(phase: PhaseView) -> int {
    match phase {
        PhaseView::Listing => 7,
        PhaseView::Reading => 6,
        PhaseView::Parsing => 5,
        PhaseView::Font => 4,
        PhaseView::PackListing => 3,
        PhaseView::Packs { .. } => 2,
        PhaseView::Starting => 1,
        PhaseView::Finished => 0,
    }
}

/// The archives that a boot still has before it.
pub open spec fn packs_left(phase: PhaseView) -> int {
    match phase {
        PhaseView::Packs { paths, at } => paths.len() - at,
        _ => 0,
    }
}

/// A boot ends: each answer either takes it to a later stage, or is that of one
/// archive and leaves one archive less.
pub proof fn law_boot_ends(boot: RfvpBootConfig<'_>, run: RunView, event: BootEvent)
    requires
        sound(boot, run),
        answers(boot, run.phase, event),
    ensures
        ({
            let next = after(boot, run, event).phase;
            ||| stages_left(next) < stages_left(run.phase)
            ||| stages_left(next) == stages_left(run.phase) && 0 <= packs_left(next)
                < packs_left(run.phase)
        }),
{
}

/// Whether two boots found the same as far as either of them has to look.
pub open spec fn same_as_far_as_asked(boot: RfvpBootConfig<'_>, a: Findings, b: Findings) -> bool {
    boot_config_valid(boot) ==> {
        &&& a.listing == b.listing
        &&& lists_a_script(boot, a.listing) ==> {
            &&& a.script_bytes == b.script_bytes
            &&& a.script_bytes is Ok ==> {
                &&& a.script == b.script
                &&& a.script is Ok ==> {
                    &&& a.font == b.font
                    &&& a.font == FontReply::Loaded ==> {
                        &&& a.packs == b.packs
                        &&& a.packs is None ==> a.trace_accepted == b.trace_accepted
                    }
                }
            }
        }
    }
}

/// A boot asks for all that counts: what it did not ask for any more changes neither
/// the core nor the log.
pub proof fn law_unasked_findings_do_not_count(
    before: CoreView,
    boot: RfvpBootConfig<'_>,
    a: BootEvidence,
    b: BootEvidence,
)
    requires
        same_as_far_as_asked(boot, findings(a), findings(b)),
    ensures
        booted_core(before, boot, a) == booted_core(before, boot, b),
        boot_logs(boot, a) == boot_logs(boot, b),
{
    assert(boot_logs(boot, a) =~= boot_logs(boot, b));
}

/// A boot asks for one thing after the other: the scripts below the asset root, the first of
/// them up to the allowed length, the parsed script, the font, the archives below the asset
/// root, each archive under the folder of its name, and the start at the entry point of the
/// script. What was answered is what it found.
pub proof fn law_boot_asks_in_order(
    boot: RfvpBootConfig<'_>,
    trace_capacity: usize,
    run: RunView,
    scripts: Vec<(String, RfvpFileInfo)>,
    script_bytes: Vec<u8>,
    facts: ScriptFacts,
    packs: Vec<(String, RfvpFileInfo)>,
    trace_accepted: bool,
)
    requires
        begun(boot, run),
        boot_config_valid(boot),
        1 <= scripts@.len() <= boot.max_manifest_entries,
    ensures
        ({
            let read = after(boot, run, BootEvent::Listed(Ok(scripts)));
            let parse = after(boot, read, BootEvent::ScriptRead(Ok(script_bytes)));
            let font = after(boot, parse, BootEvent::ScriptParsed(Ok(facts)));
            let list = after(boot, font, BootEvent::FontLoaded(FontReply::Loaded));
            let index = after(boot, list, BootEvent::Listed(Ok(packs)));
            let paths = file_paths(packs@);
            let start = RunView { phase: PhaseView::Starting, ..index };
            let done = after(boot, start, BootEvent::Started(trace_accepted));
            &&& asked(boot, trace_capacity, run) == (ActionView::List {
                root: boot.asset_root@,
                extension: boot.hcb_extension@,
            })
            &&& asked(boot, trace_capacity, read) == (ActionView::ReadScript {
                path: scripts@[0].0@,
                limit: boot.max_hcb_bytes,
            })
            &&& asked(boot, trace_capacity, parse) == ActionView::ParseScript
            &&& asked(boot, trace_capacity, font) == (ActionView::LoadFont { path: "default.ttf"@ })
            &&& asked(boot, trace_capacity, list) == (ActionView::List {
                root: boot.asset_root@,
                extension: "bin"@,
            })
            &&& paths.len() > 0 ==> asked(boot, trace_capacity, index) == (ActionView::AddPack {
                path: paths[0],
                folder: folder_of(paths[0]),
            })
            &&& paths.len() == 0 ==> index == start
            &&& asked(boot, trace_capacity, start) == (ActionView::Start {
                entry_point: facts.entry_point,
                trace_capacity,
            })
            &&& asked(boot, trace_capacity, done) == ActionView::Finish
            &&& done.found.listing == Ok::<Vec<(String, RfvpFileInfo)>, RfvpError>(scripts)
            &&& done.found.script_bytes == Ok::<Vec<u8>, RfvpError>(script_bytes)
            &&& done.found.script == Ok::<ScriptFacts, String>(facts)
            &&& done.found.font is Loaded
            &&& done.found.packs is None
            &&& done.found.trace_accepted == trace_accepted
        }),
{
}

/// Archives are indexed one after the other, each under its folder, and the script starts
/// behind the last one. One that cannot be opened or that the engine does not take ends the
/// boot, which then knows why and, for one that is not taken, which it was.
pub proof fn law_archives_are_indexed_in_order(
    boot: RfvpBootConfig<'_>,
    trace_capacity: usize,
    run: RunView,
    error: RfvpError,
    words: String,
)
    requires
        run.phase is Packs,
    ensures
        ({
            let paths = run.phase->paths;
            let at = run.phase->at;
            let added = after(boot, run, BootEvent::PackAdded(IndexReply::Added));
            let unopened = after(boot, run, BootEvent::PackAdded(IndexReply::Unopened(error)));
            let rejected = after(boot, run, BootEvent::PackAdded(IndexReply::Rejected(words)));
            &&& asked(boot, trace_capacity, run) == (ActionView::AddPack {
                path: paths[at],
                folder: folder_of(paths[at]),
            })
            &&& added.found == run.found
            &&& at + 1 < paths.len() ==> asked(boot, trace_capacity, added) == (
            ActionView::AddPack { path: paths[at + 1], folder: folder_of(paths[at + 1]) })
            &&& at + 1 >= paths.len() ==> added.phase is Starting
            &&& unopened.phase is Finished
            &&& unopened.found.packs matches Some(fault) && fault.error == error
                && fault.rejected is None
            &&& rejected.phase is Finished
            &&& rejected.found.packs matches Some(fault) && fault.error == RfvpError::InvalidData
                && fault.rejected == Some((paths[at], words@))
        }),
{
}

/// Whatever fails ends the boot, and nothing more is asked for.
pub proof fn law_failed_boot_asks_no_more(
    boot: RfvpBootConfig<'_>,
    trace_capacity: usize,
    run: RunView,
    error: RfvpError,
    words: String,
    font: FontReply,
)
    requires
        font != FontReply::Loaded,
    ensures
        asked(boot, trace_capacity, after(boot, run, BootEvent::Listed(Err(error))))
            == ActionView::Finish,
        asked(boot, trace_capacity, after(boot, run, BootEvent::ScriptRead(Err(error))))
            == ActionView::Finish,
        asked(boot, trace_capacity, after(boot, run, BootEvent::ScriptParsed(Err(words))))
            == ActionView::Finish,
        asked(boot, trace_capacity, after(boot, run, BootEvent::FontLoaded(font)))
            == ActionView::Finish,
        !boot_config_valid(boot) && begun(boot, run) ==> asked(boot, trace_capacity, run)
            == ActionView::Finish,
{
}

/// A listing without a script, or with more than allowed, ends the boot.
pub proof fn law_boot_needs_a_script(
    boot: RfvpBootConfig<'_>,
    trace_capacity: usize,
    run: RunView,
    scripts: Vec<(String, RfvpFileInfo)>,
)
    requires
        run.phase is Listing,
        scripts@.len() == 0 || scripts@.len() > boot.max_manifest_entries,
    ensures
        asked(boot, trace_capacity, after(boot, run, BootEvent::Listed(Ok(scripts))))
            == ActionView::Finish,
{
}

}
