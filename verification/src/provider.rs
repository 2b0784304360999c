//! The family provider: registered cases, probing, and the life of sessions.
//!
//! The host validates identifiers and contexts with rules of its own. A `verdict`
//! is what those rules say.

use vstd::prelude::*;

use crate::digest::Hash256;
use crate::family::{
    LegacyOpenRequest, LegacyProbeReport, LegacyProbeRequest, LegacyRuntimeHostCtx,
    LegacyShutdownReport, LegacyVmTraceRecord,
};
use crate::fault::{Fault, FvpFormatError, LegacyProviderError};
use crate::hcb::{FvpHcbScript, HeaderView};
use crate::names::NameMap;
use crate::nls::FvpNls;
use crate::options::{self, MAX_CASE_FILES, MAX_FILE_BYTES};
use crate::session::HostedTraceProfile;
use crate::step::{FvpSession, Pointer, StepSession};
use crate::text;

verus! {

/// A game held in memory: its script and its files.
#[derive(Debug)]
pub struct FvpCaseImage {
    pub case_fingerprint: Hash256,
    pub root_mount_id: String,
    pub script_bytes: Vec<u8>,
    pub nls: FvpNls,
    pub files: NameMap<Vec<u8>>,
}

#[verifier::ext_equal]
pub struct CaseView {
    pub fingerprint: Seq<u8>,
    pub mount: Seq<char>,
    pub script: Seq<u8>,
    pub nls: FvpNls,
    pub files: Map<Seq<char>, Seq<u8>>,
}

/// The contents of a table of files.
pub open spec fn contents(files: NameMap<Vec<u8>>) -> Map<Seq<char>, Seq<u8>> {
    Map::new(
        |name: Seq<char>| files@.contains_key(name),
        |name: Seq<char>| files@[name]@,
    )
}

impl FvpCaseImage {
    pub open spec fn view(&self) -> CaseView {
        CaseView {
            fingerprint: self.case_fingerprint@,
            mount: self.root_mount_id@,
            script: self.script_bytes@,
            nls: self.nls,
            files: contents(self.files),
        }
    }
}

pub open spec fn case_views(s: Seq<FvpCaseImage>) -> Seq<CaseView> {
    Seq::new(s.len(), |i: int| s[i]@)
}

/// The first case from `i` on with the fingerprint.
pub open spec fn case_place(cases: Seq<CaseView>, fingerprint: Seq<u8>, i: int) -> Option<int>
    decreases cases.len() - i,
{
    if i >= cases.len() {
        None
    } else if cases[i].fingerprint == fingerprint {
        Some(i)
    } else {
        case_place(cases, fingerprint, i + 1)
    }
}

/// The first case from `i` on under the mount.
pub open spec fn mount_place(cases: Seq<CaseView>, mount: Seq<char>, i: int) -> Option<int>
    decreases cases.len() - i,
{
    if i >= cases.len() {
        None
    } else if cases[i].mount == mount {
        Some(i)
    } else {
        mount_place(cases, mount, i + 1)
    }
}

/// A provider: cases by fingerprint and mount, sessions by name.
#[derive(Debug)]
pub struct FvpRuntimeProvider {
    pub cases: Vec<FvpCaseImage>,
    pub sessions: NameMap<FvpSession>,
}

#[verifier::ext_equal]
pub struct ProviderView {
    pub cases: Seq<CaseView>,
    pub sessions: Map<Seq<char>, FvpSession>,
}

/// Whether no two cases share a fingerprint or a mount.
pub open spec fn cases_distinct(cases: Seq<CaseView>) -> bool {
    forall|i: int, j: int|
        0 <= i < j < cases.len() ==> (#[trigger] cases[i]).fingerprint != (
        #[trigger] cases[j]).fingerprint && cases[i].mount != cases[j].mount
}

// ----------------------------------------------------------------- registration

/// The failure of a script that does not follow its format.
pub open spec fn format_fault(f: Fault) -> Fault {
    Fault { code: f.code, message: f.code + ": "@ + f.message }
}

fn format_error(error: FvpFormatError) -> (r: LegacyProviderError)
    ensures
        r@ == format_fault(error@),
{
    let line = error.to_text();
    LegacyProviderError::invalid(error.code(), line.as_str())
}

/// The files from `i` on under their normal paths, with those in `done`.
pub open spec fn normal_files(
    names: Seq<String>,
    values: Seq<Vec<u8>>,
    i: int,
    done: Map<Seq<char>, Seq<u8>>,
) -> Result<Map<Seq<char>, Seq<u8>>, Fault>
    decreases names.len() - i,
{
    if i >= names.len() {
        Ok(done)
    } else if values[i]@.len() > MAX_FILE_BYTES {
        Err(
            crate::fault::fault(
                "ASTRA_FVP_VFS_FILE_BOUNDS",
                "case VFS file exceeds the supported byte bound",
            ),
        )
    } else {
        match options::case_path(names[i]@) {
            None => Err(crate::fault::fault("ASTRA_FVP_VFS_PATH", "RFVP_VFS_PATH_TRAVERSAL")),
            Some(path) => if done.contains_key(path) {
                Err(
                    crate::fault::fault(
                        "ASTRA_FVP_VFS_DUPLICATE",
                        "case VFS contains a normalized path collision",
                    ),
                )
            } else {
                normal_files(names, values, i + 1, done.insert(path, values[i]@))
            },
        }
    }
}

/// The case that an image registers as, apart from the other cases.
pub open spec fn admitted_case(image: FvpCaseImage) -> Result<CaseView, Fault> {
    if image.script_bytes@.len() > MAX_FILE_BYTES {
        Err(
            crate::fault::fault(
                "ASTRA_FVP_SCRIPT_BOUNDS",
                "HCB script exceeds the supported byte bound",
            ),
        )
    } else {
        match crate::hcb::header_of(image.script_bytes@, image.nls) {
            Err(f) => Err(format_fault(f)),
            Ok(_) => if image.case_fingerprint@ != crate::digest::sha256_of(image.script_bytes@) {
                Err(
                    crate::fault::fault(
                        "ASTRA_FVP_CASE_FINGERPRINT",
                        "case fingerprint does not match the HCB bytes",
                    ),
                )
            } else if image.files.names@.len() > MAX_CASE_FILES {
                Err(
                    crate::fault::fault(
                        "ASTRA_FVP_VFS_ENTRY_BOUNDS",
                        "case VFS contains too many files",
                    ),
                )
            } else {
                match normal_files(
                    image.files.names@,
                    image.files.values@,
                    0,
                    Map::empty(),
                ) {
                    Err(f) => Err(f),
                    Ok(files) => Ok(CaseView { files, ..image@ }),
                }
            },
        }
    }
}

/// Registering a case: the cases afterwards and the failure. A fingerprint that is
/// registered already is reported, and the newer case takes its place.
pub open spec fn case_registered(cases: Seq<CaseView>, case: CaseView) -> (
    Seq<CaseView>,
    Option<Fault>,
) {
    if mount_place(cases, case.mount, 0) is Some {
        (
            cases,
            Some(
                crate::fault::fault(
                    "ASTRA_FVP_MOUNT_DUPLICATE",
                    "root mount id is already registered",
                ),
            ),
        )
    } else {
        match case_place(cases, case.fingerprint, 0) {
            Some(i) => (
                cases.update(i, case),
                Some(
                    crate::fault::fault(
                        "ASTRA_FVP_CASE_DUPLICATE",
                        "case fingerprint is already registered",
                    ),
                ),
            ),
            None => (cases.push(case), None),
        }
    }
}

fn normalize_files(files: NameMap<Vec<u8>>) -> (r: Result<NameMap<Vec<u8>>, LegacyProviderError>)
    requires
        files.wf(),
    ensures
        match normal_files(files.names@, files.values@, 0, Map::empty()) {
            Ok(done) => r is Ok && r->Ok_0.wf() && contents(r->Ok_0) == done,
            Err(f) => r is Err && r->Err_0@ == f,
        },
{
    let ghost names = files.names@;
    let ghost values = files.values@;
    let keys = files.names;
    let mut bodies = files.values;
    let mut done: NameMap<Vec<u8>> = NameMap::new();
    assert(contents(done) =~= Map::empty());
    let mut i: usize = 0;
    while i < keys.len()
        invariant
            i <= keys@.len(),
            keys@ == names,
            bodies@.len() == names.len(),
            values.len() == names.len(),
            names == files.names@,
            values == files.values@,
            forall|j: int| i <= j < names.len() ==> bodies@[j] == values[j],
            done.wf(),
            normal_files(names, values, 0, Map::empty()) == normal_files(
                names,
                values,
                i as int,
                contents(done),
            ),
        decreases keys@.len() - i,
    {
        let mut body: Vec<u8> = Vec::new();
        core::mem::swap(&mut body, &mut bodies[i]);
        assert(body == values[i as int]);
        if body.len() > MAX_FILE_BYTES {
            return Err(
                LegacyProviderError::invalid(
                    "ASTRA_FVP_VFS_FILE_BOUNDS",
                    "case VFS file exceeds the supported byte bound",
                ),
            );
        }
        let path = match options::normalize_vfs_path(keys[i].as_str()) {
            Ok(v) => v,
            Err(message) => return Err(LegacyProviderError::invalid("ASTRA_FVP_VFS_PATH", message)),
        };
        let ghost name = path@;
        let ghost before = done;
        if !done.insert_new(path, body) {
            return Err(
                LegacyProviderError::invalid(
                    "ASTRA_FVP_VFS_DUPLICATE",
                    "case VFS contains a normalized path collision",
                ),
            );
        }
        assert(contents(done) =~= contents(before).insert(name, body@));
        i = i + 1;
    }
    Ok(done)
}

// ------------------------------------------------------------------------- probe

/// The text encoding under which `bytes` are a script, the first that fits.
pub open spec fn detected_nls(bytes: Seq<u8>) -> Option<FvpNls> {
    if crate::hcb::header_of(bytes, FvpNls::ShiftJis) is Ok {
        Some(FvpNls::ShiftJis)
    } else if crate::hcb::header_of(bytes, FvpNls::Gbk) is Ok {
        Some(FvpNls::Gbk)
    } else if crate::hcb::header_of(bytes, FvpNls::Utf8) is Ok {
        Some(FvpNls::Utf8)
    } else {
        None
    }
}

/// What a probe found: the script's header, its identity and its encoding.
#[verifier::ext_equal]
pub struct FoundScript {
    pub header: HeaderView,
    pub fingerprint: Seq<u8>,
    pub nls: FvpNls,
}

/// The scripts among the files from `i` on.
pub open spec fn found_scripts(files: Seq<Vec<u8>>, i: int) -> Seq<FoundScript>
    decreases files.len() - i,
{
    if i >= files.len() {
        Seq::empty()
    } else {
        match detected_nls(files[i]@) {
            None => found_scripts(files, i + 1),
            Some(nls) => seq![
                FoundScript {
                    header: crate::hcb::header_of(files[i]@, nls)->Ok_0,
                    fingerprint: crate::digest::sha256_of(files[i]@),
                    nls,
                },
            ] + found_scripts(files, i + 1),
        }
    }
}

/// The name of a text encoding.
pub open spec fn nls_name(nls: FvpNls) -> Seq<char> {
    match nls {
        FvpNls::ShiftJis => "shift_jis"@,
        FvpNls::Gbk => "gbk"@,
        FvpNls::Utf8 => "utf8"@,
    }
}

pub open spec fn hash_views(s: Seq<Hash256>) -> Seq<Seq<u8>> {
    Seq::new(s.len(), |i: int| s[i]@)
}

/// Whether a script is one of those that the probe looks for; without such a list
/// every script is.
pub open spec fn marker_match(markers: Seq<Hash256>, fingerprint: Seq<u8>) -> bool {
    markers.len() == 0 || hash_views(markers).contains(fingerprint)
}

/// The markers that a script is reported with.
pub open spec fn script_markers(found: FoundScript) -> Seq<Seq<char>> {
    seq![
        "fvp.hcb.descriptor"@,
        "fvp.game_mode."@ + text::decimal(found.header.game_mode as nat),
        "fvp.stage_width."@ + text::decimal(found.header.width as nat),
        "fvp.stage_height."@ + text::decimal(found.header.height as nat),
        "fvp.nls."@ + nls_name(found.nls),
    ]
}

#[verifier::ext_equal]
pub struct ReportView {
    pub family_id: Seq<char>,
    pub confidence_permyriad: u32,
    pub markers: Seq<Seq<char>>,
    pub blockers: Seq<Seq<char>>,
    pub content_identity: Seq<u8>,
}

impl LegacyProbeReport {
    pub open spec fn view(&self) -> ReportView {
        ReportView {
            family_id: self.family_id@,
            confidence_permyriad: self.confidence_permyriad,
            markers: text::texts(self.markers@),
            blockers: text::texts(self.blockers@),
            content_identity: self.content_identity@,
        }
    }
}

/// The report on a script.
pub open spec fn report_of(found: FoundScript, markers: Seq<Hash256>) -> ReportView {
    let matched = marker_match(markers, found.fingerprint);
    ReportView {
        family_id: crate::FVP_FAMILY_ID@,
        confidence_permyriad: if matched {
            10_000
        } else {
            0
        },
        markers: if matched {
            script_markers(found)
        } else {
            Seq::empty()
        },
        blockers: Seq::empty(),
        content_identity: found.fingerprint,
    }
}

/// What the host's file system answered to a probe.
#[derive(Debug)]
pub enum ProbeReads {
    /// No host file system is bound.
    Unbound,
    /// A candidate could not be read.
    Failed(LegacyProviderError),
    /// The candidates, in order.
    Read(Vec<Vec<u8>>),
}

/// What a probe finds.
pub open spec fn probed(cases: Seq<CaseView>, mount: Seq<char>, reads: ProbeReads) -> Result<
    FoundScript,
    Fault,
> {
    match mount_place(cases, mount, 0) {
        Some(i) => match crate::hcb::header_of(cases[i].script, cases[i].nls) {
            Ok(header) => Ok(
                FoundScript { header, fingerprint: cases[i].fingerprint, nls: cases[i].nls },
            ),
            Err(f) => Err(format_fault(f)),
        },
        None => match reads {
            ProbeReads::Unbound => Err(
                crate::fault::fault(
                    "ASTRA_FVP_PROBE_SOURCE",
                    "probe root mount is not registered and no host VFS is bound",
                ),
            ),
            ProbeReads::Failed(e) => Err(e@),
            ProbeReads::Read(files) => {
                let found = found_scripts(files@, 0);
                if found.len() == 1 {
                    Ok(found[0])
                } else {
                    Err(
                        crate::fault::fault(
                            "ASTRA_FVP_PROBE_AMBIGUOUS",
                            "host VFS must expose exactly one valid bounded FVP HCB candidate",
                        ),
                    )
                }
            },
        },
    }
}

/// The candidates from `i` on that a probe reads, of at most `max` in all.
pub open spec fn script_candidates(uris: Seq<String>, max: int, i: int) -> Seq<Seq<char>>
    decreases uris.len() - i,
{
    if i >= uris.len() || i >= max {
        Seq::empty()
    } else if text::has_suffix(text::lower(uris[i]@), ".hcb"@) {
        seq![uris[i]@] + script_candidates(uris, max, i + 1)
    } else {
        script_candidates(uris, max, i + 1)
    }
}

/// Whether a probe may read at least one candidate, and of it at least a header.
pub open spec fn probe_budget_fits(request: LegacyProbeRequest) -> bool {
    request.max_entries > 0 && request.max_metadata_bytes >= 64
}

/// The files that a probe reads, in order.
pub fn probe_candidates(request: &LegacyProbeRequest) -> (r: Vec<String>)
    ensures
        text::texts(r@) == script_candidates(
            request.candidate_uris@,
            request.max_entries as int,
            0,
        ),
{
    let ghost uris = request.candidate_uris@;
    let ghost expected = script_candidates(uris, request.max_entries as int, 0);
    let mut r: Vec<String> = Vec::new();
    let mut i: usize = 0;
    assert(text::texts(r@) =~= Seq::empty());
    while i < request.candidate_uris.len() && (i as u64) < (request.max_entries as u64)
        invariant
            i <= uris.len(),
            uris == request.candidate_uris@,
            expected == script_candidates(uris, request.max_entries as int, 0),
            expected =~= text::texts(r@) + script_candidates(
                uris,
                request.max_entries as int,
                i as int,
            ),
        decreases uris.len() - i,
    {
        let uri = request.candidate_uris[i].as_str();
        let small = text::to_lower(&text::chars_of(uri));
        if text::ends_with(&small, ".hcb") {
            let copy = text::owned(uri);
            let ghost before = text::texts(r@);
            r.push(copy);
            assert(text::texts(r@) =~= before.push(copy@));
        }
        i = i + 1;
    }
    assert(text::texts(r@) =~= expected);
    r
}

/// The bytes that a probe reads of a candidate at most.
pub fn probe_read_limit(request: &LegacyProbeRequest) -> (r: u64)
    ensures
        r == if request.max_metadata_bytes < MAX_FILE_BYTES {
            request.max_metadata_bytes
        } else {
            MAX_FILE_BYTES as u64
        },
{
    if request.max_metadata_bytes < MAX_FILE_BYTES as u64 {
        request.max_metadata_bytes
    } else {
        MAX_FILE_BYTES as u64
    }
}

/// A parsed script with its identity and encoding.
struct Candidate {
    script: FvpHcbScript,
    fingerprint: Hash256,
    nls: FvpNls,
}

impl Candidate {
    spec fn view(&self) -> FoundScript {
        FoundScript { header: self.script.header@, fingerprint: self.fingerprint@, nls: self.nls }
    }
}

fn parse_as(bytes: &Vec<u8>, nls: FvpNls) -> (r: Option<Candidate>)
    ensures
        match crate::hcb::header_of(bytes@, nls) {
            Ok(header) => r is Some && r->0@ == (FoundScript {
                header,
                fingerprint: crate::digest::sha256_of(bytes@),
                nls,
            }),
            Err(_) => r is None,
        },
{
    let copy = vstd::slice::slice_to_vec(bytes.as_slice());
    match FvpHcbScript::parse(copy, nls) {
        Ok(script) => Some(
            Candidate { script, fingerprint: Hash256::from_sha256(bytes.as_slice()), nls },
        ),
        Err(_) => None,
    }
}

fn parse_any(bytes: &Vec<u8>) -> (r: Option<Candidate>)
    ensures
        match detected_nls(bytes@) {
            Some(nls) => r is Some && r->0@ == (FoundScript {
                header: crate::hcb::header_of(bytes@, nls)->Ok_0,
                fingerprint: crate::digest::sha256_of(bytes@),
                nls,
            }),
            None => r is None,
        },
{
    match parse_as(bytes, FvpNls::ShiftJis) {
        Some(c) => return Some(c),
        None => {},
    }
    match parse_as(bytes, FvpNls::Gbk) {
        Some(c) => return Some(c),
        None => {},
    }
    parse_as(bytes, FvpNls::Utf8)
}

fn single_script(files: &Vec<Vec<u8>>) -> (r: Option<Candidate>)
    ensures
        match r {
            Some(c) => found_scripts(files@, 0).len() == 1 && found_scripts(files@, 0)[0] == c@,
            None => found_scripts(files@, 0).len() != 1,
        },
{
    let mut found: Option<Candidate> = None;
    let mut i: usize = 0;
    while i < files.len()
        invariant
            i <= files@.len(),
            match found {
                None => found_scripts(files@, 0) == found_scripts(files@, i as int),
                Some(c) => found_scripts(files@, 0) == seq![c@] + found_scripts(
                    files@,
                    i as int,
                ),
            },
        decreases files@.len() - i,
    {
        match parse_any(&files[i]) {
            None => {},
            Some(c) => {
                if found.is_some() {
                    assert(found_scripts(files@, 0).len() >= 2);
                    return None;
                }
                found = Some(c);
            },
        }
        i = i + 1;
    }
    found
}

fn contains_hash(hashes: &Vec<Hash256>, hash: &Hash256) -> (r: bool)
    ensures
        r == hash_views(hashes@).contains(hash@),
{
    let mut i: usize = 0;
    while i < hashes.len()
        invariant
            i <= hashes@.len(),
            forall|j: int| 0 <= j < i ==> hash_views(hashes@)[j] != hash@,
        decreases hashes@.len() - i,
    {
        if hashes[i].same(hash) {
            assert(hash_views(hashes@)[i as int] == hash@);
            return true;
        }
        i = i + 1;
    }
    false
}

fn report(found: &Candidate, markers: &Vec<Hash256>) -> (r: LegacyProbeReport)
    ensures
        r@ == report_of(found@, markers@),
{
    let matched = markers.len() == 0 || contains_hash(markers, &found.fingerprint);
    let mut list: Vec<String> = Vec::new();
    if matched {
        let header = &found.script.header;
        list.push(text::owned("fvp.hcb.descriptor"));
        list.push(
            text::join2("fvp.game_mode.", text::decimal_string(header.game_mode as u64).as_str()),
        );
        list.push(
            text::join2("fvp.stage_width.", text::decimal_string(header.width as u64).as_str()),
        );
        list.push(
            text::join2("fvp.stage_height.", text::decimal_string(header.height as u64).as_str()),
        );
        let nls = match found.nls {
            FvpNls::ShiftJis => "shift_jis",
            FvpNls::Gbk => "gbk",
            FvpNls::Utf8 => "utf8",
        };
        list.push(text::join2("fvp.nls.", nls));
    }
    let r = LegacyProbeReport {
        family_id: text::owned(crate::FVP_FAMILY_ID),
        confidence_permyriad: if matched {
            10_000
        } else {
            0
        },
        markers: list,
        blockers: Vec::new(),
        content_identity: found.fingerprint,
    };
    assert(r@.markers =~= report_of(found@, markers@).markers);
    assert(r@ =~= report_of(found@, markers@));
    r
}

// ------------------------------------------------------------------------- opening

/// How a session starts.
#[derive(Debug)]
pub struct OpenPlan {
    pub script_uri: String,
    pub stage_width: u32,
    pub stage_height: u32,
    pub trace_profile: HostedTraceProfile,
    /// The registered case to run, or none to read the game through the host.
    pub case: Option<usize>,
}

/// What a plan says.
#[verifier::ext_equal]
pub struct OpenView {
    pub script_uri: Seq<char>,
    pub stage: (u32, u32),
    pub trace_profile: HostedTraceProfile,
    pub case: Option<int>,
}

impl OpenPlan {
    pub open spec fn view(&self) -> OpenView {
        OpenView {
            script_uri: self.script_uri@,
            stage: (self.stage_width, self.stage_height),
            trace_profile: self.trace_profile,
            case: match self.case {
                Some(i) => Some(i as int),
                None => None,
            },
        }
    }
}

/// The plan for a request.
pub open spec fn planned(
    provider: ProviderView,
    mount: Seq<char>,
    request: LegacyOpenRequest,
    host_bound: bool,
) -> Result<OpenView, Fault> {
    if request.fixed_delta_ns == 0 || request.fixed_delta_ns > 1_000_000_000 {
        Err(crate::fault::fault("ASTRA_FVP_FIXED_DELTA", "fixed delta is outside 1ns..=1s"))
    } else if provider.sessions.contains_key(request.requested_session_id@) {
        Err(crate::fault::fault("ASTRA_FVP_SESSION_DUPLICATE", "session id is already active"))
    } else {
        match options::stage_of(request.family_options) {
            Err(f) => Err(f),
            Ok(stage) => match options::declared_profile(request.family_options) {
                Err(f) => Err(f),
                Ok(trace_profile) => match options::case_path(request.script_uri@) {
                    None => Err(
                        crate::fault::fault("ASTRA_FVP_SCRIPT_URI", "RFVP_VFS_PATH_TRAVERSAL"),
                    ),
                    Some(script_uri) => match case_place(
                        provider.cases,
                        request.case_fingerprint@,
                        0,
                    ) {
                        Some(i) => if provider.cases[i].mount != mount {
                            Err(
                                crate::fault::fault(
                                    "ASTRA_FVP_MOUNT_BINDING",
                                    "host mount does not match the registered case",
                                ),
                            )
                        } else {
                            Ok(OpenView { script_uri, stage, trace_profile, case: Some(i) })
                        },
                        None => if host_bound {
                            Ok(OpenView { script_uri, stage, trace_profile, case: None })
                        } else {
                            Err(
                                crate::fault::fault(
                                    "ASTRA_FVP_CASE_MISSING",
                                    "case is not registered and no host VFS is bound",
                                ),
                            )
                        },
                    },
                },
            },
        }
    }
}

/// What a session read through the host needs beside its plan.
#[derive(Debug)]
pub struct HostCase {
    pub nls: FvpNls,
    pub pack_paths: Vec<String>,
}

/// The game that the options describe for the script that the host read.
pub open spec fn host_case(request: LegacyOpenRequest, script: Seq<u8>) -> Result<
    (FvpNls, Set<Seq<char>>),
    Fault,
> {
    if crate::digest::sha256_of(script) != request.case_fingerprint@ {
        Err(
            crate::fault::fault(
                "ASTRA_FVP_CASE_FINGERPRINT",
                "host VFS script hash does not match case fingerprint",
            ),
        )
    } else {
        match options::declared_nls(request.family_options) {
            Err(f) => Err(f),
            Ok(nls) => match options::declared_packs(request.family_options) {
                Err(f) => Err(f),
                Ok(packs) => Ok((nls, packs)),
            },
        }
    }
}

/// Holds the script that the host read against the request, and reads the options
/// that describe the rest of the game.
pub fn admit_host_case(request: &LegacyOpenRequest, script: &[u8]) -> (r: Result<
    HostCase,
    LegacyProviderError,
>)
    requires
        request.family_options.wf(),
    ensures
        match host_case(*request, script@) {
            Ok(case) => {
                &&& r is Ok
                &&& r->Ok_0.nls == case.0
                &&& options::sorted_names(r->Ok_0.pack_paths@, case.1)
            },
            Err(f) => r is Err && r->Err_0@ == f,
        },
{
    if !Hash256::from_sha256(script).same(&request.case_fingerprint) {
        return Err(
            LegacyProviderError::invalid(
                "ASTRA_FVP_CASE_FINGERPRINT",
                "host VFS script hash does not match case fingerprint",
            ),
        );
    }
    let nls = match options::parse_nls_option(&request.family_options) {
        Ok(v) => v,
        Err(e) => return Err(e),
    };
    let pack_paths = match options::parse_pack_paths_option(&request.family_options) {
        Ok(v) => v,
        Err(e) => return Err(e),
    };
    Ok(HostCase { nls, pack_paths })
}

/// A session that has taken no step yet.
pub open spec fn fresh_session(
    request: LegacyOpenRequest,
    case_id: Seq<char>,
    stage: (u32, u32),
    hook_timeout_ms: u32,
) -> StepSession {
    StepSession {
        last_step: 0,
        seed: request.session_seed,
        fixed_delta_ns: request.fixed_delta_ns,
        instruction_count: 0,
        syscall_count: 0,
        pointer: Pointer { x: 0, y: 0, in_screen: false },
        stage_width: stage.0,
        stage_height: stage.1,
        state_revision: 0,
        next_live_sequence: 1,
        poisoned: false,
        pending_movie: None,
        family_game_id: case_id,
        hook_timeout_ms,
        surface_generation: 0,
        layer_created: false,
    }
}

/// The kind of core that runs a family.
#[derive(Debug, Clone, Copy, PartialEq, Eq, Structural)]
pub enum LegacyFamilyCoreKind {
    Ported,
}

/// How a family presents its picture.
#[derive(Debug, Clone, Copy, PartialEq, Eq, Structural)]
pub enum LegacyFamilyPresentationMode {
    SingleLayer,
}

/// The identity of the provider.
#[derive(Debug)]
pub struct LegacyFamilyPluginDescriptor {
    pub family_id: String,
    pub plugin_id: String,
    pub provider_id: String,
    pub core_kind: LegacyFamilyCoreKind,
    pub presentation_mode: LegacyFamilyPresentationMode,
    pub engine_version: String,
    pub rustc_fingerprint: String,
    pub feature_fingerprint: String,
    pub abi_fingerprint: String,
    pub supported_formats: Vec<String>,
    pub permissions: Vec<String>,
    pub report_redaction: String,
    pub license: String,
}

impl FvpRuntimeProvider {
    pub open spec fn view(&self) -> ProviderView {
        ProviderView { cases: case_views(self.cases@), sessions: self.sessions@ }
    }

    pub open spec fn wf(&self) -> bool {
        &&& cases_distinct(self@.cases)
        &&& self.sessions.wf()
        &&& forall|i: int| 0 <= i < self.cases@.len() ==> (#[trigger] self.cases@[i]).files.wf()
    }

    /// A provider without cases and sessions.
    pub fn new() -> (r: Self)
        ensures
            r.wf(),
            r@ == (ProviderView { cases: Seq::empty(), sessions: Map::empty() }),
    {
        let r = FvpRuntimeProvider { cases: Vec::new(), sessions: NameMap::new() };
        assert(r@.cases =~= Seq::empty());
        r
    }

    pub fn has_active_sessions(&self) -> (r: bool)
        requires
            self.wf(),
        ensures
            r == exists|id: Seq<char>| #[trigger] self@.sessions.contains_key(id),
    {
        let any = self.sessions.len() > 0;
        proof {
            crate::names::lemma_view_entries(self.sessions);
            if any {
                assert(self@.sessions.contains_key(self.sessions.names@[0]@));
            }
        }
        any
    }

    /// What the provider says of itself. The host builds carry the version and the
    /// fingerprint of the boundary.
    pub fn descriptor(engine_version: &str, abi_fingerprint: &str) -> (r: LegacyFamilyPluginDescriptor)
        ensures
            r.family_id@ == crate::FVP_FAMILY_ID@,
            r.plugin_id@ == "astra.emu.fvp"@,
            r.provider_id@ == crate::FVP_PROVIDER_ID@,
            r.core_kind == LegacyFamilyCoreKind::Ported,
            r.presentation_mode == LegacyFamilyPresentationMode::SingleLayer,
            r.engine_version@ == engine_version@,
            r.rustc_fingerprint@ == "rfvp.astra.hosted"@,
            r.feature_fingerprint@ == "rfvp.astra.family-v9"@,
            r.abi_fingerprint@ == abi_fingerprint@,
            text::texts(r.supported_formats@) == seq![
                "fvp.hcb"@,
                "fvp.bin"@,
                "fvp.nvsg"@,
                "fvp.hzc1"@,
            ],
            text::texts(r.permissions@) == seq!["vfs.read"@, "media.submit"@],
            r.report_redaction@ == "astra.emu.redaction.v1"@,
            r.license@ == "MPL-2.0"@,
    {
        let mut formats: Vec<String> = Vec::new();
        formats.push(text::owned("fvp.hcb"));
        formats.push(text::owned("fvp.bin"));
        formats.push(text::owned("fvp.nvsg"));
        formats.push(text::owned("fvp.hzc1"));
        let mut permissions: Vec<String> = Vec::new();
        permissions.push(text::owned("vfs.read"));
        permissions.push(text::owned("media.submit"));
        LegacyFamilyPluginDescriptor {
            family_id: text::owned(crate::FVP_FAMILY_ID),
            plugin_id: text::owned("astra.emu.fvp"),
            provider_id: text::owned(crate::FVP_PROVIDER_ID),
            core_kind: LegacyFamilyCoreKind::Ported,
            presentation_mode: LegacyFamilyPresentationMode::SingleLayer,
            engine_version: text::owned(engine_version),
            rustc_fingerprint: text::owned("rfvp.astra.hosted"),
            feature_fingerprint: text::owned("rfvp.astra.family-v9"),
            abi_fingerprint: text::owned(abi_fingerprint),
            supported_formats: formats,
            permissions,
            report_redaction: text::owned("astra.emu.redaction.v1"),
            license: text::owned("MPL-2.0"),
        }
    }

    fn find_case(&self, fingerprint: &Hash256) -> (r: Option<usize>)
        ensures
            match r {
                Some(i) => i < self.cases@.len() && case_place(self@.cases, fingerprint@, 0) == Some(
                    i as int,
                ),
                None => case_place(self@.cases, fingerprint@, 0) is None,
            },
    {
        let mut i: usize = 0;
        while i < self.cases.len()
            invariant
                i <= self.cases@.len(),
                case_place(self@.cases, fingerprint@, 0) == case_place(
                    self@.cases,
                    fingerprint@,
                    i as int,
                ),
            decreases self.cases@.len() - i,
        {
            assert(self@.cases[i as int] == self.cases@[i as int]@);
            if self.cases[i].case_fingerprint.same(fingerprint) {
                return Some(i);
            }
            i = i + 1;
        }
        None
    }

    fn find_mount(&self, mount: &str) -> (r: Option<usize>)
        ensures
            match r {
                Some(i) => i < self.cases@.len() && mount_place(self@.cases, mount@, 0) == Some(
                    i as int,
                ),
                None => mount_place(self@.cases, mount@, 0) is None,
            },
    {
        let mut i: usize = 0;
        while i < self.cases.len()
            invariant
                i <= self.cases@.len(),
                mount_place(self@.cases, mount@, 0) == mount_place(self@.cases, mount@, i as int),
            decreases self.cases@.len() - i,
        {
            assert(self@.cases[i as int] == self.cases@[i as int]@);
            if text::same_text(self.cases[i].root_mount_id.as_str(), mount) {
                return Some(i);
            }
            i = i + 1;
        }
        None
    }

    /// The case under a mount.
    pub fn case_for_mount(&self, mount_id: &str) -> (r: Result<&FvpCaseImage, LegacyProviderError>)
        requires
            self.wf(),
        ensures
            match mount_place(self@.cases, mount_id@, 0) {
                Some(i) => r is Ok && 0 <= i < self@.cases.len() && *r->Ok_0 == self.cases@[i],
                None => r is Err && r->Err_0@ == crate::fault::fault(
                    "ASTRA_FVP_PROBE_SOURCE",
                    "probe root mount is not registered",
                ),
            },
    {
        match self.find_mount(mount_id) {
            Some(i) => Ok(&self.cases[i]),
            None => Err(
                LegacyProviderError::invalid(
                    "ASTRA_FVP_PROBE_SOURCE",
                    "probe root mount is not registered",
                ),
            ),
        }
    }

    /// Registers a game held in memory.
    pub fn register_case(
        &mut self,
        image: FvpCaseImage,
        verdict: Result<(), LegacyProviderError>,
    ) -> (r: Result<(), LegacyProviderError>)
        requires
            old(self).wf(),
            image.files.wf(),
        ensures
            final(self).wf(),
            final(self)@.sessions == old(self)@.sessions,
            match verdict {
                Err(e) => r is Err && r->Err_0@ == e@ && final(self)@ == old(self)@,
                Ok(_) => match admitted_case(image) {
                    Err(f) => r is Err && r->Err_0@ == f && final(self)@ == old(self)@,
                    Ok(case) => {
                        let outcome = case_registered(old(self)@.cases, case);
                        &&& final(self)@.cases == outcome.0
                        &&& match outcome.1 {
                            None => r is Ok,
                            Some(f) => r is Err && r->Err_0@ == f,
                        }
                    },
                },
            },
    {
        match verdict {
            Err(e) => return Err(e),
            Ok(_) => {},
        }
        if image.script_bytes.len() > MAX_FILE_BYTES {
            return Err(
                LegacyProviderError::invalid(
                    "ASTRA_FVP_SCRIPT_BOUNDS",
                    "HCB script exceeds the supported byte bound",
                ),
            );
        }
        let script = match FvpHcbScript::parse(image.script_bytes, image.nls) {
            Ok(v) => v,
            Err(e) => return Err(format_error(e)),
        };
        if !image.case_fingerprint.same(&Hash256::from_sha256(script.bytes())) {
            return Err(
                LegacyProviderError::invalid(
                    "ASTRA_FVP_CASE_FINGERPRINT",
                    "case fingerprint does not match the HCB bytes",
                ),
            );
        }
        if image.files.len() > MAX_CASE_FILES {
            return Err(
                LegacyProviderError::invalid(
                    "ASTRA_FVP_VFS_ENTRY_BOUNDS",
                    "case VFS contains too many files",
                ),
            );
        }
        let files = match normalize_files(image.files) {
            Ok(v) => v,
            Err(e) => return Err(e),
        };
        let case = FvpCaseImage {
            case_fingerprint: image.case_fingerprint,
            root_mount_id: image.root_mount_id,
            script_bytes: script.bytes,
            nls: image.nls,
            files,
        };
        assert(case@ =~= admitted_case(image)->Ok_0);
        if self.find_mount(case.root_mount_id.as_str()).is_some() {
            return Err(
                LegacyProviderError::invalid(
                    "ASTRA_FVP_MOUNT_DUPLICATE",
                    "root mount id is already registered",
                ),
            );
        }
        let ghost before = self@.cases;
        proof {
            lemma_no_mount(before, case@.mount, 0);
        }
        match self.find_case(&case.case_fingerprint) {
            Some(i) => {
                proof {
                    lemma_case_place(before, case@.fingerprint, 0);
                }
                let ghost shown = case@;
                self.cases.set(i, case);
                assert(self@.cases =~= before.update(i as int, shown));
                Err(
                    LegacyProviderError::invalid(
                        "ASTRA_FVP_CASE_DUPLICATE",
                        "case fingerprint is already registered",
                    ),
                )
            },
            None => {
                proof {
                    lemma_no_case(before, case@.fingerprint, 0);
                }
                let ghost shown = case@;
                self.cases.push(case);
                assert(self@.cases =~= before.push(shown));
                Ok(())
            },
        }
    }

    /// Whether a probe has to read its candidates: the request is within reason and
    /// no registered case answers it.
    pub fn probe_reads_files(&self, request: &LegacyProbeRequest) -> (r: bool)
        requires
            self.wf(),
        ensures
            r == (probe_budget_fits(*request) && mount_place(
                self@.cases,
                request.root_mount_id@,
                0,
            ) is None),
    {
        request.max_entries > 0 && request.max_metadata_bytes >= 64 && self.case_for_mount(
            request.root_mount_id.as_str(),
        ).is_err()
    }

    /// Recognises a game: a registered case under the mount, or the one script
    /// among the candidates that the host read.
    pub fn probe(
        &self,
        verdict: Result<(), LegacyProviderError>,
        request: &LegacyProbeRequest,
        reads: ProbeReads,
    ) -> (r: Result<LegacyProbeReport, LegacyProviderError>)
        requires
            self.wf(),
        ensures
            match verdict {
                Err(e) => r is Err && r->Err_0@ == e@,
                Ok(_) => if !probe_budget_fits(*request) {
                    r is Err && r->Err_0@ == crate::fault::fault(
                        "ASTRA_FVP_PROBE_BUDGET",
                        "probe budget is too small",
                    )
                } else {
                    match probed(self@.cases, request.root_mount_id@, reads) {
                        Ok(found) => r is Ok && r->Ok_0@ == report_of(found, request.marker_hashes@),
                        Err(f) => r is Err && r->Err_0@ == f,
                    }
                },
            },
    {
        match verdict {
            Err(e) => return Err(e),
            Ok(_) => {},
        }
        if request.max_entries == 0 || request.max_metadata_bytes < 64 {
            return Err(
                LegacyProviderError::invalid("ASTRA_FVP_PROBE_BUDGET", "probe budget is too small"),
            );
        }
        match self.find_mount(request.root_mount_id.as_str()) {
            Some(i) => {
                let image = &self.cases[i];
                assert(self@.cases[i as int] == image@);
                let copy = vstd::slice::slice_to_vec(image.script_bytes.as_slice());
                match FvpHcbScript::parse(copy, image.nls) {
                    Ok(script) => {
                        let found = Candidate {
                            script,
                            fingerprint: image.case_fingerprint,
                            nls: image.nls,
                        };
                        Ok(report(&found, &request.marker_hashes))
                    },
                    Err(e) => Err(format_error(e)),
                }
            },
            None => match reads {
                ProbeReads::Unbound => Err(
                    LegacyProviderError::invalid(
                        "ASTRA_FVP_PROBE_SOURCE",
                        "probe root mount is not registered and no host VFS is bound",
                    ),
                ),
                ProbeReads::Failed(e) => Err(e),
                ProbeReads::Read(files) => match single_script(&files) {
                    Some(found) => Ok(report(&found, &request.marker_hashes)),
                    None => Err(
                        LegacyProviderError::invalid(
                            "ASTRA_FVP_PROBE_AMBIGUOUS",
                            "host VFS must expose exactly one valid bounded FVP HCB candidate",
                        ),
                    ),
                },
            },
        }
    }

    /// The first part of opening a session: what to start.
    pub fn plan_open(
        &self,
        verdict: Result<(), LegacyProviderError>,
        ctx: &LegacyRuntimeHostCtx,
        request: &LegacyOpenRequest,
        host_bound: bool,
    ) -> (r: Result<OpenPlan, LegacyProviderError>)
        requires
            self.wf(),
            request.family_options.wf(),
        ensures
            match verdict {
                Err(e) => r is Err && r->Err_0@ == e@,
                Ok(_) => match planned(self@, ctx.mount_set_id@, *request, host_bound) {
                    Ok(plan) => r is Ok && r->Ok_0@ == plan,
                    Err(f) => r is Err && r->Err_0@ == f,
                },
            },
    {
        match verdict {
            Err(e) => return Err(e),
            Ok(_) => {},
        }
        if request.fixed_delta_ns == 0 || request.fixed_delta_ns > 1_000_000_000 {
            return Err(
                LegacyProviderError::invalid(
                    "ASTRA_FVP_FIXED_DELTA",
                    "fixed delta is outside 1ns..=1s",
                ),
            );
        }
        if self.sessions.contains(request.requested_session_id.as_str()) {
            return Err(
                LegacyProviderError::invalid(
                    "ASTRA_FVP_SESSION_DUPLICATE",
                    "session id is already active",
                ),
            );
        }
        let (stage_width, stage_height) = match options::parse_stage_dimensions(
            &request.family_options,
        ) {
            Ok(v) => v,
            Err(e) => return Err(e),
        };
        let trace_profile = match options::parse_trace_profile(&request.family_options) {
            Ok(v) => v,
            Err(e) => return Err(e),
        };
        let script_uri = match options::normalize_vfs_path(request.script_uri.as_str()) {
            Ok(v) => v,
            Err(message) => return Err(
                LegacyProviderError::invalid("ASTRA_FVP_SCRIPT_URI", message),
            ),
        };
        match self.find_case(&request.case_fingerprint) {
            Some(i) => {
                assert(self@.cases[i as int] == self.cases@[i as int]@);
                if !text::same_text(
                    self.cases[i].root_mount_id.as_str(),
                    ctx.mount_set_id.as_str(),
                ) {
                    return Err(
                        LegacyProviderError::invalid(
                            "ASTRA_FVP_MOUNT_BINDING",
                            "host mount does not match the registered case",
                        ),
                    );
                }
                Ok(
                    OpenPlan {
                        script_uri,
                        stage_width,
                        stage_height,
                        trace_profile,
                        case: Some(i),
                    },
                )
            },
            None => {
                if !host_bound {
                    return Err(
                        LegacyProviderError::invalid(
                            "ASTRA_FVP_CASE_MISSING",
                            "case is not registered and no host VFS is bound",
                        ),
                    );
                }
                Ok(OpenPlan { script_uri, stage_width, stage_height, trace_profile, case: None })
            },
        }
    }

    /// The last part of opening a session: the engine started, or failed to with
    /// the given text.
    pub fn open(
        &mut self,
        ctx: &LegacyRuntimeHostCtx,
        request: &LegacyOpenRequest,
        plan: &OpenPlan,
        runtime: Result<(), String>,
    ) -> (r: Result<String, LegacyProviderError>)
        requires
            old(self).wf(),
            request.family_options.wf(),
        ensures
            final(self).wf(),
            final(self)@.cases == old(self)@.cases,
            if old(self)@.sessions.contains_key(request.requested_session_id@) {
                &&& r is Err
                &&& r->Err_0@ == crate::fault::fault(
                    "ASTRA_FVP_SESSION_DUPLICATE",
                    "session id is already active",
                )
                &&& final(self)@ == old(self)@
            } else {
                match runtime {
                Err(text) => {
                    &&& r is Err
                    &&& r->Err_0@ == (Fault { code: "ASTRA_FVP_OPEN"@, message: text@ })
                    &&& final(self)@ == old(self)@
                },
                Ok(_) => match options::hook_timeout(request.family_options) {
                    Err(f) => r is Err && r->Err_0@ == f && final(self)@ == old(self)@,
                    Ok(timeout) => {
                        &&& r is Ok && r->Ok_0@ == request.requested_session_id@
                        &&& final(self)@.sessions.dom() == old(self)@.sessions.dom().insert(
                            r->Ok_0@,
                        )
                        &&& final(self)@.sessions[r->Ok_0@]@ == fresh_session(
                            *request,
                            ctx.case_id@,
                            plan@.stage,
                            timeout,
                        )
                        &&& final(self)@.sessions.remove(r->Ok_0@) == old(self)@.sessions
                    },
                },
                }
            },
    {
        if self.sessions.contains(request.requested_session_id.as_str()) {
            return Err(
                LegacyProviderError::invalid(
                    "ASTRA_FVP_SESSION_DUPLICATE",
                    "session id is already active",
                ),
            );
        }
        match runtime {
            Err(text) => return Err(LegacyProviderError::invalid("ASTRA_FVP_OPEN", text.as_str())),
            Ok(_) => {},
        }
        let hook_timeout_ms: u32 = match options::parse_hook_timeout(&request.family_options) {
            Ok(v) => v,
            Err(e) => return Err(e),
        };
        let session = FvpSession {
            last_step: 0,
            seed: request.session_seed,
            fixed_delta_ns: request.fixed_delta_ns,
            instruction_count: 0,
            syscall_count: 0,
            pointer: Pointer { x: 0, y: 0, in_screen: false },
            stage_width: plan.stage_width,
            stage_height: plan.stage_height,
            state_revision: 0,
            next_live_sequence: 1,
            poisoned: false,
            pending_movie: None,
            family_game_id: text::owned(ctx.case_id.as_str()),
            hook_timeout_ms,
            surface_generation: 0,
            layer_created: false,
        };
        let ghost before = self@.sessions;
        let id = request.requested_session_id.as_str();
        let _ = self.sessions.insert_new(text::owned(id), session);
        assert(self@.sessions == before.insert(id@, session));
        assert(self@.sessions.remove(id@) =~= before);
        Ok(text::owned(id))
    }

    /// The session that a step is about. A session that failed before takes none.
    pub fn session_for_step(
        &mut self,
        verdict: Result<(), LegacyProviderError>,
        host_bound: bool,
        session_id: &str,
    ) -> (r: Result<&mut FvpSession, LegacyProviderError>)
        requires
            old(self).wf(),
        ensures
            final(self).wf(),
            match verdict {
                Err(e) => r is Err && r->Err_0@ == e@ && *final(self) == *old(self),
                Ok(_) => if !host_bound {
                    &&& r is Err
                    &&& r->Err_0@ == crate::fault::fault(
                        "ASTRA_FVP_HOST_SERVICES_MISSING",
                        "Family ABI v9 host services are not bound",
                    )
                    &&& *final(self) == *old(self)
                } else if !old(self)@.sessions.contains_key(session_id@) {
                    &&& r is Err
                    &&& r->Err_0@ == crate::fault::fault(
                        "ASTRA_FVP_SESSION_MISSING",
                        "session is not active",
                    )
                    &&& *final(self) == *old(self)
                } else if old(self)@.sessions[session_id@].poisoned {
                    &&& r is Err
                    &&& r->Err_0@ == crate::fault::fault(
                        "ASTRA_FVP_SESSION_POISONED",
                        "session previously failed and must be shut down",
                    )
                    &&& final(self)@ == old(self)@
                } else {
                    &&& r matches Ok(session)
                    &&& *session == old(self)@.sessions[session_id@]
                    &&& final(self)@ == (ProviderView {
                        sessions: old(self)@.sessions.insert(session_id@, *final(session)),
                        ..old(self)@
                    })
                },
            },
    {
        match verdict {
            Err(e) => return Err(e),
            Ok(_) => {},
        }
        if !host_bound {
            return Err(
                LegacyProviderError::invalid(
                    "ASTRA_FVP_HOST_SERVICES_MISSING",
                    "Family ABI v9 host services are not bound",
                ),
            );
        }
        match self.sessions.get(session_id) {
            None => return Err(
                LegacyProviderError::invalid("ASTRA_FVP_SESSION_MISSING", "session is not active"),
            ),
            Some(session) => if session.poisoned {
                return Err(
                    LegacyProviderError::invalid(
                        "ASTRA_FVP_SESSION_POISONED",
                        "session previously failed and must be shut down",
                    ),
                );
            },
        }
        match self.sessions.get_mut(session_id) {
            Some(session) => Ok(session),
            None => Err(
                LegacyProviderError::invalid("ASTRA_FVP_SESSION_MISSING", "session is not active"),
            ),
        }
    }

    /// Ends a session. `trace` is what the engine kept, or its failure to say so;
    /// the session is gone either way.
    pub fn shutdown(
        &mut self,
        verdict: Result<(), LegacyProviderError>,
        session_id: &str,
        trace: Result<Vec<LegacyVmTraceRecord>, String>,
    ) -> (r: Result<LegacyShutdownReport, LegacyProviderError>)
        requires
            old(self).wf(),
        ensures
            final(self).wf(),
            final(self)@.cases == old(self)@.cases,
            match verdict {
                Err(e) => r is Err && r->Err_0@ == e@ && final(self)@ == old(self)@,
                Ok(_) => if !old(self)@.sessions.contains_key(session_id@) {
                    &&& r is Err
                    &&& r->Err_0@ == crate::fault::fault(
                        "ASTRA_FVP_SESSION_MISSING",
                        "session is not active",
                    )
                    &&& final(self)@ == old(self)@
                } else {
                    let session = old(self)@.sessions[session_id@];
                    &&& final(self)@.sessions == old(self)@.sessions.remove(session_id@)
                    &&& match trace {
                        Err(text) => {
                            &&& r is Err
                            &&& r->Err_0@ == (Fault {
                                code: "ASTRA_FVP_EVIDENCE_TRACE"@,
                                message: text@,
                            })
                        },
                        Ok(records) => {
                            &&& r is Ok
                            &&& r->Ok_0.final_state_revision == session.state_revision
                            &&& r->Ok_0.instruction_count == session.instruction_count
                            &&& r->Ok_0.syscall_count == session.syscall_count
                            &&& r->Ok_0.evidence_vm_trace == records
                            &&& r->Ok_0.diagnostics@.len() == 0
                        },
                    }
                },
            },
    {
        match verdict {
            Err(e) => return Err(e),
            Ok(_) => {},
        }
        let session = match self.sessions.remove(session_id) {
            Some(v) => v,
            None => return Err(
                LegacyProviderError::invalid("ASTRA_FVP_SESSION_MISSING", "session is not active"),
            ),
        };
        match trace {
            Err(text) => Err(
                LegacyProviderError::invalid("ASTRA_FVP_EVIDENCE_TRACE", text.as_str()),
            ),
            Ok(evidence_vm_trace) => Ok(
                LegacyShutdownReport {
                    final_state_revision: session.state_revision,
                    instruction_count: session.instruction_count,
                    syscall_count: session.syscall_count,
                    evidence_vm_trace,
                    diagnostics: Vec::new(),
                },
            ),
        }
    }
}

// ----------------------------------------------------------------------- laws

proof fn lemma_no_mount(cases: Seq<CaseView>, mount: Seq<char>, i: int)
    requires
        0 <= i <= cases.len(),
        mount_place(cases, mount, i) is None,
    ensures
        forall|j: int| i <= j < cases.len() ==> (#[trigger] cases[j]).mount != mount,
    decreases cases.len() - i,
{
    if i < cases.len() {
        lemma_no_mount(cases, mount, i + 1);
    }
}

proof fn lemma_no_case(cases: Seq<CaseView>, fingerprint: Seq<u8>, i: int)
    requires
        0 <= i <= cases.len(),
        case_place(cases, fingerprint, i) is None,
    ensures
        forall|j: int| i <= j < cases.len() ==> (#[trigger] cases[j]).fingerprint != fingerprint,
    decreases cases.len() - i,
{
    if i < cases.len() {
        lemma_no_case(cases, fingerprint, i + 1);
    }
}

proof fn lemma_case_place(cases: Seq<CaseView>, fingerprint: Seq<u8>, i: int)
    requires
        0 <= i <= cases.len(),
        case_place(cases, fingerprint, i) is Some,
    ensures
        i <= case_place(cases, fingerprint, i)->0 < cases.len(),
        cases[case_place(cases, fingerprint, i)->0].fingerprint == fingerprint,
    decreases cases.len() - i,
{
    if i < cases.len() && cases[i].fingerprint != fingerprint {
        lemma_case_place(cases, fingerprint, i + 1);
    }
}

proof fn lemma_mount_place(cases: Seq<CaseView>, mount: Seq<char>, i: int)
    requires
        0 <= i <= cases.len(),
        mount_place(cases, mount, i) is Some,
    ensures
        i <= mount_place(cases, mount, i)->0 < cases.len(),
        cases[mount_place(cases, mount, i)->0].mount == mount,
    decreases cases.len() - i,
{
    if i < cases.len() && cases[i].mount != mount {
        lemma_mount_place(cases, mount, i + 1);
    }
}

/// Registration keeps fingerprints and mounts apart: a mount leads to one case, and
/// so does a fingerprint.
pub proof fn law_cases_stay_distinct(cases: Seq<CaseView>, case: CaseView)
    requires
        cases_distinct(cases),
    ensures
        cases_distinct(case_registered(cases, case).0),
{
    if mount_place(cases, case.mount, 0) is None {
        lemma_no_mount(cases, case.mount, 0);
        match case_place(cases, case.fingerprint, 0) {
            Some(_) => {
                lemma_case_place(cases, case.fingerprint, 0);
            },
            None => {
                lemma_no_case(cases, case.fingerprint, 0);
            },
        }
    }
}

/// A registered case is found again under its mount and under its fingerprint.
pub proof fn law_registered_case_is_found(cases: Seq<CaseView>, case: CaseView)
    requires
        cases_distinct(cases),
        mount_place(cases, case.mount, 0) is None,
    ensures
        ({
            let after = case_registered(cases, case).0;
            &&& mount_place(after, case.mount, 0) is Some
            &&& after[mount_place(after, case.mount, 0)->0] == case
            &&& case_place(after, case.fingerprint, 0) is Some
            &&& after[case_place(after, case.fingerprint, 0)->0] == case
        }),
{
    let after = case_registered(cases, case).0;
    law_cases_stay_distinct(cases, case);
    lemma_no_mount(cases, case.mount, 0);
    let at = match case_place(cases, case.fingerprint, 0) {
        Some(i) => i,
        None => cases.len() as int,
    };
    if case_place(cases, case.fingerprint, 0) is Some {
        lemma_case_place(cases, case.fingerprint, 0);
    }
    assert(after[at] == case);
    if mount_place(after, case.mount, 0) is None {
        lemma_no_mount(after, case.mount, 0);
    } else {
        lemma_mount_place(after, case.mount, 0);
    }
    if case_place(after, case.fingerprint, 0) is None {
        lemma_no_case(after, case.fingerprint, 0);
    } else {
        lemma_case_place(after, case.fingerprint, 0);
    }
}

/// A script is looked for under the markers of a probe; without markers every script is
/// meant. One that is meant is certain, and reported with its mode, with the width and the
/// height of its stage and with its encoding; one that is not has no certainty and no marker.
/// The report names the script by its digest.
pub proof fn law_report_describes_the_script(found: FoundScript, markers: Seq<Hash256>)
    ensures
        ({
            let report = report_of(found, markers);
            let meant = markers.len() == 0 || exists|i: int|
                0 <= i < markers.len() && (#[trigger] markers[i])@ == found.fingerprint;
            let encoding = match found.nls {
                FvpNls::ShiftJis => "shift_jis"@,
                FvpNls::Gbk => "gbk"@,
                FvpNls::Utf8 => "utf8"@,
            };
            &&& report.content_identity == found.fingerprint
            &&& report.blockers.len() == 0
            &&& meant ==> {
                &&& report.confidence_permyriad == 10_000
                &&& report.markers.len() == 5
                &&& report.markers[0] == "fvp.hcb.descriptor"@
                &&& report.markers[1] == "fvp.game_mode."@ + text::decimal(
                    found.header.game_mode as nat,
                )
                &&& report.markers[2] == "fvp.stage_width."@ + text::decimal(
                    found.header.width as nat,
                )
                &&& report.markers[3] == "fvp.stage_height."@ + text::decimal(
                    found.header.height as nat,
                )
                &&& report.markers[4] == "fvp.nls."@ + encoding
            }
            &&& !meant ==> report.confidence_permyriad == 0 && report.markers.len() == 0
        }),
{
    let views = hash_views(markers);
    if exists|i: int| 0 <= i < markers.len() && (#[trigger] markers[i])@ == found.fingerprint {
        let i = choose|i: int|
            0 <= i < markers.len() && (#[trigger] markers[i])@ == found.fingerprint;
        assert(views[i] == found.fingerprint);
    }
    if views.contains(found.fingerprint) {
        let i = choose|i: int| 0 <= i < views.len() && views[i] == found.fingerprint;
        assert(markers[i]@ == found.fingerprint);
    }
}

/// The name of an encoding in a report is the name under which options ask for it.
pub proof fn law_encoding_names_are_read_back(nls: FvpNls, options: crate::names::NameMap<String>)
    requires
        options@.contains_key("fvp.nls"@),
        options@["fvp.nls"@]@ == nls_name(nls),
    ensures
        options::declared_nls(options) == Ok::<FvpNls, Fault>(nls),
{
    options::law_encoding_is_the_named_one(options);
}

/// An encoding is detected if and only if the bytes are a script in one, and then they are a
/// script in the detected one; Shift_JIS goes before the others and UTF-8 behind them.
pub proof fn law_detected_encoding_fits(bytes: Seq<u8>)
    ensures
        detected_nls(bytes) matches Some(nls) ==> crate::hcb::header_of(bytes, nls) is Ok,
        detected_nls(bytes) is None ==> forall|nls: FvpNls| #[trigger]
            crate::hcb::header_of(bytes, nls) is Err,
        crate::hcb::header_of(bytes, FvpNls::ShiftJis) is Ok ==> detected_nls(bytes) == Some(
            FvpNls::ShiftJis,
        ),
        detected_nls(bytes) == Some(FvpNls::Utf8) ==> crate::hcb::header_of(
            bytes,
            FvpNls::Gbk,
        ) is Err,
{
    if detected_nls(bytes) is None {
        assert forall|nls: FvpNls| #[trigger] crate::hcb::header_of(bytes, nls) is Err by {
            match nls {
                FvpNls::ShiftJis => {},
                FvpNls::Gbk => {},
                FvpNls::Utf8 => {},
            }
        }
    }
}

proof fn lemma_no_scripts(files: Seq<Vec<u8>>, i: int)
    requires
        0 <= i <= files.len(),
        forall|j: int| i <= j < files.len() ==> detected_nls((#[trigger] files[j])@) is None,
    ensures
        found_scripts(files, i).len() == 0,
    decreases files.len() - i,
{
    if i < files.len() {
        assert(detected_nls(files[i]@) is None);
        lemma_no_scripts(files, i + 1);
    }
}

proof fn lemma_first_script(files: Seq<Vec<u8>>, i: int, k: int)
    requires
        0 <= i <= k < files.len(),
        forall|j: int| i <= j < k ==> detected_nls((#[trigger] files[j])@) is None,
    ensures
        found_scripts(files, i) == found_scripts(files, k),
    decreases k - i,
{
    if i < k {
        assert(detected_nls(files[i]@) is None);
        lemma_first_script(files, i + 1, k);
    }
}

/// A probe of a mount that is not registered finds the script among the files if there is
/// exactly one: the encoding that it is written in, its header and its digest. With none or
/// several it finds nothing.
pub proof fn law_probe_finds_the_only_script(
    cases: Seq<CaseView>,
    mount: Seq<char>,
    files: Vec<Vec<u8>>,
    k: int,
    l: int,
)
    requires
        mount_place(cases, mount, 0) is None,
        0 <= k <= l < files@.len(),
        detected_nls(files@[k]@) is Some,
        detected_nls(files@[l]@) is Some,
        forall|j: int|
            0 <= j < files@.len() && j != k && !(k < l && j >= l) ==> detected_nls((#[trigger] files@[j])@) is None,
    ensures
        ({
            let found = probed(cases, mount, ProbeReads::Read(files));
            &&& k == l ==> {
                &&& found matches Ok(script) && Some(script.nls) == detected_nls(files@[k]@)
                    && script.fingerprint == crate::digest::sha256_of(files@[k]@)
                    && crate::hcb::header_of(files@[k]@, script.nls) == Ok::<HeaderView, Fault>(
                    script.header,
                )
            }
            &&& k < l ==> found is Err
        }),
{
    lemma_first_script(files@, 0, k);
    let first = found_scripts(files@, k);
    let rest = found_scripts(files@, k + 1);
    if k == l {
        lemma_no_scripts(files@, k + 1);
        assert(first.len() == 1);
    } else {
        lemma_first_script(files@, k + 1, l);
        assert(rest.len() >= 1);
        assert(first.len() >= 2);
    }
}

/// A probe without a script finds nothing, and neither does one without files; one that could
/// not read says why.
pub proof fn law_probe_without_script_fails(
    cases: Seq<CaseView>,
    mount: Seq<char>,
    files: Vec<Vec<u8>>,
    why: LegacyProviderError,
)
    requires
        mount_place(cases, mount, 0) is None,
        forall|j: int| 0 <= j < files@.len() ==> detected_nls((#[trigger] files@[j])@) is None,
    ensures
        probed(cases, mount, ProbeReads::Read(files)) matches Err(f) && f.code
            == "ASTRA_FVP_PROBE_AMBIGUOUS"@,
        probed(cases, mount, ProbeReads::Failed(why)) == Err::<FoundScript, Fault>(why@),
        probed(cases, mount, ProbeReads::Unbound) matches Err(f) && f.code
            == "ASTRA_FVP_PROBE_SOURCE"@,
{
    lemma_no_scripts(files@, 0);
}

/// A probe of a registered mount describes the registered script and reads nothing.
pub proof fn law_probe_of_a_registered_mount(
    cases: Seq<CaseView>,
    i: int,
    a: ProbeReads,
    b: ProbeReads,
)
    requires
        cases_distinct(cases),
        0 <= i < cases.len(),
        crate::hcb::header_of(cases[i].script, cases[i].nls) is Ok,
    ensures
        ({
            let found = probed(cases, cases[i].mount, a);
            &&& found == probed(cases, cases[i].mount, b)
            &&& found is Ok
            &&& found->Ok_0.fingerprint == cases[i].fingerprint
            &&& found->Ok_0.nls == cases[i].nls
            &&& found->Ok_0.header == crate::hcb::header_of(cases[i].script, cases[i].nls)->Ok_0
        }),
{
    if mount_place(cases, cases[i].mount, 0) is None {
        lemma_no_mount(cases, cases[i].mount, 0);
    } else {
        lemma_mount_place(cases, cases[i].mount, 0);
    }
}

/// Of the first candidates, as many as allowed, a probe reads those that end in `.hcb` in any
/// case of letters, in order.
pub proof fn law_probe_reads_scripts_only(uris: Seq<String>, max: int, i: int)
    requires
        0 <= i <= uris.len(),
    ensures
        ({
            let read = script_candidates(uris, max, i);
            &&& forall|k: int|
                i <= k < uris.len() && k < max && text::has_suffix(
                    text::lower((#[trigger] uris[k])@),
                    ".hcb"@,
                ) ==> read.contains(uris[k]@)
            &&& forall|n: int|
                0 <= n < read.len() ==> text::has_suffix(text::lower(#[trigger] read[n]), ".hcb"@)
                    && exists|k: int|
                    i <= k < uris.len() && k < max && (#[trigger] uris[k])@ == read[n]
            &&& i < max ==> read.len() <= max - i
        }),
    decreases uris.len() - i,
{
    if i < uris.len() && i < max {
        law_probe_reads_scripts_only(uris, max, i + 1);
        let read = script_candidates(uris, max, i);
        let rest = script_candidates(uris, max, i + 1);
        let shift: int = if text::has_suffix(text::lower(uris[i]@), ".hcb"@) {
            1
        } else {
            0
        };
        assert(forall|n: int| 0 <= n < rest.len() ==> read[n + shift] == rest[n]);
        assert(shift == 1 ==> read[0] == uris[i]@);
        assert forall|k: int|
            i <= k < uris.len() && k < max && text::has_suffix(
                text::lower((#[trigger] uris[k])@),
                ".hcb"@,
            ) implies read.contains(uris[k]@) by {
            if k > i {
                assert(rest.contains(uris[k]@));
                let n = choose|n: int| 0 <= n < rest.len() && rest[n] == uris[k]@;
                assert(read[n + shift] == uris[k]@);
            }
        }
        assert forall|n: int| 0 <= n < read.len() implies text::has_suffix(
            text::lower(#[trigger] read[n]),
            ".hcb"@,
        ) && exists|k: int| i <= k < uris.len() && k < max && (#[trigger] uris[k])@ == read[n] by {
            if n >= shift {
                assert(read[n] == rest[n - shift]);
                let k = choose|k: int|
                    i + 1 <= k < uris.len() && k < max && (#[trigger] uris[k])@ == rest[n - shift];
                assert(uris[k]@ == read[n]);
            } else {
                assert(uris[i]@ == read[n]);
            }
        }
    }
}

/// Whether the case at place `i` has the fingerprint.
pub open spec fn is_case(cases: Seq<CaseView>, fingerprint: Seq<u8>, i: int) -> bool {
    0 <= i < cases.len() && cases[i].fingerprint == fingerprint
}

/// A request is planned if and only if its steps last between a nanosecond and a second, its
/// session is new, its options and its path are sound, and its case is registered under the
/// mount or else the host is there to read it. The plan is what the request asks for.
pub proof fn law_open_is_planned_as_asked(
    provider: ProviderView,
    mount: Seq<char>,
    request: LegacyOpenRequest,
    host_bound: bool,
)
    requires
        cases_distinct(provider.cases),
    ensures
        ({
            let plan = planned(provider, mount, request, host_bound);
            let cases = provider.cases;
            let wanted = request.case_fingerprint@;
            plan is Ok <==> {
                &&& 1 <= request.fixed_delta_ns <= 1_000_000_000
                &&& !provider.sessions.contains_key(request.requested_session_id@)
                &&& options::stage_of(request.family_options) is Ok
                &&& options::declared_profile(request.family_options) is Ok
                &&& options::case_path(request.script_uri@) is Some
                &&& {
                    ||| exists|i: int| #[trigger] is_case(cases, wanted, i) && cases[i].mount == mount
                    ||| host_bound && forall|i: int| !#[trigger] is_case(cases, wanted, i)
                }
            }
        }),
        ({
            let plan = planned(provider, mount, request, host_bound);
            let cases = provider.cases;
            let wanted = request.case_fingerprint@;
            plan matches Ok(p) ==> {
                &&& Some(p.script_uri) == options::case_path(request.script_uri@)
                &&& Ok::<(u32, u32), Fault>(p.stage) == options::stage_of(request.family_options)
                &&& Ok::<HostedTraceProfile, Fault>(p.trace_profile) == options::declared_profile(
                    request.family_options,
                )
                &&& p.case matches Some(i) ==> is_case(cases, wanted, i) && cases[i].mount == mount
                &&& p.case is None ==> forall|i: int| !#[trigger] is_case(cases, wanted, i)
            }
        }),
{
    let cases = provider.cases;
    let wanted = request.case_fingerprint@;
    match case_place(cases, wanted, 0) {
        Some(i) => {
            lemma_case_place(cases, wanted, 0);
            assert(is_case(cases, wanted, i));
            assert forall|j: int| #[trigger] is_case(cases, wanted, j) implies j == i by {
                if j < i {
                    assert(cases[j].fingerprint != cases[i].fingerprint);
                } else if i < j {
                    assert(cases[i].fingerprint != cases[j].fingerprint);
                }
            }
        },
        None => {
            lemma_no_case(cases, wanted, 0);
            assert forall|i: int| !#[trigger] is_case(cases, wanted, i) by {}
        },
    }
}

/// A new session has the seed, the length of steps, the stage and the timeout that were asked
/// for, belongs to its case, and has done nothing.
pub proof fn law_new_session_has_done_nothing(
    request: LegacyOpenRequest,
    case_id: Seq<char>,
    width: u32,
    height: u32,
    timeout: u32,
)
    ensures
        ({
            let session = fresh_session(request, case_id, (width, height), timeout);
            &&& session.seed == request.session_seed
            &&& session.fixed_delta_ns == request.fixed_delta_ns
            &&& session.stage_width == width
            &&& session.stage_height == height
            &&& session.hook_timeout_ms == timeout
            &&& session.family_game_id == case_id
            &&& session.last_step == 0
            &&& session.state_revision == 0
            &&& session.surface_generation == 0
            &&& session.next_live_sequence == 1
            &&& session.instruction_count == 0
            &&& session.syscall_count == 0
            &&& session.pointer.x == 0 && session.pointer.y == 0 && !session.pointer.in_screen
            &&& !session.poisoned
            &&& !session.layer_created
            &&& session.pending_movie is None
        }),
{
}

/// A case keeps its files under their normal paths: each of them, none too long, never two
/// under one path, and no others.
pub proof fn law_case_files_are_kept_under_their_paths(
    names: Seq<String>,
    values: Seq<Vec<u8>>,
    i: int,
    done: Map<Seq<char>, Seq<u8>>,
)
    requires
        0 <= i <= names.len() == values.len(),
        normal_files(names, values, i, done) is Ok,
    ensures
        ({
            let all = normal_files(names, values, i, done)->Ok_0;
            &&& forall|k: int|
                i <= k < names.len() ==> options::case_path((#[trigger] names[k])@) is Some
                    && !done.contains_key(options::case_path(names[k]@)->0) && all.contains_key(
                    options::case_path(names[k]@)->0,
                ) && all[options::case_path(names[k]@)->0] == values[k]@ && values[k]@.len()
                    <= 0x2000_0000
            &&& forall|path: Seq<char>| #[trigger]
                done.contains_key(path) ==> all.contains_key(path) && all[path] == done[path]
            &&& forall|path: Seq<char>| #[trigger]
                all.contains_key(path) ==> done.contains_key(path) || exists|k: int|
                    i <= k < names.len() && options::case_path((#[trigger] names[k])@) == Some(path)
        }),
    decreases names.len() - i,
{
    if i < names.len() {
        let path = options::case_path(names[i]@)->0;
        let more = done.insert(path, values[i]@);
        law_case_files_are_kept_under_their_paths(names, values, i + 1, more);
        let all = normal_files(names, values, i, done)->Ok_0;
        assert(more.contains_key(path));
        assert forall|k: int| i <= k < names.len() implies options::case_path(
            (#[trigger] names[k])@,
        ) is Some && !done.contains_key(options::case_path(names[k]@)->0) && all.contains_key(
            options::case_path(names[k]@)->0,
        ) && all[options::case_path(names[k]@)->0] == values[k]@ && values[k]@.len()
            <= 0x2000_0000 by {
            if k > i {
                assert(!more.contains_key(options::case_path(names[k]@)->0));
            }
        }
        assert forall|other: Seq<char>| #[trigger] done.contains_key(other) implies all.contains_key(
            other,
        ) && all[other] == done[other] by {
            assert(more.contains_key(other));
        }
        assert forall|other: Seq<char>| #[trigger] all.contains_key(other) implies done.contains_key(
            other,
        ) || exists|k: int|
            i <= k < names.len() && options::case_path((#[trigger] names[k])@) == Some(other) by {
            if other == path {
                assert(options::case_path(names[i]@) == Some(other));
            }
        }
    }
}

/// A case is admitted if and only if its script is one in its encoding, is named by its
/// digest and is not too long, and its files are not too many and can all be kept. It is then
/// the case of the image, with its files under their normal paths.
pub proof fn law_admitted_case_is_the_image(image: FvpCaseImage)
    ensures
        ({
            let case = admitted_case(image);
            let files = normal_files(image.files.names@, image.files.values@, 0, Map::empty());
            &&& case is Ok <==> {
                &&& image.script_bytes@.len() <= 0x2000_0000
                &&& crate::hcb::header_of(image.script_bytes@, image.nls) is Ok
                &&& image.case_fingerprint@ == crate::digest::sha256_of(image.script_bytes@)
                &&& image.files.names@.len() <= 65_536
                &&& files is Ok
            }
            &&& case matches Ok(c) ==> {
                &&& c.fingerprint == image.case_fingerprint@
                &&& c.mount == image.root_mount_id@
                &&& c.script == image.script_bytes@
                &&& c.nls == image.nls
                &&& c.files == files->Ok_0
            }
        }),
{
}

/// A game is read through the host if and only if the script is the one that was asked for and
/// the options name an encoding and archives; those are then its own.
pub proof fn law_host_case_is_the_asked_one(request: LegacyOpenRequest, script: Seq<u8>)
    ensures
        ({
            let case = host_case(request, script);
            let nls = options::declared_nls(request.family_options);
            let packs = options::declared_packs(request.family_options);
            &&& case is Ok <==> crate::digest::sha256_of(script) == request.case_fingerprint@
                && nls is Ok && packs is Ok
            &&& case matches Ok((n, p)) ==> n == nls->Ok_0 && p == packs->Ok_0
        }),
{
}

/// A probe needs room for at least one candidate and for at least 64 bytes of it.
pub proof fn law_probe_needs_a_budget(request: LegacyProbeRequest)
    ensures
        probe_budget_fits(request) <==> request.max_entries >= 1 && request.max_metadata_bytes >= 64,
{
}

/// Why a request is refused: the length of its steps, a session that is active, its stage, its
/// trace, its path, a mount that is not that of the case, or a case that nobody has.
pub proof fn law_refused_requests_are_told_apart(
    provider: ProviderView,
    mount: Seq<char>,
    request: LegacyOpenRequest,
    host_bound: bool,
    i: int,
)
    requires
        cases_distinct(provider.cases),
    ensures
        ({
            let told = planned(provider, mount, request, host_bound);
            let timed = 1 <= request.fixed_delta_ns <= 1_000_000_000;
            let fresh = !provider.sessions.contains_key(request.requested_session_id@);
            let sound = options::stage_of(request.family_options) is Ok && options::declared_profile(
                request.family_options,
            ) is Ok;
            let path = options::case_path(request.script_uri@);
            &&& !timed ==> (told matches Err(f) && f.code == "ASTRA_FVP_FIXED_DELTA"@)
            &&& timed && !fresh ==> (told matches Err(f) && f.code == "ASTRA_FVP_SESSION_DUPLICATE"@)
            &&& timed && fresh ==> (options::stage_of(request.family_options) matches Err(f)
                ==> told == Err::<OpenView, Fault>(f))
            &&& timed && fresh && sound && path is None ==> (told matches Err(f) && f.code
                == "ASTRA_FVP_SCRIPT_URI"@)
            &&& timed && fresh && sound && path is Some && is_case(
                provider.cases,
                request.case_fingerprint@,
                i,
            ) && provider.cases[i].mount != mount ==> (told matches Err(f) && f.code
                == "ASTRA_FVP_MOUNT_BINDING"@)
            &&& timed && fresh && sound && path is Some && !host_bound && case_place(
                provider.cases,
                request.case_fingerprint@,
                0,
            ) is None ==> (told matches Err(f) && f.code == "ASTRA_FVP_CASE_MISSING"@)
        }),
{
    let cases = provider.cases;
    let wanted = request.case_fingerprint@;
    if is_case(cases, wanted, i) {
        if case_place(cases, wanted, 0) is None {
            lemma_no_case(cases, wanted, 0);
        } else {
            lemma_case_place(cases, wanted, 0);
            let k = case_place(cases, wanted, 0)->0;
            if k < i {
                assert(cases[k].fingerprint != cases[i].fingerprint);
            } else if i < k {
                assert(cases[i].fingerprint != cases[k].fingerprint);
            }
        }
    }
}

/// Why a case is not registered: its script is too long or none, is not the one that it is
/// named by, its files are too many, or its mount or its fingerprint is taken. A mount that is
/// taken changes nothing.
pub proof fn law_refused_cases_are_told_apart(image: FvpCaseImage, cases: Seq<CaseView>, case: CaseView, i: int)
    requires
        cases_distinct(cases),
    ensures
        ({
            let told = admitted_case(image);
            let header = crate::hcb::header_of(image.script_bytes@, image.nls);
            let short = image.script_bytes@.len() <= 0x2000_0000;
            let named = image.case_fingerprint@ == crate::digest::sha256_of(image.script_bytes@);
            &&& !short ==> (told matches Err(f) && f.code == "ASTRA_FVP_SCRIPT_BOUNDS"@)
            &&& short ==> (header matches Err(why) ==> (told matches Err(f) && f.code == why.code
                && f.message == why.code + ": "@ + why.message))
            &&& short && header is Ok && !named ==> (told matches Err(f) && f.code
                == "ASTRA_FVP_CASE_FINGERPRINT"@)
            &&& short && header is Ok && named && image.files.names@.len() > 65_536 ==> (
            told matches Err(f) && f.code == "ASTRA_FVP_VFS_ENTRY_BOUNDS"@)
        }),
        ({
            let (after, why) = case_registered(cases, case);
            &&& 0 <= i < cases.len() && cases[i].mount == case.mount ==> after == cases && (
            why matches Some(f) && f.code == "ASTRA_FVP_MOUNT_DUPLICATE"@)
            &&& mount_place(cases, case.mount, 0) is None && is_case(cases, case.fingerprint, i)
                ==> after == cases.update(i, case) && (why matches Some(f) && f.code
                == "ASTRA_FVP_CASE_DUPLICATE"@)
            &&& mount_place(cases, case.mount, 0) is None && case_place(
                cases,
                case.fingerprint,
                0,
            ) is None ==> after == cases.push(case) && why is None
        }),
{
    if 0 <= i < cases.len() && cases[i].mount == case.mount {
        if mount_place(cases, case.mount, 0) is None {
            lemma_no_mount(cases, case.mount, 0);
        }
    }
    if is_case(cases, case.fingerprint, i) {
        if case_place(cases, case.fingerprint, 0) is None {
            lemma_no_case(cases, case.fingerprint, 0);
        } else {
            lemma_case_place(cases, case.fingerprint, 0);
            let k = case_place(cases, case.fingerprint, 0)->0;
            if k < i {
                assert(cases[k].fingerprint != cases[i].fingerprint);
            } else if i < k {
                assert(cases[i].fingerprint != cases[k].fingerprint);
            }
        }
    }
}

}
