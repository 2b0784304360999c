use rfvp_hosted_provider::digest::Hash256;
use rfvp_hosted_provider::engine_core::{
    BootEvidence, EngineReply, FatalErrorCode, FontReply, RfvpCoreRunState, ScriptFacts,
};
use rfvp_hosted_provider::family::{
    LegacyOpenRequest, LegacyProbeRequest, LegacyRuntimeHostCtx, LegacyVmTraceRecord,
};
use rfvp_hosted_provider::fault::LegacyProviderError;
use rfvp_hosted_provider::host_api::{RfvpError, RfvpFileInfo};
use rfvp_hosted_provider::names::NameMap;
use rfvp_hosted_provider::nls::FvpNls;
use rfvp_hosted_provider::options::{
    admit_pack_paths, normalize_vfs_path, parse_hook_timeout, parse_nls_option, parse_pack_paths_option,
    parse_stage_dimensions, parse_trace_profile,
};
use rfvp_hosted_provider::provider::{
    admit_host_case, probe_candidates, probe_read_limit, FvpCaseImage, FvpRuntimeProvider,
    LegacyFamilyCoreKind, LegacyFamilyPresentationMode, ProbeReads,
};
use rfvp_hosted_provider::registry::ProviderRegistry;
use rfvp_hosted_provider::runtime::{
    map_start_error, normalize_script_uri, HostedRuntimeError, HostedState, HostedVfsSessionConfig,
    HostedWorkerError, HostedWorkerStartError,
};
use rfvp_hosted_provider::session::{BootPorts, HostedStepInput, HostedTraceProfile};
use rfvp_hosted_provider::{FVP_FAMILY_ID, FVP_PROVIDER_ID};

fn script(tag: u8) -> Vec<u8> {
    let mut bytes = 16u32.to_le_bytes().to_vec();
    bytes.resize(15, 0);
    bytes.push(tag);
    bytes.extend_from_slice(&4u32.to_le_bytes());
    bytes.extend_from_slice(&1u16.to_le_bytes());
    bytes.extend_from_slice(&2u16.to_le_bytes());
    bytes.extend_from_slice(&[8, 0, 2, b'X', 0]);
    bytes.extend_from_slice(&0u16.to_le_bytes());
    bytes.extend_from_slice(&0u16.to_le_bytes());
    bytes
}

fn names(pairs: &[(&str, &str)]) -> NameMap<String> {
    let mut map = NameMap::new();
    for (name, value) in pairs {
        assert!(map.insert_new(name.to_string(), value.to_string()));
    }
    map
}

fn image(tag: u8, mount: &str) -> FvpCaseImage {
    let script_bytes = script(tag);
    FvpCaseImage {
        case_fingerprint: Hash256::from_sha256(&script_bytes),
        root_mount_id: mount.to_string(),
        script_bytes,
        nls: FvpNls::Utf8,
        files: NameMap::new(),
    }
}

fn ctx(mount: &str) -> LegacyRuntimeHostCtx {
    LegacyRuntimeHostCtx { mount_set_id: mount.to_string(), case_id: "game".to_string() }
}

fn open_request(tag: u8, session: &str) -> LegacyOpenRequest {
    LegacyOpenRequest {
        requested_session_id: session.to_string(),
        compatibility_profile: "default".to_string(),
        case_fingerprint: Hash256::from_sha256(&script(tag)),
        script_uri: "Game.HCB".to_string(),
        session_seed: 5,
        fixed_delta_ns: 16_666_667,
        family_options: NameMap::new(),
    }
}

fn probe_request(mount: &str) -> LegacyProbeRequest {
    LegacyProbeRequest {
        root_mount_id: mount.to_string(),
        candidate_uris: vec!["readme.txt".into(), "GAME.HCB".into(), "b.hcb".into()],
        marker_hashes: Vec::new(),
        max_entries: 2,
        max_metadata_bytes: 4096,
    }
}

fn refusal() -> LegacyProviderError {
    LegacyProviderError::invalid("REFUSED", "no")
}

#[test]
fn case_paths_are_normalized() {
    assert_eq!(normalize_vfs_path("BG\\Scene.HZC").unwrap(), "bg/scene.hzc");
    for bad in ["", "/a", "a//b", "a/../b", "./a", "c:/a"] {
        assert_eq!(normalize_vfs_path(bad), Err("RFVP_VFS_PATH_TRAVERSAL"), "{bad}");
    }
    assert!(normalize_vfs_path(&"a".repeat(4096)).is_ok());
    assert!(normalize_vfs_path(&"a".repeat(4097)).is_err());
    assert!(normalize_vfs_path(&"\u{3042}".repeat(1366)).is_err());
}

#[test]
fn options_have_defaults_and_bounds() {
    let none = NameMap::new();
    assert_eq!(parse_nls_option(&none).unwrap_err().code(), "ASTRA_FVP_NLS");
    assert_eq!(parse_nls_option(&names(&[("fvp.nls", "gbk")])).unwrap(), FvpNls::Gbk);
    assert!(parse_nls_option(&names(&[("fvp.nls", "GBK")])).is_err());
    assert_eq!(parse_hook_timeout(&none).unwrap(), 2_000);
    assert_eq!(
        parse_hook_timeout(&names(&[("astra.translation.timeout_ms", "+15")])).unwrap(),
        15
    );
    assert_eq!(
        parse_hook_timeout(&names(&[("astra.translation.timeout_ms", "4294967296")]))
            .unwrap_err()
            .code(),
        "ASTRA_FVP_HOOK_TIMEOUT"
    );
    assert_eq!(parse_stage_dimensions(&none).unwrap(), (1024, 768));
    assert_eq!(
        parse_stage_dimensions(&names(&[("fvp.stage_height", "240"), ("fvp.stage_width", "320")]))
            .unwrap(),
        (320, 240)
    );
    assert!(parse_stage_dimensions(&names(&[("fvp.stage_width", "319")])).is_err());
    assert!(parse_stage_dimensions(&names(&[("fvp.stage_width", "x")])).is_err());
    assert_eq!(parse_trace_profile(&none).unwrap(), HostedTraceProfile::Shipping);
    assert_eq!(
        parse_trace_profile(&names(&[("astra.hosted_trace_profile", "evidence")])).unwrap(),
        HostedTraceProfile::Evidence { crash_trace_capacity: 256 }
    );
    assert!(parse_trace_profile(&names(&[("astra.hosted_trace_profile", "all")])).is_err());
}

#[test]
fn pack_paths_are_a_list_of_strings() {
    let parse = |text: &str| parse_pack_paths_option(&names(&[("fvp.pack_paths", text)]));
    assert_eq!(
        parse("[\"Voice.BIN\", \"data\\\\bg.bin\"]").unwrap(),
        ["data/bg.bin", "voice.bin"]
    );
    assert!(parse("[]").unwrap().is_empty());
    for bad in ["", "{}", "[1]", "[\"a.zip\"]", "[\"a.bin\", \"A.bin\"]", "[\"../a.bin\"]"] {
        assert_eq!(parse(bad).unwrap_err().code(), "ASTRA_FVP_PACK_PATHS", "{bad}");
    }
    assert!(parse_pack_paths_option(&NameMap::new()).is_err());
    assert!(admit_pack_paths(None).is_err());
    assert_eq!(admit_pack_paths(Some(vec!["B.bin".into(), "a.bin".into()])).unwrap(), ["a.bin", "b.bin"]);
}

#[test]
fn cases_are_registered_once() {
    let mut provider = FvpRuntimeProvider::new();
    assert!(provider.register_case(image(1, "m1"), Ok(())).is_ok());
    let code = |provider: &mut FvpRuntimeProvider, image: FvpCaseImage| {
        provider.register_case(image, Ok(())).unwrap_err().code().to_string()
    };
    assert_eq!(code(&mut provider, image(2, "m1")), "ASTRA_FVP_MOUNT_DUPLICATE");
    assert_eq!(code(&mut provider, image(1, "m2")), "ASTRA_FVP_CASE_DUPLICATE");
    let forged = FvpCaseImage { case_fingerprint: Hash256::zero(), ..image(3, "m3") };
    assert_eq!(code(&mut provider, forged), "ASTRA_FVP_CASE_FINGERPRINT");
    let torn = FvpCaseImage { script_bytes: vec![1], ..image(4, "m4") };
    assert_eq!(code(&mut provider, torn), "FVP_HCB_HEADER");
    let mut files = NameMap::new();
    files.insert_new("A.txt".to_string(), vec![1]);
    files.insert_new("a.txt".to_string(), vec![2]);
    assert_eq!(
        code(&mut provider, FvpCaseImage { files, ..image(5, "m5") }),
        "ASTRA_FVP_VFS_DUPLICATE"
    );
    let mut files = NameMap::new();
    files.insert_new("../a".to_string(), vec![1]);
    assert_eq!(
        code(&mut provider, FvpCaseImage { files, ..image(6, "m6") }),
        "ASTRA_FVP_VFS_PATH"
    );
    assert_eq!(
        provider.register_case(image(7, "m7"), Err(refusal())).unwrap_err().code(),
        "REFUSED"
    );
    let mut files = NameMap::new();
    files.insert_new("BG\\A.txt".to_string(), vec![1]);
    provider.register_case(FvpCaseImage { files, ..image(8, "m8") }, Ok(())).unwrap();
    let case = provider.case_for_mount("m8").unwrap();
    assert_eq!(case.files.get("bg/a.txt"), Some(&vec![1]));
    assert_eq!(provider.case_for_mount("m9").unwrap_err().code(), "ASTRA_FVP_PROBE_SOURCE");
}

#[test]
fn probes_report_the_script_header() {
    let mut provider = FvpRuntimeProvider::new();
    provider.register_case(image(1, "m1"), Ok(())).unwrap();
    assert!(!provider.probe_reads_files(&probe_request("m1")));
    let report = provider.probe(Ok(()), &probe_request("m1"), ProbeReads::Unbound).unwrap();
    assert_eq!(report.family_id, FVP_FAMILY_ID);
    assert_eq!(report.confidence_permyriad, 10_000);
    assert_eq!(
        report.markers,
        [
            "fvp.hcb.descriptor",
            "fvp.game_mode.8",
            "fvp.stage_width.1280",
            "fvp.stage_height.720",
            "fvp.nls.utf8"
        ]
    );
    assert_eq!(report.content_identity.to_hex(), Hash256::from_sha256(&script(1)).to_hex());
    let other = LegacyProbeRequest { marker_hashes: vec![Hash256::zero()], ..probe_request("m1") };
    let report = provider.probe(Ok(()), &other, ProbeReads::Unbound).unwrap();
    assert_eq!((report.confidence_permyriad, report.markers.len()), (0, 0));
}

#[test]
fn probes_read_candidates_through_the_host() {
    let provider = FvpRuntimeProvider::new();
    let request = probe_request("m1");
    assert_eq!(probe_candidates(&request), ["GAME.HCB"]);
    assert_eq!(probe_read_limit(&request), 4096);
    assert!(provider.probe_reads_files(&request));
    let code = |reads: ProbeReads| {
        provider.probe(Ok(()), &request, reads).unwrap_err().code().to_string()
    };
    assert_eq!(code(ProbeReads::Unbound), "ASTRA_FVP_PROBE_SOURCE");
    assert_eq!(code(ProbeReads::Failed(refusal())), "REFUSED");
    assert_eq!(code(ProbeReads::Read(vec![vec![1]])), "ASTRA_FVP_PROBE_AMBIGUOUS");
    assert_eq!(code(ProbeReads::Read(vec![script(1), script(2)])), "ASTRA_FVP_PROBE_AMBIGUOUS");
    let report = provider.probe(Ok(()), &request, ProbeReads::Read(vec![script(1)])).unwrap();
    assert_eq!(report.markers[4], "fvp.nls.shift_jis");
    let small = LegacyProbeRequest { max_metadata_bytes: 63, ..probe_request("m1") };
    assert!(!provider.probe_reads_files(&small));
    assert_eq!(
        provider.probe(Ok(()), &small, ProbeReads::Unbound).unwrap_err().code(),
        "ASTRA_FVP_PROBE_BUDGET"
    );
}

#[test]
fn sessions_open_on_a_registered_case() {
    let mut provider = FvpRuntimeProvider::new();
    provider.register_case(image(1, "m1"), Ok(())).unwrap();
    let request = open_request(1, "s1");
    let plan = provider.plan_open(Ok(()), &ctx("m1"), &request, false).unwrap();
    assert_eq!(plan.script_uri, "game.hcb");
    assert_eq!((plan.stage_width, plan.stage_height), (1024, 768));
    assert_eq!(plan.case, Some(0));
    assert_eq!(
        provider
            .open(&ctx("m1"), &request, &plan, Err("no font".to_string()))
            .unwrap_err()
            .code(),
        "ASTRA_FVP_OPEN"
    );
    assert!(!provider.has_active_sessions());
    assert_eq!(provider.open(&ctx("m1"), &request, &plan, Ok(())).unwrap(), "s1");
    assert!(provider.has_active_sessions());
    let session = provider.session_for_step(Ok(()), true, "s1").unwrap();
    assert_eq!((session.seed, session.last_step, session.next_live_sequence), (5, 0, 1));
    assert_eq!(session.family_game_id, "game");
    session.poisoned = true;
    let code = |provider: &mut FvpRuntimeProvider, bound: bool, id: &str| {
        provider.session_for_step(Ok(()), bound, id).err().unwrap().code().to_string()
    };
    assert_eq!(code(&mut provider, true, "s1"), "ASTRA_FVP_SESSION_POISONED");
    assert_eq!(code(&mut provider, true, "s2"), "ASTRA_FVP_SESSION_MISSING");
    assert_eq!(code(&mut provider, false, "s1"), "ASTRA_FVP_HOST_SERVICES_MISSING");
    let trace = vec![LegacyVmTraceRecord { context_id: 1, program_counter: 2, opcode: 3 }];
    let report = provider.shutdown(Ok(()), "s1", Ok(trace)).unwrap();
    assert_eq!(report.evidence_vm_trace.len(), 1);
    assert_eq!(
        provider.shutdown(Ok(()), "s1", Ok(Vec::new())).unwrap_err().code(),
        "ASTRA_FVP_SESSION_MISSING"
    );
}

#[test]
fn opening_is_refused_with_a_code() {
    let mut provider = FvpRuntimeProvider::new();
    provider.register_case(image(1, "m1"), Ok(())).unwrap();
    let code = |provider: &FvpRuntimeProvider, mount: &str, request: LegacyOpenRequest| {
        provider
            .plan_open(Ok(()), &ctx(mount), &request, false)
            .unwrap_err()
            .code()
            .to_string()
    };
    assert_eq!(code(&provider, "m2", open_request(1, "s")), "ASTRA_FVP_MOUNT_BINDING");
    assert_eq!(code(&provider, "m1", open_request(2, "s")), "ASTRA_FVP_CASE_MISSING");
    let still = LegacyOpenRequest { fixed_delta_ns: 0, ..open_request(1, "s") };
    assert_eq!(code(&provider, "m1", still), "ASTRA_FVP_FIXED_DELTA");
    let slow = LegacyOpenRequest { fixed_delta_ns: 1_000_000_001, ..open_request(1, "s") };
    assert_eq!(code(&provider, "m1", slow), "ASTRA_FVP_FIXED_DELTA");
    let path = LegacyOpenRequest { script_uri: "/x.hcb".to_string(), ..open_request(1, "s") };
    assert_eq!(code(&provider, "m1", path), "ASTRA_FVP_SCRIPT_URI");
    let plan = provider.plan_open(Ok(()), &ctx("m1"), &open_request(1, "s"), false).unwrap();
    provider.open(&ctx("m1"), &open_request(1, "s"), &plan, Ok(())).unwrap();
    assert_eq!(code(&provider, "m1", open_request(1, "s")), "ASTRA_FVP_SESSION_DUPLICATE");
}

#[test]
fn host_cases_must_match_their_fingerprint() {
    let mut request = open_request(1, "s");
    assert_eq!(
        admit_host_case(&request, &script(2)).unwrap_err().code(),
        "ASTRA_FVP_CASE_FINGERPRINT"
    );
    assert_eq!(admit_host_case(&request, &script(1)).unwrap_err().code(), "ASTRA_FVP_NLS");
    request.family_options = names(&[("fvp.nls", "utf8"), ("fvp.pack_paths", "[\"A.bin\"]")]);
    let case = admit_host_case(&request, &script(1)).unwrap();
    assert_eq!(case.nls, FvpNls::Utf8);
    assert_eq!(case.pack_paths, ["a.bin"]);
}

#[test]
fn the_descriptor_names_the_provider() {
    let descriptor = FvpRuntimeProvider::descriptor("0.5.0", "abi");
    assert_eq!(descriptor.provider_id, FVP_PROVIDER_ID);
    assert_eq!(descriptor.plugin_id, "astra.emu.fvp");
    assert_eq!(descriptor.core_kind, LegacyFamilyCoreKind::Ported);
    assert_eq!(descriptor.presentation_mode, LegacyFamilyPresentationMode::SingleLayer);
    assert_eq!(descriptor.supported_formats, ["fvp.hcb", "fvp.bin", "fvp.nvsg", "fvp.hzc1"]);
    assert_eq!(descriptor.permissions, ["vfs.read", "media.submit"]);
    assert_eq!(descriptor.license, "MPL-2.0");
}

#[test]
fn instances_end_without_sessions() {
    let mut registry = ProviderRegistry::new();
    registry.create_instance("i", Ok(())).unwrap();
    assert!(registry.create_instance("i", Ok(())).is_err());
    assert_eq!(registry.create_instance("j", Err(refusal())).unwrap_err().code(), "REFUSED");
    assert!(registry.provider("j").is_err());
    let provider = registry.provider("i").unwrap();
    provider.register_case(image(1, "m1"), Ok(())).unwrap();
    let plan = provider.plan_open(Ok(()), &ctx("m1"), &open_request(1, "s"), false).unwrap();
    provider.open(&ctx("m1"), &open_request(1, "s"), &plan, Ok(())).unwrap();
    assert!(registry.destroy_instance("i").is_err());
    registry.provider("i").unwrap().shutdown(Ok(()), "s", Ok(Vec::new())).unwrap();
    assert!(registry.destroy_instance("i").is_ok());
    assert!(registry.destroy_instance("i").is_err());
}

fn evidence(uri: &str) -> BootEvidence {
    BootEvidence {
        listing: Ok(vec![(uri.to_string(), RfvpFileInfo::file(3))]),
        script_bytes: Ok(vec![1, 2, 3]),
        script: Ok(ScriptFacts {
            screen_width: 1280,
            screen_height: 720,
            non_volatile_global_count: 0,
            volatile_global_count: 0,
            entry_point: 4,
        }),
        font: FontReply::Loaded,
        packs: Ok(()),
        trace_accepted: true,
    }
}

fn ports() -> BootPorts {
    BootPorts { render: Vec::new(), audio_operations: 0 }
}

#[test]
fn a_case_boots_and_steps() {
    let mut state = HostedState::open_case(
        NameMap::new(),
        "script.hcb".to_string(),
        vec![1, 2, 3],
        1024,
        768,
        HostedTraceProfile::Shipping,
    )
    .unwrap();
    let (outcome, result) = state.boot(FvpNls::Utf8, evidence("script.hcb"), ports(), None);
    result.unwrap();
    assert_eq!(outcome.result, Ok(()));
    assert!(outcome.fatal.is_none());
    assert_eq!(outcome.logs.len(), 2);
    assert_eq!(state.session.core_state().run_state(), RfvpCoreRunState::Booted);
    let start = state.begin_step(16_666_667, HostedStepInput::default()).unwrap();
    let delta = state
        .step(
            start,
            EngineReply {
                script: Ok(()),
                globals: Vec::new(),
                movies: Vec::new(),
                text: Vec::new(),
                main_thread_exited: true,
                should_exit: false,
                halted: false,
                audio: Vec::new(),
                render: Vec::new(),
            },
        )
        .unwrap();
    assert_eq!(delta.tick.frame_index, 1);
    assert_eq!(state.host.clock.now_us, 16_666);
    assert!(state.session.is_terminal());
}

#[test]
fn a_case_script_must_be_its_own_file() {
    let mut files = NameMap::new();
    files.insert_new("script.hcb".to_string(), vec![9]);
    let error = HostedState::open_case(
        files,
        "script.hcb".to_string(),
        vec![1],
        1024,
        768,
        HostedTraceProfile::Shipping,
    )
    .err()
    .unwrap();
    assert!(matches!(error, HostedRuntimeError::ScriptCollision));
    let error = HostedState::open_case(
        NameMap::new(),
        "script.txt".to_string(),
        vec![1],
        1024,
        768,
        HostedTraceProfile::Shipping,
    )
    .err()
    .unwrap();
    assert!(matches!(error, HostedRuntimeError::ScriptUri));
}

#[test]
fn a_mounted_case_must_bind_the_expected_script() {
    let config = || HostedVfsSessionConfig {
        mount_set_id: "m".to_string(),
        expected_script_uri: "game.hcb".to_string(),
        pack_paths: vec!["bg.bin".to_string()],
        nls: FvpNls::ShiftJis,
        stage_width: 1024,
        stage_height: 768,
        trace_profile: HostedTraceProfile::Shipping,
    };
    let mut state = HostedState::open_vfs(config()).unwrap();
    let error = state
        .boot(FvpNls::ShiftJis, evidence("other.hcb"), ports(), Some("game.hcb"))
        .1
        .err()
        .unwrap();
    assert!(matches!(error, HostedRuntimeError::ScriptBinding));
    let mut state = HostedState::open_vfs(config()).unwrap();
    state.boot(FvpNls::ShiftJis, evidence("game.hcb"), ports(), Some("game.hcb")).1.unwrap();
    let mut state = HostedState::open_vfs(config()).unwrap();
    let error = state
        .boot(
            FvpNls::ShiftJis,
            BootEvidence { script: Err("bad opcode".to_string()), ..evidence("game.hcb") },
            ports(),
            Some("game.hcb"),
        )
        .1
        .err()
        .unwrap();
    assert_eq!(error.to_text(), "hosted session initialization failed: ASTRA_FVP_HOSTED_BOOT:InvalidData:bad opcode");
    let mut state = HostedState::open_vfs(config()).unwrap();
    let (outcome, result) = state.boot(
        FvpNls::ShiftJis,
        BootEvidence { font: FontReply::Missing, ..evidence("game.hcb") },
        ports(),
        None,
    );
    assert!(result.is_err());
    assert!(matches!(outcome.fatal, Some((FatalErrorCode::MissingDefaultFont, _))));
}

#[test]
fn runtime_failures_have_words() {
    assert_eq!(normalize_script_uri("./BG/Game.hcb").unwrap(), "bg/game.hcb");
    for uri in ["../game.hcb", "bg\\game.hcb", "game.HCB", "bg//game.hcb", "/game.hcb", ""] {
        assert!(normalize_script_uri(uri).is_err(), "{uri}");
    }
    assert_eq!(HostedRuntimeError::ScriptUri.to_text(), "hosted case script URI is invalid");
    assert_eq!(HostedWorkerError::Panicked.to_text(), "hosted session worker panicked");
    assert!(matches!(
        map_start_error(HostedWorkerStartError::Worker(HostedWorkerError::Terminated)),
        HostedRuntimeError::Worker(HostedWorkerError::Terminated)
    ));
    assert!(matches!(
        map_start_error(HostedWorkerStartError::Initialization(HostedRuntimeError::Core(
            RfvpError::Io
        ))),
        HostedRuntimeError::Core(RfvpError::Io)
    ));
}
