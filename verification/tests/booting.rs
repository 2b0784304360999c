use rfvp_hosted_provider::booting::{BootAction, BootEvent, BootRun, IndexReply};
use rfvp_hosted_provider::engine_core::{
    BootEvidence, FatalErrorCode, FontReply, RfvpBootConfig, RfvpCore, RfvpCoreConfig, RfvpCoreRunState, ScriptFacts,
};
use rfvp_hosted_provider::old_school::{
    check_script_length, load_required_bitmap_font, OldSchoolEvidence, CONFIG_FILE, FONT_FILE,
};
use rfvp_hosted_provider::host_api::{RfvpError, RfvpFileInfo, RfvpFileKind, RfvpLogLevel};

fn facts() -> ScriptFacts {
    ScriptFacts {
        screen_width: 640,
        screen_height: 480,
        non_volatile_global_count: 1,
        volatile_global_count: 2,
        entry_point: 77,
    }
}

fn scripts() -> Vec<(String, RfvpFileInfo)> {
    vec![
        ("first.hcb".to_string(), RfvpFileInfo::file(3)),
        ("second.hcb".to_string(), RfvpFileInfo::file(9)),
    ]
}

fn packs() -> Vec<(String, RfvpFileInfo)> {
    vec![
        ("data/bg.bin".to_string(), RfvpFileInfo::file(10)),
        ("data".to_string(), RfvpFileInfo { len: 0, kind: RfvpFileKind::Directory }),
        ("se.bin".to_string(), RfvpFileInfo::file(20)),
    ]
}

/// Answers a boot until it ends; an event for a stage replaces the good answer.
fn drive(config: &RfvpBootConfig<'_>, mut faulty: Option<(&str, BootEvent)>) -> (Vec<String>, BootEvidence) {
    let mut run = BootRun::begin(config);
    let mut asked = Vec::new();
    loop {
        let (stage, good) = match run.action(config, 16) {
            BootAction::List { root, extension } => (
                format!("list {root} {extension}"),
                BootEvent::Listed(Ok(if extension == "bin" { packs() } else { scripts() })),
            ),
            BootAction::ReadScript { path, limit } => {
                (format!("read {path} {limit}"), BootEvent::ScriptRead(Ok(vec![1, 2, 3])))
            }
            BootAction::ParseScript => {
                assert_eq!(run.script(), Some(&vec![1, 2, 3]));
                ("parse".to_string(), BootEvent::ScriptParsed(Ok(facts())))
            }
            BootAction::LoadFont { path } => {
                (format!("font {path}"), BootEvent::FontLoaded(FontReply::Loaded))
            }
            BootAction::AddPack { path, folder } => {
                (format!("pack {path} {folder}"), BootEvent::PackAdded(IndexReply::Added))
            }
            BootAction::Start { entry_point, trace_capacity } => {
                (format!("start {entry_point} {trace_capacity}"), BootEvent::Started(true))
            }
            BootAction::Finish => return (asked, run.finish(config)),
        };
        let event = match faulty.take() {
            Some((at, event)) if at == stage => event,
            other => {
                faulty = other;
                good
            }
        };
        asked.push(stage);
        run = run.advance(config, event);
    }
}

const STAGES: [&str; 8] = [
    "list . hcb",
    "read first.hcb 67108864",
    "parse",
    "font default.ttf",
    "list . bin",
    "pack data/bg.bin bg",
    "pack se.bin se",
    "start 77 16",
];

fn fresh_core() -> RfvpCore {
    RfvpCore::new(RfvpCoreConfig::default())
}

#[test]
fn boot_asks_in_order() {
    let config = RfvpBootConfig::default();
    let (asked, evidence) = drive(&config, None);
    assert_eq!(asked, STAGES);
    assert!(evidence.trace_accepted);
    let mut booted = fresh_core();
    assert!(booted.boot(config, evidence).result.is_ok());
    assert_eq!(booted.run_state(), RfvpCoreRunState::Booted);
    assert_eq!(booted.config().virtual_width, 640);
    assert_eq!(booted.loaded_game().unwrap().hcb_path, "first.hcb");
}

#[test]
fn boot_with_a_bad_configuration_asks_for_nothing() {
    let config = RfvpBootConfig { max_hcb_bytes: 0, ..RfvpBootConfig::default() };
    let (asked, evidence) = drive(&config, None);
    assert!(asked.is_empty());
    assert_eq!(fresh_core().boot(config, evidence).result, Err(RfvpError::InvalidArgument));
}

#[test]
fn boot_stops_at_the_first_failure() {
    let many = (0..1025).map(|i| (format!("{i}.hcb"), RfvpFileInfo::file(1))).collect();
    let cases: Vec<(usize, BootEvent, RfvpError)> = vec![
        (0, BootEvent::Listed(Err(RfvpError::Io)), RfvpError::Io),
        (0, BootEvent::Listed(Ok(Vec::new())), RfvpError::NotFound),
        (0, BootEvent::Listed(Ok(many)), RfvpError::CapacityExceeded),
        (1, BootEvent::ScriptRead(Err(RfvpError::EndOfFile)), RfvpError::EndOfFile),
        (2, BootEvent::ScriptParsed(Err("bad opcode".to_string())), RfvpError::InvalidData),
        (3, BootEvent::FontLoaded(FontReply::Missing), RfvpError::NotFound),
        (3, BootEvent::FontLoaded(FontReply::Invalid), RfvpError::InvalidData),
        (4, BootEvent::Listed(Err(RfvpError::Backend)), RfvpError::Backend),
        (5, BootEvent::PackAdded(IndexReply::Unopened(RfvpError::Io)), RfvpError::Io),
        (
            6,
            BootEvent::PackAdded(IndexReply::Rejected("bad table".to_string())),
            RfvpError::InvalidData,
        ),
        (7, BootEvent::Started(false), RfvpError::CapacityExceeded),
    ];
    for (stage, event, error) in cases {
        let config = RfvpBootConfig::default();
        let (asked, evidence) = drive(&config, Some((STAGES[stage], event)));
        assert_eq!(asked, STAGES[..=stage]);
        assert!(!evidence.trace_accepted);
        let mut booted = fresh_core();
        let outcome = booted.boot(config, evidence);
        assert_eq!(outcome.result, Err(error));
        assert_eq!(booted.run_state(), RfvpCoreRunState::BootFailed);
        if stage == 6 {
            let line = outcome.logs.last().unwrap();
            assert_eq!(line.level, RfvpLogLevel::Warn);
            assert_eq!(line.message, "failed to parse host pack metadata se.bin: bad table");
        }
    }
}

#[test]
fn unasked_findings_do_not_count() {
    let config = RfvpBootConfig::default();
    let failed = ("parse", BootEvent::ScriptParsed(Err("bad opcode".to_string())));
    let (_, stopped) = drive(&config, Some(failed));
    let (_, whole) = drive(&config, None);
    let full = BootEvidence { script: Err("bad opcode".to_string()), ..whole };
    let (mut a, mut b) = (fresh_core(), fresh_core());
    let (left, right) = (a.boot(config, stopped), b.boot(config, full));
    assert_eq!(left.result, right.result);
    assert_eq!(left.logs.len(), right.logs.len());
    assert_eq!(a.last_error_detail(), Some("bad opcode"));
    assert_eq!(b.last_error_detail(), Some("bad opcode"));
}

#[test]
fn a_title_without_archives_starts_at_once() {
    let config = RfvpBootConfig::default();
    let (asked, evidence) = drive(&config, Some(("list . bin", BootEvent::Listed(Ok(Vec::new())))));
    assert_eq!(asked, [STAGES[0], STAGES[1], STAGES[2], STAGES[3], STAGES[4], STAGES[7]]);
    assert!(fresh_core().boot(config, evidence).result.is_ok());
}

fn old_school() -> OldSchoolEvidence {
    OldSchoolEvidence {
        listing: Ok(scripts()),
        script_len: Ok(3),
        script: Ok(facts()),
        screen: Ok((320, 240)),
        font: FontReply::Loaded,
        trace_accepted: true,
    }
}

#[test]
fn an_old_school_title_boots_from_its_length() {
    assert_eq!((CONFIG_FILE, FONT_FILE), ("rfvp.toml", "defualt.tmap"));
    let mut booted = fresh_core();
    let outcome = booted.boot_old_school(RfvpBootConfig::default(), old_school());
    assert!(outcome.result.is_ok() && outcome.fatal.is_none());
    assert_eq!(outcome.logs.len(), 2);
    assert_eq!(booted.run_state(), RfvpCoreRunState::Booted);
    assert_eq!((booted.config().virtual_width, booted.config().virtual_height), (320, 240));
    let game = booted.loaded_game().unwrap();
    assert_eq!(game.hcb_path, "first.hcb");
    assert!(game.hcb_bytes.is_empty());
    assert_eq!(game.hcb_manifest.len(), 1);
}

#[test]
fn old_school_boots_fail_in_order() {
    assert_eq!(check_script_length(4, 4), Ok(()));
    assert!(load_required_bitmap_font(FontReply::Loaded).is_ok());
    let words = "rfvp.toml scale must be greater than 0";
    let cases: Vec<(OldSchoolEvidence, RfvpError, Option<&str>)> = vec![
        (
            OldSchoolEvidence { listing: Ok(Vec::new()), ..old_school() },
            RfvpError::NotFound,
            None,
        ),
        (
            OldSchoolEvidence { script_len: Err(RfvpError::Io), ..old_school() },
            RfvpError::Io,
            None,
        ),
        (OldSchoolEvidence { script_len: Ok(0), ..old_school() }, RfvpError::CapacityExceeded, None),
        (
            OldSchoolEvidence { script_len: Ok(67_108_865), ..old_school() },
            RfvpError::CapacityExceeded,
            None,
        ),
        (
            OldSchoolEvidence { script: Err("bad opcode".to_string()), ..old_school() },
            RfvpError::InvalidData,
            Some("bad opcode"),
        ),
        (
            OldSchoolEvidence {
                screen: Err((RfvpError::InvalidData, words)),
                font: FontReply::Missing,
                ..old_school()
            },
            RfvpError::InvalidData,
            Some(words),
        ),
        (
            OldSchoolEvidence { font: FontReply::Missing, ..old_school() },
            RfvpError::NotFound,
            Some("Required font file defualt.tmap was not found in the game directory."),
        ),
        (
            OldSchoolEvidence { font: FontReply::Invalid, ..old_school() },
            RfvpError::InvalidData,
            Some("Required font file defualt.tmap exists but is not a valid bitmap font."),
        ),
        (
            OldSchoolEvidence { trace_accepted: false, ..old_school() },
            RfvpError::CapacityExceeded,
            None,
        ),
    ];
    for (evidence, error, detail) in cases {
        let faulty_font = evidence.screen.is_ok() && evidence.font != FontReply::Loaded;
        let mut booted = fresh_core();
        let outcome = booted.boot_old_school(RfvpBootConfig::default(), evidence);
        assert_eq!(outcome.result, Err(error));
        assert_eq!(booted.run_state(), RfvpCoreRunState::BootFailed);
        assert_eq!(booted.last_error_detail(), detail);
        assert_eq!(outcome.fatal.is_some(), faulty_font);
        assert_eq!(outcome.logs.len(), 1);
    }
    let mut booted = fresh_core();
    let evidence = OldSchoolEvidence { font: FontReply::Missing, ..old_school() };
    let outcome = booted.boot_old_school(RfvpBootConfig::default(), evidence);
    assert!(matches!(outcome.fatal, Some((FatalErrorCode::MissingDefaultFont, _))));
}
