use rfvp_hosted_provider::archive::{ArchiveOpening, FvpArchive};
use rfvp_hosted_provider::audit::{audit_archive, EntryAudit};
use rfvp_hosted_provider::digest::Hash256;
use rfvp_hosted_provider::fault::LegacyCoreError;
use rfvp_hosted_provider::nls::FvpNls;
use rfvp_hosted_provider::source::{ByteRange, ByteSourceError, ByteSourceStat};
use rfvp_hosted_provider::vfs::{
    archive_role, entry_address, parse_failure, validate_options, FvpMount, FvpMountedVfs,
    FvpVfsFamilyFactory, FvpVfsFamilyOptions, LedgerReply, LegacyVfsNodeKind, MountContext, RecordedRead, SourceReply,
    StreamPlan, FVP_FAMILY_OPTIONS_SCHEMA,
};

const MAX_RANGE: u64 = 64;
const MAX_READ: u64 = 32;

fn archive(entries: &[(&str, &[u8])]) -> Vec<u8> {
    let mut names = Vec::new();
    let mut name_offsets = Vec::new();
    for (name, _) in entries {
        name_offsets.push(names.len() as u32);
        names.extend_from_slice(name.as_bytes());
        names.push(0);
    }
    let payload_start = 8 + entries.len() * 12 + names.len();
    let mut payload_offset = payload_start as u32;
    let mut bytes = (entries.len() as u32).to_le_bytes().to_vec();
    bytes.extend_from_slice(&(names.len() as u32).to_le_bytes());
    for ((_, payload), name_offset) in entries.iter().zip(name_offsets) {
        bytes.extend_from_slice(&name_offset.to_le_bytes());
        bytes.extend_from_slice(&payload_offset.to_le_bytes());
        bytes.extend_from_slice(&(payload.len() as u32).to_le_bytes());
        payload_offset += payload.len() as u32;
    }
    bytes.extend_from_slice(&names);
    for (_, payload) in entries {
        bytes.extend_from_slice(payload);
    }
    bytes
}

fn piece(data: &[u8], range: ByteRange) -> Vec<u8> {
    data[range.offset as usize..(range.offset + range.len) as usize].to_vec()
}

fn open_source(data: &[u8]) -> FvpArchive {
    let stat = ByteSourceStat { len: data.len() as u64, revision: 7 };
    let mut opening = ArchiveOpening::begin(stat, MAX_RANGE).unwrap();
    while let Some(range) = opening.request() {
        opening = opening.accept(&piece(data, range)).unwrap();
    }
    opening.open_source(FvpNls::Utf8, 16).unwrap()
}

fn audited(data: &[u8], archive: &FvpArchive) -> (Hash256, Vec<EntryAudit>) {
    let mut audit = audit_archive(archive, MAX_RANGE).unwrap();
    while let Some(range) = audit.request() {
        audit.accept(&piece(data, range));
    }
    audit.finish().unwrap()
}

fn options(archives: &[&str]) -> FvpVfsFamilyOptions {
    FvpVfsFamilyOptions {
        nls: FvpNls::Utf8,
        archives: archives.iter().map(|name| name.to_string()).collect(),
        max_entries_per_archive: 16,
    }
}

fn context() -> MountContext {
    MountContext {
        mount_id: "fixture-fvp".to_string(),
        prefix: "fvp:/".to_string(),
        profile_hash: Hash256::from_sha256(b"profile"),
        schema_id: FVP_FAMILY_OPTIONS_SCHEMA.to_string(),
        schema_hash: Hash256::from_sha256(FVP_FAMILY_OPTIONS_SCHEMA.as_bytes()),
        private_patch: false,
    }
}

fn add(mount: FvpMount, data: &[u8]) -> Result<FvpMount, LegacyCoreError> {
    let archive = open_source(data);
    let (hash, audits) = audited(data, &archive);
    let verdicts = mount.addresses(&archive)?.iter().map(|_| None).collect();
    mount.add_archive(archive, hash, &audits, &verdicts)
}

fn mounted(data: &[u8]) -> FvpMountedVfs {
    let mount = FvpVfsFamilyFactory
        .begin_mount(context(), Some(options(&["Graph.bin"])))
        .unwrap();
    assert_eq!(mount.next_archive(), Some("Graph.bin"));
    let mount = add(mount, data).unwrap();
    assert_eq!(mount.next_archive(), None);
    mount.finish("schema.test")
}

fn scene(text: &[u8]) -> Vec<u8> {
    archive(&[("BG/Scene", text), ("Movie/Op", b"movie-data")])
}

fn source_reply(data: &[u8]) -> SourceReply {
    SourceReply {
        stat: Ok(ByteSourceStat { len: data.len() as u64, revision: 7 }),
        hash: Ok(Hash256::from_sha256(data)),
    }
}

fn recorded(bytes: Vec<u8>) -> RecordedRead {
    RecordedRead { bytes, ledger: LedgerReply::Recorded }
}

#[test]
fn fvp_factory_mounts_nested_entries_with_bounded_ranges_and_streams() {
    let data = scene(b"hzc1-image");
    let mounted = mounted(&data);
    assert_eq!(mounted.read_dir("fvp:/", &None).unwrap()[0].name, "graph");
    assert_eq!(
        mounted.stat("fvp:/graph/bg/scene", &None).unwrap().size,
        b"hzc1-image".len() as u64
    );
    let plan = mounted
        .plan_read("fvp:/graph/bg/scene", &None, 5, 5, MAX_READ, MAX_RANGE)
        .unwrap();
    let read = mounted
        .read_range(
            "fvp:/graph/bg/scene",
            &plan,
            Ok(recorded(piece(&data, plan.range))),
        )
        .unwrap();
    assert_eq!(read.bytes.as_slice(), b"image");
    let mut stream = match mounted.open_stream("fvp:/graph/movie/op", &None, 4).unwrap() {
        StreamPlan::Pieces(stream) => stream,
        StreamPlan::Whole(_) => panic!("the entry does not fit in one range"),
    };
    let mut bytes = Vec::new();
    while let Some(range) = stream.request(64, 4).unwrap() {
        let reply = Ok(recorded(piece(&data, range)));
        bytes.extend(stream.accept(range, reply).unwrap());
    }
    assert_eq!(bytes, b"movie-data");
    mounted.validate_sources(&vec![Some(source_reply(&data))]).unwrap();
    let changed = scene(b"hzc1-IMAGE");
    assert_eq!(
        mounted
            .validate_sources(&vec![Some(source_reply(&changed))])
            .unwrap_err()
            .code(),
        "ASTRA_EMU_VFS_SOURCE_CHANGED"
    );
}

#[test]
fn fvp_factory_rejects_duplicate_archive_roles() {
    let options = FvpVfsFamilyOptions {
        nls: FvpNls::Utf8,
        archives: vec!["Graph.bin".into(), "graph.BIN".into()],
        max_entries_per_archive: 16,
    };
    assert_eq!(
        validate_options(&options).unwrap_err().code(),
        "ASTRA_EMU_FVP_ARCHIVE_DUPLICATE"
    );
}

#[test]
fn options_have_bounds() {
    assert!(validate_options(&options(&["a.bin", "b.bin"])).is_ok());
    assert!(validate_options(&options(&[])).is_err());
    let none = FvpVfsFamilyOptions { max_entries_per_archive: 0, ..options(&["a.bin"]) };
    assert!(validate_options(&none).is_err());
    let many = FvpVfsFamilyOptions { max_entries_per_archive: 10_000_001, ..options(&["a.bin"]) };
    assert!(validate_options(&many).is_err());
}

#[test]
fn roles_are_names_without_extension() {
    assert_eq!(archive_role("Graph_01.BIN").unwrap(), "graph_01");
    for path in ["", "Graph.zip", "Data/Graph.bin", "/Graph.bin", "../Graph.bin", "bin"] {
        assert_eq!(archive_role(path).unwrap_err().code(), "ASTRA_EMU_FVP_ARCHIVE_PATH", "{path}");
    }
    assert_eq!(archive_role("a b.bin").unwrap_err().code(), "ASTRA_EMU_FVP_ARCHIVE_ROLE");
    assert!(archive_role(&format!("{}.bin", "x".repeat(129))).is_err());
    assert_eq!(entry_address("fvp:/", "graph", "bg/scene"), "fvp:/graph/bg/scene");
}

#[test]
fn mounting_needs_the_schema_of_the_family() {
    let factory = FvpVfsFamilyFactory;
    assert_eq!(factory.family_id(), "fvp");
    assert_eq!(factory.mount_profile_schema_id(), FVP_FAMILY_OPTIONS_SCHEMA);
    assert_eq!(factory.decrypt_provider_id(), "astra.emu.fvp.raw.v1");
    assert_eq!(
        factory.mount_profile_schema_hash().to_hex(),
        Hash256::from_sha256(FVP_FAMILY_OPTIONS_SCHEMA.as_bytes()).to_hex()
    );
    let other = MountContext { schema_id: "other".to_string(), ..context() };
    assert!(factory.begin_mount(other, Some(options(&["a.bin"]))).is_err());
    let hash = MountContext { schema_hash: Hash256::zero(), ..context() };
    assert!(factory.begin_mount(hash, Some(options(&["a.bin"]))).is_err());
    assert!(factory.begin_mount(context(), None).is_err());
    assert!(factory.begin_mount(context(), Some(options(&["a.bin"]))).is_ok());
}

#[test]
fn a_manifest_tells_where_entries_come_from() {
    let data = scene(b"hzc1-image");
    let mounted = mounted(&data);
    assert_eq!(mounted.mount_id(), "fixture-fvp");
    let manifest = mounted.manifest();
    assert_eq!(manifest.sources.len(), 1);
    assert_eq!(manifest.sources[0].byte_size, data.len() as u64);
    assert_eq!(manifest.entries.len(), 2);
    let first = &manifest.entries[0];
    assert_eq!(first.uri, "fvp:/graph/bg/scene");
    let from = first.source_offset as usize;
    assert_eq!(&data[from..from + first.stored_size as usize], b"hzc1-image");
}

#[test]
fn directories_list_their_children_once() {
    let data = archive(&[("bg/a", b"1"), ("bg/b", b"2"), ("readme", b"3")]);
    let mounted = mounted(&data);
    let top = mounted.read_dir("fvp:/graph", &None).unwrap();
    let names: Vec<(&str, LegacyVfsNodeKind)> =
        top.iter().map(|node| (node.name.as_str(), node.kind)).collect();
    assert_eq!(
        names,
        [("bg", LegacyVfsNodeKind::Directory), ("readme", LegacyVfsNodeKind::File)]
    );
    assert_eq!(mounted.stat("fvp:/graph/bg", &None).unwrap().kind, LegacyVfsNodeKind::Directory);
    assert!(mounted.read_dir("fvp:/missing", &None).is_err());
    assert!(mounted.stat("fvp:/graph/none", &None).is_err());
    let refusal = Some(LegacyCoreError::invalid("BAD_URI", "no"));
    assert_eq!(mounted.stat("fvp:/graph/bg/a", &refusal).unwrap_err().code(), "BAD_URI");
    assert_eq!(mounted.entry("fvp:/graph/bg/a", &None).unwrap().role, "graph");
}

#[test]
fn reads_stay_inside_an_entry() {
    let data = scene(b"hzc1-image");
    let mounted = mounted(&data);
    let uri = "fvp:/graph/bg/scene";
    assert!(mounted.plan_read(uri, &None, 0, MAX_READ + 1, MAX_READ, MAX_RANGE).is_err());
    assert!(mounted.plan_read(uri, &None, 9, 2, MAX_READ, MAX_RANGE).is_err());
    assert!(mounted.plan_read(uri, &None, u64::MAX, 2, MAX_READ, MAX_RANGE).is_err());
    let plan = mounted.plan_read(uri, &None, 0, 10, MAX_READ, MAX_RANGE).unwrap();
    assert!(plan.eof);
    assert!(mounted
        .read_range(uri, &plan, Err(ByteSourceError::RevisionMismatch))
        .is_err());
    assert!(mounted
        .read_range(
            uri,
            &plan,
            Ok(RecordedRead { bytes: vec![0; 10], ledger: LedgerReply::Poisoned }),
        )
        .is_err());
    assert!(mounted.read_range(uri, &plan, Ok(recorded(vec![0; 9]))).is_err());
}

#[test]
fn archives_are_taken_in_by_their_names() {
    let data = scene(b"hzc1-image");
    let mount = FvpVfsFamilyFactory
        .begin_mount(context(), Some(options(&["Graph.bin", "Voice.BIN"])))
        .unwrap();
    let mount = add(mount, &data).unwrap();
    assert_eq!(mount.next_archive(), Some("Voice.BIN"));
    let archive = open_source(&data);
    assert_eq!(
        mount.addresses(&archive).unwrap(),
        ["fvp:/voice/bg/scene", "fvp:/voice/movie/op"]
    );
    let (hash, audits) = audited(&data, &archive);
    let verdicts = vec![None, Some(LegacyCoreError::invalid("BAD_URI", "no"))];
    let refused = mount.add_archive(archive, hash, &audits, &verdicts);
    assert_eq!(refused.err().unwrap().code(), "BAD_URI");
}

#[test]
fn parse_failures_carry_the_code() {
    assert!(parse_failure("ASTRA_FVP_ARCHIVE_NAME").message().contains("ASTRA_FVP_ARCHIVE_NAME"));
}
