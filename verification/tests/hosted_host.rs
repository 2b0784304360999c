use std::collections::BTreeMap;

use rfvp_hosted_provider::fault::LegacyProviderError;
use rfvp_hosted_provider::host_api::{RfvpError, RfvpFileKind};
use rfvp_hosted_provider::hosted_host::{
    in_root_with_extension, normalize, EnumerateStep, HostedMemoryFile, HostedMemoryFileSystem,
    HostedMemoryHost, LegacyWritableFileRequestV1, LegacyWritableFileResultV1, ListStep,
    MetadataStep, OpenStep,
};
use rfvp_hosted_provider::names::NameMap;
use rfvp_hosted_provider::paging::{map_vfs_error, HOSTED_VFS_PAGE_BYTES};
use rfvp_hosted_provider::source::ByteSourceStat;

fn table(files: &[(&str, &[u8])]) -> NameMap<Vec<u8>> {
    let mut map = NameMap::new();
    for (name, bytes) in files {
        assert!(map.insert_new(name.to_string(), bytes.to_vec()));
    }
    map
}

fn opened(step: OpenStep) -> HostedMemoryFile {
    match step {
        OpenStep::Opened { file } => file,
        other => panic!("file must be open: {other:?}"),
    }
}

fn empty() -> LegacyWritableFileResultV1 {
    LegacyWritableFileResultV1 {
        exists: false,
        is_file: false,
        length: 0,
        entries: Vec::new(),
        bytes: Vec::new(),
        written: 0,
    }
}

/// A host that keeps written files in memory.
struct WritableHost {
    files: BTreeMap<String, Vec<u8>>,
}

impl WritableHost {
    fn execute(&mut self, request: LegacyWritableFileRequestV1) -> Result<LegacyWritableFileResultV1, LegacyProviderError> {
        match request {
            LegacyWritableFileRequestV1::Stat { path } => Ok(match self.files.get(&path) {
                Some(bytes) => LegacyWritableFileResultV1 {
                    exists: true,
                    is_file: true,
                    length: bytes.len() as u64,
                    ..empty()
                },
                None => empty(),
            }),
            LegacyWritableFileRequestV1::CreateDir { .. } => Ok(empty()),
            LegacyWritableFileRequestV1::WriteRange { path, offset, bytes } => {
                let file = self.files.entry(path).or_default();
                let offset = offset as usize;
                file.resize(offset + bytes.len(), 0);
                file[offset..offset + bytes.len()].copy_from_slice(&bytes);
                Ok(LegacyWritableFileResultV1 { written: bytes.len() as u64, ..empty() })
            }
            LegacyWritableFileRequestV1::SetLength { path, length } => {
                self.files.entry(path).or_default().resize(length as usize, 0);
                Ok(empty())
            }
            LegacyWritableFileRequestV1::AtomicReplace { temporary_path, destination_path } => {
                let bytes = self
                    .files
                    .remove(&temporary_path)
                    .ok_or_else(|| LegacyProviderError::invalid("TEST_TEMP", "temporary file missing"))?;
                self.files.insert(destination_path, bytes);
                Ok(empty())
            }
            LegacyWritableFileRequestV1::ReadRange { path, offset, length } => {
                let bytes = self
                    .files
                    .get(&path)
                    .ok_or_else(|| LegacyProviderError::invalid("TEST_FILE", "file missing"))?;
                let start = offset as usize;
                let end = start + length as usize;
                Ok(LegacyWritableFileResultV1 {
                    exists: true,
                    is_file: true,
                    length: bytes.len() as u64,
                    bytes: bytes[start..end].to_vec(),
                    ..empty()
                })
            }
            LegacyWritableFileRequestV1::Remove { path } => {
                self.files.remove(&path);
                Ok(empty())
            }
            LegacyWritableFileRequestV1::List { .. } => Ok(empty()),
        }
    }
}

#[test]
fn memory_port_normalizes_and_bounds_files() {
    let mut host = HostedMemoryHost::new(table(&[("GAME.HCB", &[1, 2]), ("movie/opening.wmv", &[3])]))
        .expect("valid hosted files");
    let file = opened(host.fs.open("game.hcb").expect("normalized open"));
    let mut bytes = [0u8; 2];
    assert_eq!(file.read_at(0, &mut bytes).expect("read"), 2);
    assert_eq!(bytes, [1, 2]);
    assert!(host.fs.open("../game.hcb").is_err());
    host.advance(16_667_000).expect("fixed clock advances");
    assert_eq!(host.clock.ticks_us(), 16_667);
    assert_eq!(host.elapsed_us(), 16_667);
}

#[test]
fn paged_vfs_read_spans_cache_boundary_without_truncation() {
    let page = HOSTED_VFS_PAGE_BYTES as usize;
    let bytes = (0..page + 64).map(|index| (index % 251) as u8).collect::<Vec<_>>();
    let expected = bytes[page - 32..page + 32].to_vec();
    let host = HostedMemoryHost::from_vfs("mount.test".into(), vec!["pack.bin".into()])
        .expect("test VFS host");
    let path = match host.fs.open("pack.bin").expect("open test pack") {
        OpenStep::StatVfs { path } => path,
        other => panic!("the pack is served by the file system: {other:?}"),
    };
    let stat = ByteSourceStat { len: bytes.len() as u64, revision: 1 };
    let file = host.fs.open_after_vfs_stat(path, Ok(stat)).expect("open test pack");
    let mut file = match file {
        HostedMemoryFile::Vfs { file } => file,
        other => panic!("the pack is read in pages: {other:?}"),
    };
    let mut read = file.begin_read((page - 32) as u64, expected.len()).expect("cross-page read");
    let mut pages = 0;
    while let Some(range) = file.request(&read) {
        let start = range.offset as usize;
        let reply = bytes[start..start + range.len as usize].to_vec();
        read = file.accept(read, Ok(reply)).expect("cross-page read");
        pages += 1;
    }
    assert_eq!(pages, 2);
    assert_eq!(read.copied, expected);
}

#[test]
fn writable_port_uses_atomic_replace_and_reads_the_committed_file() {
    let mut writable = WritableHost { files: BTreeMap::new() };
    let mut host = HostedMemoryHost::new(NameMap::new()).expect("empty case host");
    host.bind_writable("session.test".into()).expect("writable port binds once");
    let plan = host.fs.write_all("save/save001.dat", 4).expect("atomic save write");
    assert_eq!(plan.parent.as_deref(), Some("save"));
    for request in host.fs.stage_write(plan, vec![1, 2, 3, 4]).expect("atomic save write") {
        writable.execute(request).expect("atomic save write");
    }
    assert_eq!(writable.files.get("save/save001.dat"), Some(&vec![1, 2, 3, 4]));
    assert_eq!(writable.files.len(), 1);
    let path = match host.fs.open("save/save001.dat").expect("open save") {
        OpenStep::StatWritable { path } => path,
        other => panic!("a bound host is asked first: {other:?}"),
    };
    let stat = writable.execute(LegacyWritableFileRequestV1::Stat { path: path.clone() });
    let (path, length) = match host.fs.open_after_stat(path, stat).expect("open save") {
        OpenStep::ReadWritable { path, length } => (path, length),
        other => panic!("a written file is read: {other:?}"),
    };
    let content = writable.execute(LegacyWritableFileRequestV1::ReadRange { path, offset: 0, length });
    let file = HostedMemoryFileSystem::open_after_read(length, content).expect("read save");
    let mut bytes = [0u8; 4];
    assert_eq!(file.read_at(0, &mut bytes).expect("read save"), 4);
    assert_eq!(bytes, [1, 2, 3, 4]);
}

#[test]
fn writable_port_binds_once() {
    let mut host = HostedMemoryHost::new(NameMap::new()).unwrap();
    assert_eq!(host.bind_writable(String::new()), Err(RfvpError::InvalidArgument));
    assert_eq!(host.bind_writable("a".into()), Ok(()));
    assert_eq!(host.bind_writable("b".into()), Err(RfvpError::InvalidArgument));
}

#[test]
fn unwritten_files_fall_back_to_the_case() {
    let mut host = HostedMemoryHost::new(table(&[("a.dat", &[7])])).unwrap();
    host.bind_writable("session".into()).unwrap();
    let path = match host.fs.open("A.DAT").unwrap() {
        OpenStep::StatWritable { path } => path,
        other => panic!("a bound host is asked first: {other:?}"),
    };
    let file = opened(host.fs.open_after_stat(path, Ok(empty())).unwrap());
    assert_eq!(file.len(), 1);
    assert_eq!(
        host.fs.open_after_stat("b.dat".into(), Ok(empty())).unwrap_err(),
        RfvpError::NotFound
    );
}

#[test]
fn case_hosts_refuse_collisions_and_bad_names() {
    assert_eq!(
        HostedMemoryHost::new(table(&[("A", &[1]), ("a", &[2])])).unwrap_err(),
        RfvpError::InvalidData
    );
    assert_eq!(
        HostedMemoryHost::new(table(&[("../a", &[1])])).unwrap_err(),
        RfvpError::InvalidArgument
    );
    assert_eq!(
        HostedMemoryHost::from_vfs(String::new(), Vec::new()).unwrap_err(),
        RfvpError::InvalidArgument
    );
    assert_eq!(
        HostedMemoryHost::from_vfs("m".into(), vec!["a.txt".into()]).unwrap_err(),
        RfvpError::InvalidArgument
    );
    assert_eq!(
        HostedMemoryHost::from_vfs("m".into(), vec!["a.bin".into(), "A.bin".into()]).unwrap_err(),
        RfvpError::InvalidArgument
    );
}

#[test]
fn clock_moves_by_whole_microseconds() {
    let mut host = HostedMemoryHost::new(NameMap::new()).unwrap();
    assert_eq!(host.advance(999), Err(RfvpError::InvalidArgument));
    assert_eq!(host.advance(1_999), Ok(()));
    assert_eq!(host.elapsed_us(), 1);
    host.clock.now_us = u64::MAX;
    assert_eq!(host.advance(1_000), Err(RfvpError::CapacityExceeded));
}

#[test]
fn memory_files_are_found_by_extension() {
    let host = HostedMemoryHost::new(table(&[("b.hcb", &[1, 2]), ("a.HCB", &[3]), ("c.txt", &[])])).unwrap();
    match host.fs.enumerate_by_extension(".", "hcb").unwrap() {
        EnumerateStep::Listed { lines } => {
            assert_eq!(lines.len(), 2);
            assert_eq!(lines[0].0, "a.hcb");
            assert_eq!((lines[1].0.as_str(), lines[1].1.len), ("b.hcb", 2));
        }
        other => panic!("files in memory are listed at once: {other:?}"),
    }
    assert!(host.fs.enumerate_by_extension(".", ".hcb").is_err());
    match host.fs.metadata("A.hcb").unwrap() {
        MetadataStep::Found { info } => {
            assert_eq!(info.len, 1);
            assert_eq!(info.kind, RfvpFileKind::File);
        }
        other => panic!("files in memory are known at once: {other:?}"),
    }
}

#[test]
fn vfs_packs_are_enumerated_by_their_declaration() {
    let host = HostedMemoryHost::from_vfs("m".into(), vec!["b.bin".into(), "a.bin".into()]).unwrap();
    match host.fs.enumerate_by_extension(".", "bin").unwrap() {
        EnumerateStep::StatPacks { paths } => assert_eq!(paths, ["a.bin", "b.bin"]),
        other => panic!("declared packs are asked for: {other:?}"),
    }
    match host.fs.enumerate_by_extension(".", "hcb").unwrap() {
        EnumerateStep::Enumerate { extension, .. } => assert_eq!(extension, "hcb"),
        other => panic!("the file system is asked: {other:?}"),
    }
    let lines = HostedMemoryFileSystem::enumerated("", "hcb", Ok(vec![("X.hcb".into(), 5)])).unwrap();
    assert_eq!((lines[0].0.as_str(), lines[0].1.len), ("x.hcb", 5));
    assert_eq!(
        HostedMemoryFileSystem::enumerated("", "hcb", Ok(vec![("x.txt".into(), 5)])).unwrap_err(),
        RfvpError::InvalidData
    );
}

#[test]
fn listing_needs_a_bound_host() {
    let mut host = HostedMemoryHost::new(NameMap::new()).unwrap();
    assert!(host.fs.list("save").is_err());
    assert!(host.fs.remove("save/a").is_err());
    host.bind_writable("s".into()).unwrap();
    let root = host.fs.list("save").unwrap();
    match HostedMemoryFileSystem::list_after_stat(root, Ok(empty())).unwrap() {
        ListStep::Listed { lines } => assert!(lines.is_empty()),
        other => panic!("a missing directory is empty: {other:?}"),
    }
    match host.fs.remove("Save/A").unwrap() {
        LegacyWritableFileRequestV1::Remove { path } => assert_eq!(path, "save/a"),
        other => panic!("removal is one request: {other:?}"),
    }
}

#[test]
fn paths_have_one_normal_form() {
    assert_eq!(normalize("./A/B.txt").unwrap(), "a/b.txt");
    assert_eq!(normalize("a/b.txt").unwrap(), "a/b.txt");
    for bad in ["", ".", "..", "/a", "a//b", "a\\b", "a/../b"] {
        assert_eq!(normalize(bad), Err(RfvpError::InvalidArgument));
    }
    assert!(in_root_with_extension("a/b.hcb", "a", "hcb"));
    assert!(!in_root_with_extension("b/b.hcb", "a", "hcb"));
    assert!(!in_root_with_extension("a/b.hcbx", "a", "hcb"));
}

#[test]
fn vfs_failures_map_to_engine_failures() {
    let error = |code: &str| map_vfs_error(&LegacyProviderError::invalid(code, "test"));
    assert_eq!(error("ASTRA_EMU_VFS_NOT_FOUND"), RfvpError::NotFound);
    assert_eq!(error("ANYTHING_ELSE"), RfvpError::Io);
}
