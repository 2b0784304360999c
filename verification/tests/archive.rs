use rfvp_hosted_provider::archive::{
    accept_manifest, classify, metadata_len, normalize_name, ArchiveOpening, ArchiveStorage, FvpArchive,
    IdentityAudit,
};
use rfvp_hosted_provider::audit::audit_archive;
use rfvp_hosted_provider::digest::Hash256;
use rfvp_hosted_provider::nls::FvpNls;
use rfvp_hosted_provider::source::{
    archive_source_error, audit_source_error, vfs_source_error, ByteRange, ByteSourceError,
    ByteSourceStat, RangeRead,
};

const MAX_RANGE: u64 = 1024 * 1024;
const MAX_ENTRIES: usize = 8;

fn archive(entries: &[(&str, &[u8])]) -> Vec<u8> {
    let mut names = Vec::new();
    let mut name_offsets = Vec::new();
    for (name, _) in entries {
        name_offsets.push(names.len() as u32);
        names.extend_from_slice(name.as_bytes());
        names.push(0);
    }
    let payload_start = 8 + entries.len() * 12 + names.len();
    let mut payload_offset = payload_start as u32;
    let mut bytes = (entries.len() as u32).to_le_bytes().to_vec();
    bytes.extend_from_slice(&(names.len() as u32).to_le_bytes());
    for ((_, payload), name_offset) in entries.iter().zip(name_offsets) {
        bytes.extend_from_slice(&name_offset.to_le_bytes());
        bytes.extend_from_slice(&payload_offset.to_le_bytes());
        bytes.extend_from_slice(&(payload.len() as u32).to_le_bytes());
        payload_offset += payload.len() as u32;
    }
    bytes.extend_from_slice(&names);
    for (_, payload) in entries {
        bytes.extend_from_slice(payload);
    }
    bytes
}

fn piece(data: &[u8], range: ByteRange) -> Vec<u8> {
    data[range.offset as usize..(range.offset + range.len) as usize].to_vec()
}

fn open_source(data: &[u8], max_range: u64) -> FvpArchive {
    let stat = ByteSourceStat { len: data.len() as u64, revision: 7 };
    let mut opening = ArchiveOpening::begin(stat, max_range).unwrap();
    while let Some(range) = opening.request() {
        opening = opening.accept(&piece(data, range)).unwrap();
    }
    opening.open_source(FvpNls::Utf8, MAX_ENTRIES).unwrap()
}

#[test]
fn archive_parses_case_insensitive_nested_entries_and_classifies_payload() {
    let bytes = archive(&[("BG/Scene", b"OggSdata")]);
    let parsed = FvpArchive::parse(bytes, FvpNls::Utf8, 8).unwrap();
    assert_eq!(parsed.entries()[0].name, "bg/scene");
    assert_eq!(parsed.read("bg/scene").unwrap(), b"OggSdata".as_slice());
    let manifest = accept_manifest(
        parsed.manifest("schema.test", "mount.test", "bgm", Hash256::from_sha256(b"reader")),
        true,
    )
    .unwrap();
    assert_eq!(manifest.entries[0].media_kind, "audio.ogg");
    assert!(manifest.entries[0].uri.contains("bg/scene"));
}

#[test]
fn archive_rejects_duplicate_case_folded_names_and_unsafe_paths() {
    let duplicate = archive(&[("Scene", b"a"), ("scene", b"b")]);
    assert_eq!(
        FvpArchive::parse(duplicate, FvpNls::Utf8, 8).unwrap_err().code(),
        "ASTRA_FVP_ARCHIVE_NAME_DUPLICATE"
    );
    let traversal = archive(&[("../scene", b"a")]);
    assert_eq!(
        FvpArchive::parse(traversal, FvpNls::Utf8, 8).unwrap_err().code(),
        "ASTRA_FVP_ARCHIVE_NAME"
    );
}

#[test]
fn single_pass_audit_rejects_overlapping_entry_ranges() {
    let mut bytes = archive(&[("one", b"1111"), ("two", b"2222")]);
    let first_offset = bytes[12..16].to_vec();
    bytes[24..28].copy_from_slice(&first_offset);
    let archive = open_source(&bytes, MAX_RANGE);
    assert_eq!(
        audit_archive(&archive, MAX_RANGE).err().unwrap().code(),
        "ASTRA_EMU_FVP_ENTRY_OVERLAP"
    );
}

#[test]
fn audit_sees_every_byte_in_pieces() {
    let bytes = archive(&[("one", b"hzc1-one"), ("two", b"RIFFtwo")]);
    let archive = open_source(&bytes, MAX_RANGE);
    let mut audit = audit_archive(&archive, 5).unwrap();
    let mut reads = 0;
    while let Some(range) = audit.request() {
        assert!(range.len <= 5);
        audit.accept(&piece(&bytes, range));
        reads += 1;
    }
    assert_eq!(reads, bytes.len().div_ceil(5));
    let (hash, entries) = audit.finish().unwrap();
    assert_eq!(hash.to_hex(), Hash256::from_sha256(&bytes).to_hex());
    assert_eq!(entries.len(), 2);
    assert_eq!(entries[0].hash.to_hex(), Hash256::from_sha256(b"hzc1-one").to_hex());
    assert_eq!(entries[1].hash.to_hex(), Hash256::from_sha256(b"RIFFtwo").to_hex());
    assert_eq!(classify(&entries[0].magic), "image.hzc1");
    assert_eq!(classify(&entries[1].magic), "audio.riff");
}

#[test]
fn opening_a_source_equals_parsing_it() {
    let bytes = archive(&[("A/B", b"one"), ("c", b"two!")]);
    let whole = FvpArchive::parse(bytes.clone(), FvpNls::Utf8, MAX_ENTRIES).unwrap();
    let pieces = open_source(&bytes, MAX_RANGE);
    assert!(matches!(pieces.storage, ArchiveStorage::Source { .. }));
    assert_eq!(whole.entries().len(), pieces.entries().len());
    for (a, b) in whole.entries().iter().zip(pieces.entries()) {
        assert_eq!((a.name.as_str(), a.offset, a.size), (b.name.as_str(), b.offset, b.size));
    }
    assert_eq!(pieces.stat(), ByteSourceStat { len: bytes.len() as u64, revision: 7 });
}

#[test]
fn opening_through_a_host_keeps_its_address() {
    let bytes = archive(&[("a", b"one")]);
    let stat = ByteSourceStat { len: bytes.len() as u64, revision: 1 };
    let mut opening = ArchiveOpening::begin(stat, MAX_RANGE).unwrap();
    while let Some(range) = opening.request() {
        opening = opening.accept(&piece(&bytes, range)).unwrap();
    }
    let archive = opening
        .open_host("mount".to_string(), "pack.bin".to_string(), FvpNls::Utf8, MAX_ENTRIES)
        .unwrap();
    match &archive.storage {
        ArchiveStorage::Host { mount_set_id, uri, stat } => {
            assert_eq!(mount_set_id, "mount");
            assert_eq!(uri, "pack.bin");
            assert_eq!(stat.len, bytes.len() as u64);
        }
        _ => panic!("archive must stay with its host"),
    }
    let mut read = archive.read_remote("a", 2).unwrap();
    while let Some(range) = read.request() {
        assert!(range.len <= 2);
        read.accept(&piece(&bytes, range));
    }
    assert_eq!(read.bytes, b"one");
}

#[test]
fn short_and_oversized_archives_are_refused() {
    for bytes in [vec![], vec![0u8; 7]] {
        assert!(FvpArchive::parse(bytes, FvpNls::Utf8, 8).is_err());
    }
    let two = archive(&[("a", b"1"), ("b", b"2")]);
    assert!(FvpArchive::parse(two.clone(), FvpNls::Utf8, 1).is_err());
    assert!(FvpArchive::parse(two, FvpNls::Utf8, 2).is_ok());
    let mut cut = archive(&[("a", b"1234")]);
    cut.truncate(cut.len() - 1);
    assert!(FvpArchive::parse(cut, FvpNls::Utf8, 8).is_err());
    assert!(metadata_len(&[0u8; 8], 4).is_err());
}

#[test]
fn missing_entries_are_refused() {
    let bytes = archive(&[("a", b"1")]);
    let parsed = FvpArchive::parse(bytes, FvpNls::Utf8, 8).unwrap();
    assert!(parsed.read("b").is_err());
    assert!(parsed.entry(1).is_none());
    assert_eq!(parsed.entry(0).unwrap().size, 1);
    assert_eq!(parsed.locate("a").unwrap().len, 1);
}

#[test]
fn names_are_stable_once_normal() {
    let once = normalize_name("BG\\Scene.PNG").unwrap();
    assert_eq!(once, "bg/scene.png");
    assert_eq!(normalize_name(&once).unwrap(), once);
    for bad in ["", "/a", "a/", "a//b", "a/./b", "a/../b", "c:/a"] {
        assert!(normalize_name(bad).is_err());
    }
}

#[test]
fn identity_is_the_same_whole_and_in_pieces() {
    let bytes = archive(&[("a", b"12345"), ("b", b"67")]);
    let parsed = FvpArchive::parse(bytes.clone(), FvpNls::Utf8, 8).unwrap();
    let (len, hash) = parsed.audit_identity();
    let mut audit = IdentityAudit::begin(bytes.len() as u64, 7, 3);
    while let Some(range) = audit.request() {
        audit.accept(&piece(&bytes, range));
    }
    let (piece_len, piece_hash) = audit.finish();
    assert_eq!(len, piece_len);
    assert_eq!(len, bytes.len() as u64);
    assert_eq!(hash.to_hex(), piece_hash.to_hex());
    assert_eq!(hash.to_hex(), Hash256::from_sha256(&bytes).to_hex());
}

#[test]
fn manifest_names_entries_and_source() {
    let bytes = archive(&[("A/B", b"\x30\x26\xb2\x75video"), ("c", b"plain")]);
    let parsed = FvpArchive::parse(bytes.clone(), FvpNls::Utf8, 8).unwrap();
    let manifest = parsed.manifest("schema", "mount", "movie", Hash256::zero());
    assert_eq!(manifest.entries[0].uri, "fvp:/movie/a/b");
    assert_eq!(manifest.entries[0].entry_id, "movie:a/b");
    assert_eq!(manifest.entries[0].media_kind, "video.asf");
    assert_eq!(manifest.entries[1].media_kind, "application.octet_stream");
    assert_eq!(
        manifest.entries[1].source_hash.to_hex(),
        Hash256::from_sha256(b"plain").to_hex()
    );
    assert_eq!(manifest.sources[0].byte_size, bytes.len() as u64);
    assert_eq!(
        manifest.private_profile_hash.to_hex(),
        Hash256::from_sha256(b"astra.emu.fvp.no_private_profile").to_hex()
    );
    assert!(accept_manifest(manifest, false).is_err());
}

#[test]
fn bounded_reads_join_to_the_range() {
    let data: Vec<u8> = (0..100u8).collect();
    let stat = ByteSourceStat { len: 100, revision: 1 };
    let mut read = RangeRead::begin(stat, ByteRange { offset: 10, len: 25 }, 8).unwrap();
    while let Some(range) = read.request() {
        read.accept(&piece(&data, range));
    }
    assert_eq!(read.bytes, data[10..35]);
    assert!(RangeRead::begin(stat, ByteRange { offset: 90, len: 11 }, 8).is_err());
    assert!(RangeRead::begin(stat, ByteRange { offset: u64::MAX, len: 1 }, 8).is_err());
}

#[test]
fn source_errors_have_their_codes() {
    let codes = [
        (ByteSourceError::RangeLimit, "ASTRA_EMU_VFS_READ_LIMIT"),
        (ByteSourceError::RangeOverflow, "ASTRA_EMU_VFS_READ_OVERFLOW"),
        (ByteSourceError::RangeBounds, "ASTRA_EMU_VFS_READ_BOUNDS"),
        (ByteSourceError::RevisionMismatch, "ASTRA_EMU_VFS_SOURCE_CHANGED"),
        (ByteSourceError::ShortRead, "ASTRA_EMU_VFS_SHORT_READ"),
        (ByteSourceError::Poisoned, "ASTRA_EMU_VFS_SOURCE_POISONED"),
        (ByteSourceError::Io, "ASTRA_EMU_VFS_SOURCE_IO"),
    ];
    for (error, code) in codes {
        assert_eq!(archive_source_error(error).code(), code);
        assert_eq!(audit_source_error(error).code(), code);
        assert_eq!(vfs_source_error(error).code(), code);
    }
    assert_eq!(
        vfs_source_error(ByteSourceError::Io).message(),
        "FVP bounded archive source operation failed"
    );
}

#[test]
fn digests_are_sha256() {
    assert_eq!(
        Hash256::from_sha256(b"abc").to_hex(),
        "ba7816bf8f01cfea414140de5dae2223b00361a396177a9cb410ff61f20015ad"
    );
    assert!(Hash256::from_sha256(b"a").same(&Hash256::from_sha256(b"a")));
    assert!(!Hash256::from_sha256(b"a").same(&Hash256::from_sha256(b"b")));
    assert!(Hash256::from_bytes([0; 32]).same(&Hash256::zero()));
}
