//! The mounted file system of a title: its archives under one tree of names.
//!
//! Archives are opened and read by the host. The host also judges addresses with
//! rules of its own; a verdict is `None` for an address that it accepts and its
//! failure for one that it refuses.

use vstd::prelude::*;

use crate::archive::{ArchiveStorage, EntryView, FvpArchive};
use crate::audit::{EntryAudit, EntryAuditView};
use crate::digest::Hash256;
use crate::fault::{Fault, LegacyCoreError};
use crate::manifest::{
    LegacyPackManifest, LegacyVfsEntry, LegacyVfsSource, ManifestView, VfsEntryView, VfsSourceView,
};
use crate::names::NameMap;
use crate::nls::FvpNls;
use crate::source::{ByteRange, ByteSourceError, ByteSourceStat};
use crate::text;

verus! {

pub const FVP_FAMILY_OPTIONS_SCHEMA: &'static str = "astra.emu.fvp_vfs_options.v1";

pub const FVP_READER_ID: &'static str = "astra.emu.fvp.bin.v2";

pub const FVP_DECRYPT_PROVIDER_ID: &'static str = "astra.emu.fvp.raw.v1";

/// Archives that a mount may have.
pub const MAX_ARCHIVES: usize = 4096;

/// Entries that an archive or a mount may have.
pub const MAX_ENTRIES: usize = 10_000_000;

/// Bytes that the role of an archive may have.
pub const MAX_ROLE_BYTES: usize = 128;

// ------------------------------------------------------------------------- roles

/// Whether nothing but segments that name the place they stand at, empty ones and
/// `.`, follow the `/` at `at`.
pub open spec fn only_here(s: Seq<char>, at: int) -> bool
    decreases s.len() - at,
{
    if at < 0 || at >= s.len() {
        true
    } else {
        let end = text::first_place(s, '/', at + 1);
        proof {
            text::lemma_first_place(s, '/', at + 1);
        }
        (end == at + 1 || (end == at + 2 && s[at + 1] == '.')) && only_here(s, end)
    }
}

/// The file that a path names, if it is a file of the place where the path starts.
pub open spec fn sole_name(path: Seq<char>) -> Option<Seq<char>> {
    let end = text::first_place(path, '/', 0);
    let name = path.subrange(0, end);
    if text::is_relative_segment(name) || !only_here(path, end) {
        None
    } else {
        Some(name)
    }
}

/// The last place of a dot in a file name that splits it into stem and extension. A
/// leading dot splits nothing.
pub open spec fn extension_dot(name: Seq<char>) -> Option<int> {
    match crate::hosted_host::last_place(name, '.', name.len() as int) {
        Some(i) if i > 0 => Some(i),
        _ => None,
    }
}

/// A character that a role may have.
pub open spec fn role_char(c: char) -> bool {
    ||| 'a' <= c && c <= 'z'
    ||| 'A' <= c && c <= 'Z'
    ||| '0' <= c && c <= '9'
    ||| c == '.'
    ||| c == '_'
    ||| c == '-'
}

pub open spec fn role_valid(role: Seq<char>) -> bool {
    &&& role.len() > 0
    &&& text::byte_len(role) <= MAX_ROLE_BYTES
    &&& forall|i: int| 0 <= i < role.len() ==> role_char(#[trigger] role[i])
}

/// The role of an archive: the small letters of its file name without `.bin`.
pub open spec fn role_of(archive: Seq<char>) -> Result<Seq<char>, Fault> {
    let bad_path = crate::fault::fault(
        "ASTRA_EMU_FVP_ARCHIVE_PATH",
        "FVP archive must be a normalized root-relative .bin file",
    );
    match sole_name(archive) {
        None => Err(bad_path),
        Some(name) => match extension_dot(name) {
            None => Err(bad_path),
            Some(dot) => {
                let role = text::lower(name.subrange(0, dot));
                if text::lower(name.subrange(dot + 1, name.len() as int)) != "bin"@ {
                    Err(bad_path)
                } else if !role_valid(role) {
                    Err(
                        crate::fault::fault(
                            "ASTRA_EMU_FVP_ARCHIVE_ROLE",
                            "FVP archive role is invalid",
                        ),
                    )
                } else {
                    Ok(role)
                }
            },
        },
    }
}

fn nothing_further(v: &Vec<char>, at: usize) -> (r: bool)
    requires
        at <= v@.len(),
    ensures
        r == only_here(v@, at as int),
{
    let mut i: usize = at;
    while i < v.len()
        invariant
            i <= v@.len(),
            only_here(v@, at as int) == only_here(v@, i as int),
        decreases v@.len() - i,
    {
        let end: usize = text::find_first(v, '/', i + 1);
        if !(end == i + 1 || (end - i == 2 && v[i + 1] == '.')) {
            return false;
        }
        i = end;
    }
    true
}

fn path_error() -> (r: LegacyCoreError)
    ensures
        r@ == crate::fault::fault(
            "ASTRA_EMU_FVP_ARCHIVE_PATH",
            "FVP archive must be a normalized root-relative .bin file",
        ),
{
    LegacyCoreError::invalid(
        "ASTRA_EMU_FVP_ARCHIVE_PATH",
        "FVP archive must be a normalized root-relative .bin file",
    )
}

fn is_role(v: &Vec<char>, role: &str) -> (r: bool)
    requires
        role@ == v@,
    ensures
        r == role_valid(v@),
{
    if v.len() == 0 || text::byte_length(role) > MAX_ROLE_BYTES {
        return false;
    }
    let mut i: usize = 0;
    while i < v.len()
        invariant
            i <= v@.len(),
            forall|j: int| 0 <= j < i ==> role_char(#[trigger] v@[j]),
        decreases v@.len() - i,
    {
        let c = v[i];
        if !(('a' <= c && c <= 'z') || ('A' <= c && c <= 'Z') || ('0' <= c && c <= '9') || c == '.'
            || c == '_' || c == '-') {
            assert(!role_char(v@[i as int]));
            return false;
        }
        i = i + 1;
    }
    true
}

/// The role of an archive.
pub fn archive_role(archive: &str) -> (r: Result<String, LegacyCoreError>)
    ensures
        match role_of(archive@) {
            Ok(role) => r is Ok && r->Ok_0@ == role,
            Err(f) => r is Err && r->Err_0@ == f,
        },
{
    let v = text::chars_of(archive);
    let end: usize = text::find_first(&v, '/', 0);
    let name = text::slice_chars(&v, 0, end);
    let relative = name.len() == 0 || (name.len() == 1 && name[0] == '.') || (name.len() == 2
        && name[0] == '.' && name[1] == '.');
    if relative || !nothing_further(&v, end) {
        return Err(path_error());
    }
    let dot: usize = match crate::hosted_host::find_last(&name, '.') {
        Some(i) => i,
        None => return Err(path_error()),
    };
    if dot == 0 {
        return Err(path_error());
    }
    let extension = text::string_of(
        &text::to_lower(&text::slice_chars(&name, dot + 1, name.len())),
    );
    if !text::same_text(extension.as_str(), "bin") {
        return Err(path_error());
    }
    let small = text::to_lower(&text::slice_chars(&name, 0, dot));
    let role = text::string_of(&small);
    if !is_role(&small, role.as_str()) {
        return Err(
            LegacyCoreError::invalid("ASTRA_EMU_FVP_ARCHIVE_ROLE", "FVP archive role is invalid"),
        );
    }
    Ok(role)
}

// ----------------------------------------------------------------------- options

/// How a title is mounted.
#[derive(Debug)]
pub struct FvpVfsFamilyOptions {
    pub nls: FvpNls,
    pub archives: Vec<String>,
    pub max_entries_per_archive: usize,
}

/// What is wrong with the archives from `i` on, if anything is, when the roles in
/// `seen` are taken.
pub open spec fn roles_fault(archives: Seq<String>, i: int, seen: Set<Seq<char>>) -> Option<Fault>
    decreases archives.len() - i,
{
    if i >= archives.len() {
        None
    } else {
        match role_of(archives[i]@) {
            Err(f) => Some(f),
            Ok(role) => if seen.contains(role) {
                Some(
                    crate::fault::fault(
                        "ASTRA_EMU_FVP_ARCHIVE_DUPLICATE",
                        "FVP archive role is duplicated",
                    ),
                )
            } else {
                roles_fault(archives, i + 1, seen.insert(role))
            },
        }
    }
}

/// What is wrong with mount options, if anything is.
pub open spec fn options_fault(options: FvpVfsFamilyOptions) -> Option<Fault> {
    if options.archives@.len() == 0 || options.archives@.len() > MAX_ARCHIVES
        || options.max_entries_per_archive == 0 || options.max_entries_per_archive > MAX_ENTRIES {
        Some(
            crate::fault::fault(
                "ASTRA_EMU_FVP_MOUNT_OPTIONS",
                "FVP archive count or entry budget is outside the supported bounds",
            ),
        )
    } else {
        roles_fault(options.archives@, 0, Set::empty())
    }
}

/// Holds mount options to their bounds: some archives, each with a role of its own.
pub fn validate_options(options: &FvpVfsFamilyOptions) -> (r: Result<(), LegacyCoreError>)
    ensures
        match options_fault(*options) {
            None => r is Ok,
            Some(f) => r is Err && r->Err_0@ == f,
        },
{
    if options.archives.len() == 0 || options.archives.len() > MAX_ARCHIVES
        || options.max_entries_per_archive == 0 || options.max_entries_per_archive > MAX_ENTRIES {
        return Err(
            LegacyCoreError::invalid(
                "ASTRA_EMU_FVP_MOUNT_OPTIONS",
                "FVP archive count or entry budget is outside the supported bounds",
            ),
        );
    }
    let mut roles: NameMap<()> = NameMap::new();
    let mut i: usize = 0;
    assert(roles@.dom() =~= Set::empty());
    while i < options.archives.len()
        invariant
            roles.wf(),
            i <= options.archives@.len(),
            0 < options.archives@.len() <= MAX_ARCHIVES,
            0 < options.max_entries_per_archive <= MAX_ENTRIES,
            roles_fault(options.archives@, 0, Set::empty()) == roles_fault(
                options.archives@,
                i as int,
                roles@.dom(),
            ),
        decreases options.archives@.len() - i,
    {
        let role = match archive_role(options.archives[i].as_str()) {
            Ok(v) => v,
            Err(e) => return Err(e),
        };
        let ghost name = role@;
        let ghost before = roles@;
        if !roles.insert_new(role, ()) {
            return Err(
                LegacyCoreError::invalid(
                    "ASTRA_EMU_FVP_ARCHIVE_DUPLICATE",
                    "FVP archive role is duplicated",
                ),
            );
        }
        assert(roles@.dom() =~= before.dom().insert(name));
        i = i + 1;
    }
    Ok(())
}

/// What a mount is asked for.
#[derive(Debug)]
pub struct MountContext {
    pub mount_id: String,
    pub prefix: String,
    pub profile_hash: Hash256,
    pub schema_id: String,
    pub schema_hash: Hash256,
    /// A private patch is named, which this family does not take.
    pub private_patch: bool,
}

/// Whether a mount is asked for in the form of this family.
pub open spec fn profile_ok(context: MountContext) -> bool {
    &&& context.schema_id@ == FVP_FAMILY_OPTIONS_SCHEMA@
    &&& context.schema_hash@ == crate::digest::sha256_of(
        vstd::utf8::encode_utf8(FVP_FAMILY_OPTIONS_SCHEMA@),
    )
    &&& context.prefix@ == "fvp:/"@
    &&& !context.private_patch
}

/// The family of mounts.
#[derive(Debug, Clone, Copy)]
pub struct FvpVfsFamilyFactory;

impl Default for FvpVfsFamilyFactory {
    fn default() -> (r: Self)
        ensures
            r == FvpVfsFamilyFactory,
    {
        FvpVfsFamilyFactory
    }
}

impl FvpVfsFamilyFactory {
    pub fn family_id(&self) -> (r: &'static str)
        ensures
            r@ == "fvp"@,
    {
        "fvp"
    }

    pub fn mount_profile_schema_id(&self) -> (r: &'static str)
        ensures
            r@ == FVP_FAMILY_OPTIONS_SCHEMA@,
    {
        FVP_FAMILY_OPTIONS_SCHEMA
    }

    pub fn mount_profile_schema_hash(&self) -> (r: Hash256)
        ensures
            r@ == crate::digest::sha256_of(vstd::utf8::encode_utf8(FVP_FAMILY_OPTIONS_SCHEMA@)),
    {
        Hash256::from_sha256(FVP_FAMILY_OPTIONS_SCHEMA.as_bytes())
    }

    pub fn decrypt_provider_id(&self) -> (r: &'static str)
        ensures
            r@ == FVP_DECRYPT_PROVIDER_ID@,
    {
        FVP_DECRYPT_PROVIDER_ID
    }

    /// The first part of a mount: the request and the options are held to the form
    /// of this family. `options` is what was read from the request.
    pub fn begin_mount(&self, context: MountContext, options: Option<FvpVfsFamilyOptions>) -> (r: Result<
        FvpMount,
        LegacyCoreError,
    >)
        ensures
            if !profile_ok(context) {
                r is Err && r->Err_0@ == crate::fault::fault(
                    "ASTRA_EMU_FVP_MOUNT_PROFILE",
                    "FVP mount identity, options schema, or no-patch policy is invalid",
                )
            } else {
                match options {
                    None => r is Err && r->Err_0@ == crate::fault::fault(
                        "ASTRA_EMU_FVP_MOUNT_OPTIONS",
                        "FVP family options are invalid",
                    ),
                    Some(o) => match options_fault(o) {
                        Some(f) => r is Err && r->Err_0@ == f,
                        None => {
                            &&& r is Ok
                            &&& r->Ok_0.wf()
                            &&& r->Ok_0.options == o
                            &&& r->Ok_0@ == (MountView {
                                mount_id: context.mount_id@,
                                prefix: context.prefix@,
                                profile_hash: context.profile_hash@,
                                archives: Seq::empty(),
                                ids: Set::empty(),
                                entries: Map::empty(),
                            })
                        },
                    },
                }
            },
    {
        if !text::same_text(context.schema_id.as_str(), FVP_FAMILY_OPTIONS_SCHEMA)
            || !context.schema_hash.same(&self.mount_profile_schema_hash()) || !text::same_text(
            context.prefix.as_str(),
            "fvp:/",
        ) || context.private_patch {
            return Err(
                LegacyCoreError::invalid(
                    "ASTRA_EMU_FVP_MOUNT_PROFILE",
                    "FVP mount identity, options schema, or no-patch policy is invalid",
                ),
            );
        }
        let options = match options {
            Some(v) => v,
            None => return Err(
                LegacyCoreError::invalid(
                    "ASTRA_EMU_FVP_MOUNT_OPTIONS",
                    "FVP family options are invalid",
                ),
            ),
        };
        match validate_options(&options) {
            Ok(_) => {},
            Err(e) => return Err(e),
        }
        let mount = FvpMount {
            mount_id: context.mount_id,
            prefix: context.prefix,
            profile_hash: context.profile_hash,
            options,
            archives: Vec::new(),
            ids: NameMap::new(),
            entries: NameMap::new(),
        };
        proof {
            assert(mount@.archives =~= Seq::empty());
            assert(mount@.ids =~= Set::empty());
            assert(mount@.entries =~= Map::empty());
        }
        Ok(mount)
    }
}

// ------------------------------------------------------------------------- mount

/// An archive of a mount.
#[derive(Debug)]
pub struct MountedArchive {
    pub role: String,
    pub source_hash: Hash256,
    pub archive: FvpArchive,
}

#[verifier::ext_equal]
pub struct ArchiveView {
    pub role: Seq<char>,
    pub source_hash: Seq<u8>,
    pub stat: ByteSourceStat,
    pub entries: Seq<EntryView>,
    /// The archive is read through the host.
    pub readable: bool,
}

impl MountedArchive {
    pub open spec fn view(&self) -> ArchiveView {
        ArchiveView {
            role: self.role@,
            source_hash: self.source_hash@,
            stat: self.archive.stat_view(),
            entries: self.archive.listing(),
            readable: self.archive.storage is Source,
        }
    }
}

pub open spec fn archive_views(s: Seq<MountedArchive>) -> Seq<ArchiveView> {
    Seq::new(s.len(), |i: int| s[i]@)
}

/// A file of a mount.
#[derive(Debug)]
pub struct MountedEntry {
    pub archive_index: usize,
    pub entry_index: usize,
    pub entry_id: String,
    pub role: String,
    pub size: u64,
    pub content_hash: Hash256,
    pub media_kind: String,
}

#[verifier::ext_equal]
pub struct FileView {
    pub archive_index: int,
    pub entry_index: int,
    pub entry_id: Seq<char>,
    pub role: Seq<char>,
    pub size: u64,
    pub content_hash: Seq<u8>,
    pub media_kind: Seq<char>,
}

impl MountedEntry {
    pub open spec fn view(&self) -> FileView {
        FileView {
            archive_index: self.archive_index as int,
            entry_index: self.entry_index as int,
            entry_id: self.entry_id@,
            role: self.role@,
            size: self.size,
            content_hash: self.content_hash@,
            media_kind: self.media_kind@,
        }
    }
}

/// The files of a table by their addresses.
pub open spec fn file_views(entries: NameMap<MountedEntry>) -> Map<Seq<char>, FileView> {
    Map::new(
        |uri: Seq<char>| entries@.contains_key(uri),
        |uri: Seq<char>| entries@[uri]@,
    )
}

/// A mount that takes in its archives.
#[derive(Debug)]
pub struct FvpMount {
    pub mount_id: String,
    pub prefix: String,
    pub profile_hash: Hash256,
    pub options: FvpVfsFamilyOptions,
    pub archives: Vec<MountedArchive>,
    pub ids: NameMap<()>,
    pub entries: NameMap<MountedEntry>,
}

#[verifier::ext_equal]
pub struct MountView {
    pub mount_id: Seq<char>,
    pub prefix: Seq<char>,
    pub profile_hash: Seq<u8>,
    pub archives: Seq<ArchiveView>,
    pub ids: Set<Seq<char>>,
    pub entries: Map<Seq<char>, FileView>,
}

/// Whether a file lies in one of the archives.
pub open spec fn file_ok(archives: Seq<ArchiveView>, file: FileView) -> bool {
    &&& 0 <= file.archive_index < archives.len()
    &&& 0 <= file.entry_index < archives[file.archive_index].entries.len()
    &&& file.size == archives[file.archive_index].entries[file.entry_index].size
    &&& file.role == archives[file.archive_index].role
}

pub open spec fn files_ok(archives: Seq<ArchiveView>, files: Map<Seq<char>, FileView>) -> bool {
    forall|uri: Seq<char>| #[trigger] files.contains_key(uri) ==> file_ok(archives, files[uri])
}

/// The address of an entry.
pub open spec fn entry_uri(prefix: Seq<char>, role: Seq<char>, name: Seq<char>) -> Seq<char> {
    prefix + role + "/"@ + name
}

/// The identity of an entry.
pub open spec fn entry_id(role: Seq<char>, name: Seq<char>) -> Seq<char> {
    role + ":"@ + name
}

/// The file for an entry of the archive at `index`.
pub open spec fn file_of(
    index: int,
    at: int,
    role: Seq<char>,
    entry: EntryView,
    audit: EntryAuditView,
) -> FileView {
    FileView {
        archive_index: index,
        entry_index: at,
        entry_id: entry_id(role, entry.name),
        role,
        size: entry.size,
        content_hash: audit.hash,
        media_kind: crate::archive::media_kind(audit.magic),
    }
}

/// Identities and files with the entries from `i` on of the archive at `index`.
pub open spec fn entries_added(
    prefix: Seq<char>,
    index: int,
    role: Seq<char>,
    entries: Seq<EntryView>,
    audits: Seq<EntryAuditView>,
    verdicts: Seq<Option<LegacyCoreError>>,
    i: int,
    ids: Set<Seq<char>>,
    files: Map<Seq<char>, FileView>,
) -> Result<(Set<Seq<char>>, Map<Seq<char>, FileView>), Fault>
    decreases entries.len() - i,
{
    if i >= entries.len() {
        Ok((ids, files))
    } else if verdicts[i] is Some {
        Err(verdicts[i]->0@)
    } else {
        let uri = entry_uri(prefix, role, entries[i].name);
        let id = entry_id(role, entries[i].name);
        if ids.contains(id) || files.contains_key(uri) {
            Err(
                crate::fault::fault(
                    "ASTRA_EMU_FVP_ENTRY_DUPLICATE",
                    "FVP archive set contains a duplicate URI or entry id",
                ),
            )
        } else {
            entries_added(
                prefix,
                index,
                role,
                entries,
                audits,
                verdicts,
                i + 1,
                ids.insert(id),
                files.insert(uri, file_of(index, i, role, entries[i], audits[i])),
            )
        }
    }
}

/// The mount with the archive of that name: its role is read off the name, and its
/// entries get their addresses.
pub open spec fn archive_added(
    mount: MountView,
    name: Seq<char>,
    archive: ArchiveView,
    audits: Seq<EntryAuditView>,
    verdicts: Seq<Option<LegacyCoreError>>,
) -> Result<MountView, Fault> {
    match role_of(name) {
        Err(f) => Err(f),
        Ok(role) => match entries_added(
            mount.prefix,
            mount.archives.len() as int,
            role,
            archive.entries,
            audits,
            verdicts,
            0,
            mount.ids,
            mount.entries,
        ) {
            Err(f) => Err(f),
            Ok(added) => Ok(
                MountView {
                    archives: mount.archives.push(ArchiveView { role, ..archive }),
                    ids: added.0,
                    entries: added.1,
                    ..mount
                },
            ),
        },
    }
}

/// The failure of an archive whose metadata is wrong, told by its code.
pub fn parse_failure(code: &str) -> (r: LegacyCoreError)
    ensures
        r@ == (Fault {
            code: "ASTRA_EMU_FVP_ARCHIVE_PARSE"@,
            message: "FVP archive metadata is invalid: "@ + code@,
        }),
{
    LegacyCoreError::invalid(
        "ASTRA_EMU_FVP_ARCHIVE_PARSE",
        text::join2("FVP archive metadata is invalid: ", code).as_str(),
    )
}

/// The address of an entry of an archive, for the host to judge.
pub fn entry_address(prefix: &str, role: &str, name: &str) -> (r: String)
    ensures
        r@ == entry_uri(prefix@, role@, name@),
{
    let folder = text::join3(prefix, role, "/");
    text::join2(folder.as_str(), name)
}

impl FvpMount {
    pub open spec fn view(&self) -> MountView {
        MountView {
            mount_id: self.mount_id@,
            prefix: self.prefix@,
            profile_hash: self.profile_hash@,
            archives: archive_views(self.archives@),
            ids: self.ids@.dom(),
            entries: file_views(self.entries),
        }
    }

    pub open spec fn wf(&self) -> bool {
        &&& self.ids.wf()
        &&& self.entries.wf()
        &&& files_ok(self@.archives, self@.entries)
    }

    /// The name of the archive that is taken in next.
    pub open spec fn next_name(&self) -> Seq<char> {
        self.options.archives@[self@.archives.len() as int]@
    }

    /// The archive that is to be opened next; `None` when all of them were taken in.
    pub fn next_archive(&self) -> (r: Option<&str>)
        ensures
            match r {
                Some(name) => {
                    &&& self@.archives.len() < self.options.archives@.len()
                    &&& name@ == self.next_name()
                },
                None => self@.archives.len() >= self.options.archives@.len(),
            },
    {
        let at: usize = self.archives.len();
        if at < self.options.archives.len() {
            Some(self.options.archives[at].as_str())
        } else {
            None
        }
    }

    /// The addresses of the entries of the next archive, for the host to judge.
    pub fn addresses(&self, archive: &FvpArchive) -> (r: Result<Vec<String>, LegacyCoreError>)
        requires
            self@.archives.len() < self.options.archives@.len(),
        ensures
            match role_of(self.next_name()) {
                Err(f) => r is Err && r->Err_0@ == f,
                Ok(role) => {
                    &&& r is Ok
                    &&& text::texts(r->Ok_0@) == Seq::new(
                        archive.listing().len(),
                        |i: int| entry_uri(self@.prefix, role, archive.listing()[i].name),
                    )
                },
            },
    {
        let role = match archive_role(self.options.archives[self.archives.len()].as_str()) {
            Ok(v) => v,
            Err(e) => return Err(e),
        };
        let ghost listing = archive.listing();
        let ghost expected = Seq::new(
            listing.len(),
            |i: int| entry_uri(self@.prefix, role@, listing[i].name),
        );
        let mut r: Vec<String> = Vec::new();
        let mut i: usize = 0;
        while i < archive.entries.len()
            invariant
                i <= archive.entries@.len(),
                listing == archive.listing(),
                expected == Seq::new(
                    listing.len(),
                    |i: int| entry_uri(self@.prefix, role@, listing[i].name),
                ),
                text::texts(r@) =~= expected.subrange(0, i as int),
            decreases archive.entries@.len() - i,
        {
            let entry = &archive.entries[i];
            assert(listing[i as int] == entry@);
            let uri = entry_address(self.prefix.as_str(), role.as_str(), entry.name.as_str());
            let ghost before = text::texts(r@);
            r.push(uri);
            assert(text::texts(r@) =~= before.push(uri@));
            i = i + 1;
        }
        assert(text::texts(r@) =~= expected);
        Ok(r)
    }

    /// Takes in the next archive, which was opened and audited, with the host's
    /// verdicts on the addresses of its entries.
    pub fn add_archive(
        self,
        archive: FvpArchive,
        source_hash: Hash256,
        audits: &Vec<EntryAudit>,
        verdicts: &Vec<Option<LegacyCoreError>>,
    ) -> (r: Result<Self, LegacyCoreError>)
        requires
            self.wf(),
            self@.archives.len() < self.options.archives@.len(),
            audits@.len() == archive.listing().len(),
            verdicts@.len() == archive.listing().len(),
        ensures
            r is Ok ==> r->Ok_0.wf() && r->Ok_0.options == self.options,
            match archive_added(
                self@,
                self.next_name(),
                ArchiveView {
                    role: Seq::empty(),
                    source_hash: source_hash@,
                    stat: archive.stat_view(),
                    entries: archive.listing(),
                    readable: archive.storage is Source,
                },
                crate::audit::audit_views(audits@),
                verdicts@,
            ) {
                Ok(mount) => r is Ok && r->Ok_0@ == mount,
                Err(f) => r is Err && r->Err_0@ == f,
            },
    {
        let role = match archive_role(self.options.archives[self.archives.len()].as_str()) {
            Ok(v) => v,
            Err(e) => return Err(e),
        };
        self.take_in(role, archive, source_hash, audits, verdicts)
    }

    fn take_in(
        self,
        role: String,
        archive: FvpArchive,
        source_hash: Hash256,
        audits: &Vec<EntryAudit>,
        verdicts: &Vec<Option<LegacyCoreError>>,
    ) -> (r: Result<Self, LegacyCoreError>)
        requires
            self.wf(),
            audits@.len() == archive.listing().len(),
            verdicts@.len() == archive.listing().len(),
        ensures
            match entries_added(
                self@.prefix,
                self@.archives.len() as int,
                role@,
                archive.listing(),
                crate::audit::audit_views(audits@),
                verdicts@,
                0,
                self@.ids,
                self@.entries,
            ) {
                Ok(added) => {
                    &&& r is Ok
                    &&& r->Ok_0.wf()
                    &&& r->Ok_0.options == self.options
                    &&& r->Ok_0@ == (MountView {
                        archives: self@.archives.push(
                            ArchiveView {
                                role: role@,
                                source_hash: source_hash@,
                                stat: archive.stat_view(),
                                entries: archive.listing(),
                                readable: archive.storage is Source,
                            },
                        ),
                        ids: added.0,
                        entries: added.1,
                        ..self@
                    })
                },
                Err(f) => r is Err && r->Err_0@ == f,
            },
    {
        let ghost listing = archive.listing();
        let ghost seen = crate::audit::audit_views(audits@);
        let mut mount = self;
        let ghost start = self@;
        let ghost expected = entries_added(
            start.prefix,
            start.archives.len() as int,
            role@,
            listing,
            seen,
            verdicts@,
            0,
            start.ids,
            start.entries,
        );
        let index: usize = mount.archives.len();
        let ghost shown = ArchiveView {
            role: role@,
            source_hash: source_hash@,
            stat: archive.stat_view(),
            entries: listing,
            readable: archive.storage is Source,
        };
        assert(files_ok(start.archives.push(shown), start.entries));
        let mut i: usize = 0;
        while i < archive.entries.len()
            invariant
                i <= archive.entries@.len(),
                listing == archive.listing(),
                seen == crate::audit::audit_views(audits@),
                audits@.len() == listing.len(),
                verdicts@.len() == listing.len(),
                index == start.archives.len(),
                start == self@,
                shown.entries == listing,
                shown.role == role@,
                mount.ids.wf(),
                mount.entries.wf(),
                mount@ == (MountView { ids: mount@.ids, entries: mount@.entries, ..start }),
                mount.archives == self.archives,
                mount.options == self.options,
                files_ok(start.archives.push(shown), mount@.entries),
                expected == entries_added(
                    start.prefix,
                    start.archives.len() as int,
                    role@,
                    listing,
                    seen,
                    verdicts@,
                    0,
                    start.ids,
                    start.entries,
                ),
                expected == entries_added(
                    start.prefix,
                    start.archives.len() as int,
                    role@,
                    listing,
                    seen,
                    verdicts@,
                    i as int,
                    mount@.ids,
                    mount@.entries,
                ),
            decreases archive.entries@.len() - i,
        {
            let entry = &archive.entries[i];
            let audit = &audits[i];
            assert(listing[i as int] == entry@);
            assert(seen[i as int] == audit@);
            match &verdicts[i] {
                Some(e) => {
                    return Err(LegacyCoreError::invalid(e.code(), e.message()));
                },
                None => {},
            }
            let uri = entry_address(mount.prefix.as_str(), role.as_str(), entry.name.as_str());
            let id = text::join3(role.as_str(), ":", entry.name.as_str());
            let ghost before = mount@;
            let ghost uri_text = uri@;
            let ghost id_text = id@;
            if mount.ids.contains(id.as_str()) || mount.entries.contains(uri.as_str()) {
                return Err(
                    LegacyCoreError::invalid(
                        "ASTRA_EMU_FVP_ENTRY_DUPLICATE",
                        "FVP archive set contains a duplicate URI or entry id",
                    ),
                );
            }
            let file = MountedEntry {
                archive_index: index,
                entry_index: i,
                entry_id: text::owned(id.as_str()),
                role: text::owned(role.as_str()),
                size: entry.size,
                content_hash: audit.hash,
                media_kind: text::owned(crate::archive::classify(audit.magic.as_slice())),
            };
            let _ = mount.ids.insert_new(id, ());
            let _ = mount.entries.insert_new(uri, file);
            proof {
                let f = file_of(index as int, i as int, role@, listing[i as int], seen[i as int]);
                assert(file@ =~= f);
                assert(mount@.ids =~= before.ids.insert(id_text));
                assert(mount@.entries =~= before.entries.insert(uri_text, f));
                assert(file_ok(start.archives.push(shown), f));
            }
            i = i + 1;
        }
        let mounted = MountedArchive { role, source_hash, archive };
        assert(mounted@ =~= shown);
        mount.archives.push(mounted);
        assert(mount@.archives =~= start.archives.push(shown));
        Ok(mount)
    }
}

/// The manifest line of a file.
pub open spec fn manifest_line(uri: Seq<char>, file: FileView, archives: Seq<ArchiveView>) -> VfsEntryView {
    VfsEntryView {
        uri,
        entry_id: file.entry_id,
        source_id: file.role,
        source_offset: archives[file.archive_index].entries[file.entry_index].offset,
        stored_size: file.size,
        decoded_size: file.size,
        source_hash: file.content_hash,
        content_hash: Some(file.content_hash),
        method: "raw"@,
        media_kind: file.media_kind,
    }
}

/// The manifest line of an archive.
pub open spec fn source_line(archive: ArchiveView) -> VfsSourceView {
    VfsSourceView {
        source_id: archive.role,
        archive_role: Some(archive.role),
        byte_size: archive.stat.len,
        part_count: 1,
        source_hash: archive.source_hash,
    }
}

/// The digests of the archives from the first to the `n`-th, one behind the other.
pub open spec fn reader_material(archives: Seq<ArchiveView>, n: int) -> Seq<u8>
    decreases n,
{
    if n <= 0 {
        Seq::empty()
    } else {
        reader_material(archives, n - 1) + archives[n - 1].source_hash
    }
}

/// The manifest of a mount whose files have the addresses `uris`.
pub open spec fn mount_manifest(mount: MountView, schema: Seq<char>, uris: Seq<String>) -> ManifestView {
    ManifestView {
        schema,
        family_id: "fvp"@,
        mount_id: mount.mount_id,
        prefix: mount.prefix,
        reader_id: FVP_READER_ID@,
        reader_hash: crate::digest::sha256_of(
            reader_material(mount.archives, mount.archives.len() as int),
        ),
        decrypt_provider_id: FVP_DECRYPT_PROVIDER_ID@,
        private_profile_hash: crate::digest::sha256_of(crate::manifest::no_private_profile()),
        mount_profile_hash: mount.profile_hash,
        sources: Seq::new(mount.archives.len(), |i: int| source_line(mount.archives[i])),
        entries: Seq::new(
            uris.len(),
            |i: int| manifest_line(uris[i]@, mount.entries[uris[i]@], mount.archives),
        ),
    }
}

/// A mounted title.
#[derive(Debug)]
pub struct FvpMountedVfs {
    pub mount_id: String,
    pub prefix: String,
    pub manifest: LegacyPackManifest,
    pub archives: Vec<MountedArchive>,
    pub entries: NameMap<MountedEntry>,
}

#[verifier::ext_equal]
pub struct VfsView {
    pub mount_id: Seq<char>,
    pub prefix: Seq<char>,
    pub archives: Seq<ArchiveView>,
    pub entries: Map<Seq<char>, FileView>,
}

fn source_lines(archives: &Vec<MountedArchive>) -> (r: Vec<LegacyVfsSource>)
    ensures
        crate::manifest::source_views(r@) == Seq::new(
            archives@.len(),
            |i: int| source_line(archive_views(archives@)[i]),
        ),
{
    let ghost expected = Seq::new(
        archives@.len(),
        |i: int| source_line(archive_views(archives@)[i]),
    );
    let mut r: Vec<LegacyVfsSource> = Vec::new();
    let mut i: usize = 0;
    while i < archives.len()
        invariant
            i <= archives@.len(),
            expected == Seq::new(
                archives@.len(),
                |i: int| source_line(archive_views(archives@)[i]),
            ),
            crate::manifest::source_views(r@) =~= expected.subrange(0, i as int),
        decreases archives@.len() - i,
    {
        let a = &archives[i];
        let line = LegacyVfsSource {
            source_id: text::owned(a.role.as_str()),
            archive_role: Some(text::owned(a.role.as_str())),
            byte_size: a.archive.stat().len,
            part_count: 1,
            source_hash: a.source_hash,
        };
        assert(line@ =~= expected[i as int]);
        let ghost before = crate::manifest::source_views(r@);
        r.push(line);
        assert(crate::manifest::source_views(r@) =~= before.push(line@));
        i = i + 1;
    }
    assert(crate::manifest::source_views(r@) =~= expected);
    r
}

fn reader_hash(archives: &Vec<MountedArchive>) -> (r: Hash256)
    ensures
        r@ == crate::digest::sha256_of(
            reader_material(archive_views(archives@), archives@.len() as int),
        ),
{
    let ghost views = archive_views(archives@);
    let mut digest = crate::digest::RunningDigest::new();
    let mut i: usize = 0;
    while i < archives.len()
        invariant
            i <= archives@.len(),
            views == archive_views(archives@),
            crate::digest::absorbed(digest) == reader_material(views, i as int),
        decreases archives@.len() - i,
    {
        assert(views[i as int] == archives@[i as int]@);
        digest.update(&archives[i].source_hash.bytes);
        i = i + 1;
    }
    Hash256::from_bytes(digest.finalize())
}

impl FvpMount {
    fn entry_lines(&self) -> (r: Vec<LegacyVfsEntry>)
        requires
            self.wf(),
        ensures
            crate::manifest::entry_views(r@) == Seq::new(
                self.entries.names@.len(),
                |i: int|
                    manifest_line(
                        self.entries.names@[i]@,
                        self@.entries[self.entries.names@[i]@],
                        self@.archives,
                    ),
            ),
    {
        let ghost uris = self.entries.names@;
        let ghost expected = Seq::new(
            uris.len(),
            |i: int| manifest_line(uris[i]@, self@.entries[uris[i]@], self@.archives),
        );
        let mut r: Vec<LegacyVfsEntry> = Vec::new();
        let mut i: usize = 0;
        while i < self.entries.names.len()
            invariant
                self.wf(),
                i <= uris.len(),
                uris == self.entries.names@,
                expected == Seq::new(
                    uris.len(),
                    |i: int| manifest_line(uris[i]@, self@.entries[uris[i]@], self@.archives),
                ),
                crate::manifest::entry_views(r@) =~= expected.subrange(0, i as int),
            decreases uris.len() - i,
        {
            proof {
                crate::names::lemma_view_entries(self.entries);
                assert(self@.entries.contains_key(uris[i as int]@));
            }
            let file = &self.entries.values[i];
            assert(self@.entries[uris[i as int]@] == file@);
            assert(self@.archives[file.archive_index as int] == self.archives@[file.archive_index as int]@);
            let entry = &self.archives[file.archive_index].archive.entries[file.entry_index];
            let line = LegacyVfsEntry {
                uri: text::owned(self.entries.names[i].as_str()),
                entry_id: text::owned(file.entry_id.as_str()),
                source_id: text::owned(file.role.as_str()),
                source_offset: entry.offset,
                stored_size: file.size,
                decoded_size: file.size,
                source_hash: file.content_hash,
                content_hash: Some(file.content_hash),
                method: text::owned("raw"),
                media_kind: text::owned(file.media_kind.as_str()),
            };
            assert(line@ =~= expected[i as int]);
            let ghost before = crate::manifest::entry_views(r@);
            r.push(line);
            assert(crate::manifest::entry_views(r@) =~= before.push(line@));
            i = i + 1;
        }
        assert(crate::manifest::entry_views(r@) =~= expected);
        r
    }

    /// The last part of a mount, once all archives were taken in: the title with its
    /// manifest, which the host still judges.
    pub fn finish(self, schema: &str) -> (r: FvpMountedVfs)
        requires
            self.wf(),
            self@.archives.len() == self.options.archives@.len(),
        ensures
            r.wf(),
            r@ == (VfsView {
                mount_id: self@.mount_id,
                prefix: self@.prefix,
                archives: self@.archives,
                entries: self@.entries,
            }),
            r.entries == self.entries,
            r.manifest@ == mount_manifest(self@, schema@, self.entries.names@),
    {
        let sources = source_lines(&self.archives);
        let entries = self.entry_lines();
        let manifest = LegacyPackManifest {
            schema: text::owned(schema),
            family_id: text::owned("fvp"),
            mount_id: text::owned(self.mount_id.as_str()),
            prefix: text::owned(self.prefix.as_str()),
            reader_id: text::owned(FVP_READER_ID),
            reader_hash: reader_hash(&self.archives),
            decrypt_provider_id: text::owned(FVP_DECRYPT_PROVIDER_ID),
            private_profile_hash: crate::manifest::no_private_profile_hash(),
            mount_profile_hash: self.profile_hash,
            sources,
            entries,
        };
        assert(manifest@ =~= mount_manifest(self@, schema@, self.entries.names@));
        FvpMountedVfs {
            mount_id: self.mount_id,
            prefix: self.prefix,
            manifest,
            archives: self.archives,
            entries: self.entries,
        }
    }
}

impl FvpMountedVfs {
    pub open spec fn view(&self) -> VfsView {
        VfsView {
            mount_id: self.mount_id@,
            prefix: self.prefix@,
            archives: archive_views(self.archives@),
            entries: file_views(self.entries),
        }
    }

    pub open spec fn wf(&self) -> bool {
        &&& self.entries.wf()
        &&& files_ok(self@.archives, self@.entries)
    }

    pub fn mount_id(&self) -> (r: &str)
        ensures
            r@ == self@.mount_id,
    {
        self.mount_id.as_str()
    }

    pub fn manifest(&self) -> (r: &LegacyPackManifest)
        ensures
            *r == self.manifest,
    {
        &self.manifest
    }
}

// ----------------------------------------------------------------------- listing

#[derive(Debug, Clone, Copy, PartialEq, Eq, Structural)]
pub enum LegacyVfsNodeKind {
    File,
    Directory,
}

/// A child of a directory.
#[derive(Debug)]
pub struct LegacyVfsNode {
    pub uri: String,
    pub name: String,
    pub kind: LegacyVfsNodeKind,
}

/// What is known of an address.
#[derive(Debug)]
pub struct LegacyVfsStat {
    pub uri: String,
    pub entry_id: Option<String>,
    pub kind: LegacyVfsNodeKind,
    pub size: u64,
    pub archive_role: Option<String>,
    pub method: Option<String>,
}

/// A directory address with its closing slash.
pub open spec fn directory_base(uri: Seq<char>) -> Seq<char> {
    if text::has_suffix(uri, "/"@) {
        uri
    } else {
        uri + "/"@
    }
}

/// The child of `base` that leads to `uri`, and its kind; `None` if none does.
pub open spec fn child_of(base: Seq<char>, uri: Seq<char>) -> Option<(Seq<char>, LegacyVfsNodeKind)> {
    if !text::has_prefix(uri, base) {
        None
    } else {
        let suffix = uri.subrange(base.len() as int, uri.len() as int);
        let end = text::first_place(suffix, '/', 0);
        if end == 0 {
            None
        } else {
            Some(
                (
                    suffix.subrange(0, end),
                    if end < suffix.len() {
                        LegacyVfsNodeKind::Directory
                    } else {
                        LegacyVfsNodeKind::File
                    },
                ),
            )
        }
    }
}

/// The children of `base` that lead to the addresses from `i` on, with those in
/// `seen`. The first address that a child leads to tells its kind.
pub open spec fn children(
    uris: Seq<String>,
    base: Seq<char>,
    i: int,
    seen: Map<Seq<char>, LegacyVfsNodeKind>,
) -> Map<Seq<char>, LegacyVfsNodeKind>
    decreases uris.len() - i,
{
    if i >= uris.len() {
        seen
    } else {
        match child_of(base, uris[i]@) {
            Some(child) if !seen.contains_key(child.0) => children(
                uris,
                base,
                i + 1,
                seen.insert(child.0, child.1),
            ),
            _ => children(uris, base, i + 1, seen),
        }
    }
}

/// Whether `nodes` are the children `found` of `base`, each once and in the order of
/// their names.
pub open spec fn lists(
    nodes: Seq<LegacyVfsNode>,
    base: Seq<char>,
    found: Map<Seq<char>, LegacyVfsNodeKind>,
) -> bool {
    &&& forall|i: int, j: int|
        0 <= i < j < nodes.len() ==> crate::names::text_lt(
            (#[trigger] nodes[i]).name@,
            (#[trigger] nodes[j]).name@,
        )
    &&& forall|i: int|
        0 <= i < nodes.len() ==> {
            &&& found.contains_key((#[trigger] nodes[i]).name@)
            &&& nodes[i].kind == found[nodes[i].name@]
            &&& nodes[i].uri@ == base + nodes[i].name@
        }
    &&& forall|name: Seq<char>| #[trigger]
        found.contains_key(name) ==> exists|i: int|
            0 <= i < nodes.len() && (#[trigger] nodes[i]).name@ == name
}

/// The address without the slashes at its end.
pub open spec fn without_slashes(uri: Seq<char>) -> Seq<char>
    decreases uri.len(),
{
    if uri.len() > 0 && uri.last() == '/' {
        without_slashes(uri.drop_last())
    } else {
        uri
    }
}

/// Whether an address is a directory: the root, or one that an address lies below.
pub open spec fn is_directory(vfs: VfsView, uri: Seq<char>) -> bool {
    ||| uri == vfs.prefix
    ||| exists|file: Seq<char>|
        vfs.entries.contains_key(file) && #[trigger] text::has_prefix(
            file,
            without_slashes(uri) + "/"@,
        )
}

fn strip_slashes(uri: &str) -> (r: String)
    ensures
        r@ == without_slashes(uri@),
{
    let v = text::chars_of(uri);
    let mut end: usize = v.len();
    assert(v@.subrange(0, end as int) =~= v@);
    while end > 0 && v[end - 1] == '/'
        invariant
            end <= v@.len(),
            without_slashes(v@) == without_slashes(v@.subrange(0, end as int)),
        decreases end,
    {
        assert(v@.subrange(0, end as int).drop_last() =~= v@.subrange(0, end - 1));
        end = end - 1;
    }
    text::string_of_range(&v, 0, end)
}

fn not_found(message: &str) -> (r: LegacyCoreError)
    ensures
        r@ == (Fault { code: "ASTRA_EMU_VFS_NOT_FOUND"@, message: message@ }),
{
    LegacyCoreError::invalid("ASTRA_EMU_VFS_NOT_FOUND", message)
}

/// The failure of a verdict, as an error of its own.
fn refusal_of(verdict: &Option<LegacyCoreError>) -> (r: Option<LegacyCoreError>)
    ensures
        match *verdict {
            Some(e) => r is Some && r->0@ == e@,
            None => r is None,
        },
{
    match verdict {
        Some(e) => Some(LegacyCoreError::invalid(e.code(), e.message())),
        None => None,
    }
}

/// The file under an address, with the host's verdict on the address.
pub open spec fn found_file(vfs: VfsView, uri: Seq<char>, verdict: Option<LegacyCoreError>) -> Result<
    FileView,
    Fault,
> {
    match verdict {
        Some(e) => Err(e@),
        None => if vfs.entries.contains_key(uri) {
            Ok(vfs.entries[uri])
        } else {
            Err(crate::fault::fault("ASTRA_EMU_VFS_NOT_FOUND", "FVP VFS entry was not found"))
        },
    }
}

impl FvpMountedVfs {
    /// The file under an address.
    pub fn entry(&self, uri: &str, verdict: &Option<LegacyCoreError>) -> (r: Result<
        &MountedEntry,
        LegacyCoreError,
    >)
        requires
            self.wf(),
        ensures
            match found_file(self@, uri@, *verdict) {
                Ok(file) => r is Ok && r->Ok_0@ == file && file_ok(self@.archives, file),
                Err(f) => r is Err && r->Err_0@ == f,
            },
    {
        match refusal_of(verdict) {
            Some(e) => return Err(e),
            None => {},
        }
        match self.entries.get(uri) {
            Some(entry) => {
                assert(self@.entries.contains_key(uri@));
                Ok(entry)
            },
            None => Err(not_found("FVP VFS entry was not found")),
        }
    }

    /// The children of a directory. The root may be empty; another directory has at
    /// least one child.
    pub fn read_dir(&self, uri: &str, verdict: &Option<LegacyCoreError>) -> (r: Result<
        Vec<LegacyVfsNode>,
        LegacyCoreError,
    >)
        requires
            self.wf(),
        ensures
            ({
                let base = directory_base(uri@);
                let found = children(self.entries.names@, base, 0, Map::empty());
                if uri@ != self@.prefix && *verdict is Some {
                    r is Err && r->Err_0@ == (*verdict)->0@
                } else if found.dom() =~= Set::empty() && uri@ != self@.prefix {
                    r is Err && r->Err_0@ == crate::fault::fault(
                        "ASTRA_EMU_VFS_NOT_FOUND",
                        "FVP VFS directory was not found",
                    )
                } else {
                    r is Ok && lists(r->Ok_0@, base, found)
                }
            }),
    {
        let root = text::same_text(uri, self.prefix.as_str());
        if !root {
            match refusal_of(verdict) {
                Some(e) => return Err(e),
                None => {},
            }
        }
        let v = text::chars_of(uri);
        let base_text = if text::ends_with(&v, "/") {
            text::owned(uri)
        } else {
            text::join2(uri, "/")
        };
        let base = base_text.as_str();
        let base_chars = text::chars_of(base);
        let ghost uris = self.entries.names@;
        let ghost found = children(uris, base@, 0, Map::empty());
        let mut nodes: NameMap<LegacyVfsNode> = NameMap::new();
        let ghost mut seen: Map<Seq<char>, LegacyVfsNodeKind> = Map::empty();
        let mut i: usize = 0;
        while i < self.entries.names.len()
            invariant
                self.wf(),
                i <= uris.len(),
                uris == self.entries.names@,
                base_chars@ == base@,
                nodes.wf(),
                found == children(uris, base@, 0, Map::empty()),
                found == children(uris, base@, i as int, seen),
                nodes@.dom() =~= seen.dom(),
                forall|name: Seq<char>| #[trigger]
                    nodes@.contains_key(name) ==> {
                        &&& nodes@[name].name@ == name
                        &&& nodes@[name].kind == seen[name]
                        &&& nodes@[name].uri@ == base@ + name
                    },
            decreases uris.len() - i,
        {
            let candidate = text::chars_of(self.entries.names[i].as_str());
            if text::starts_with(&candidate, base) {
                let suffix = text::slice_chars(&candidate, base_chars.len(), candidate.len());
                let end: usize = text::find_first(&suffix, '/', 0);
                if end > 0 {
                    let name = text::string_of_range(&suffix, 0, end);
                    let ghost key = name@;
                    let kind = if end < suffix.len() {
                        LegacyVfsNodeKind::Directory
                    } else {
                        LegacyVfsNodeKind::File
                    };
                    assert(child_of(base@, uris[i as int]@) == Some((key, kind)));
                    if !nodes.contains(name.as_str()) {
                        let node = LegacyVfsNode {
                            uri: text::join2(base, name.as_str()),
                            name: text::owned(name.as_str()),
                            kind,
                        };
                        let ghost before = nodes@;
                        let _ = nodes.insert_new(name, node);
                        proof {
                            seen = seen.insert(key, kind);
                            assert(nodes@ == before.insert(key, node));
                        }
                    }
                }
            }
            i = i + 1;
        }
        proof {
            crate::names::lemma_view_entries(nodes);
            assert(found == seen);
        }
        if nodes.len() == 0 && !root {
            proof {
                assert forall|name: Seq<char>| !found.contains_key(name) by {
                    assert(nodes@.contains_key(name) == found.contains_key(name));
                }
            }
            return Err(not_found("FVP VFS directory was not found"));
        }
        proof {
            if nodes.names@.len() > 0 {
                assert(nodes@.contains_key(nodes.names@[0]@));
                assert(found.dom().contains(nodes.names@[0]@));
            }
            let list = nodes.values@;
            assert forall|k: int| 0 <= k < list.len() implies (#[trigger] list[k]).name@
                == nodes.names@[k]@ by {
                assert(nodes@.contains_key(nodes.names@[k]@));
            }
            assert forall|a: int, b: int| 0 <= a < b < list.len() implies crate::names::text_lt(
                (#[trigger] list[a]).name@,
                (#[trigger] list[b]).name@,
            ) by {
                assert(crate::names::text_lt(nodes.names@[a]@, nodes.names@[b]@));
            }
            assert forall|k: int| 0 <= k < list.len() implies {
                &&& found.contains_key((#[trigger] list[k]).name@)
                &&& list[k].kind == found[list[k].name@]
                &&& list[k].uri@ == base@ + list[k].name@
            } by {
                assert(nodes@.contains_key(nodes.names@[k]@));
            }
            assert forall|name: Seq<char>| #[trigger] found.contains_key(name) implies exists|k: int|
                0 <= k < list.len() && (#[trigger] list[k]).name@ == name by {
                assert(nodes@.contains_key(name));
                let k = crate::names::position(nodes.names@, name)->0;
                assert(nodes.names@[k]@ == name);
                assert(list[k].name@ == name);
            }
        }
        Ok(nodes.values)
    }

    fn has_below(&self, folder: &str) -> (r: bool)
        requires
            self.wf(),
        ensures
            r == exists|file: Seq<char>|
                self@.entries.contains_key(file) && #[trigger] text::has_prefix(file, folder@),
    {
        let mut i: usize = 0;
        proof {
            crate::names::lemma_view_entries(self.entries);
        }
        while i < self.entries.names.len()
            invariant
                self.wf(),
                i <= self.entries.names@.len(),
                forall|j: int|
                    0 <= j < i ==> !text::has_prefix((#[trigger] self.entries.names@[j])@, folder@),
            decreases self.entries.names@.len() - i,
        {
            let candidate = text::chars_of(self.entries.names[i].as_str());
            if text::starts_with(&candidate, folder) {
                proof {
                    crate::names::lemma_view_entries(self.entries);
                    assert(self@.entries.contains_key(self.entries.names@[i as int]@));
                }
                return true;
            }
            i = i + 1;
        }
        proof {
            assert forall|file: Seq<char>| self@.entries.contains_key(file) implies !(
            #[trigger] text::has_prefix(file, folder@)) by {
                let k = crate::names::position(self.entries.names@, file)->0;
                assert(self.entries.names@[k]@ == file);
            }
        }
        false
    }

    /// What is known of an address: a directory comes before a file of that name.
    pub fn stat(&self, uri: &str, verdict: &Option<LegacyCoreError>) -> (r: Result<
        LegacyVfsStat,
        LegacyCoreError,
    >)
        requires
            self.wf(),
        ensures
            if is_directory(self@, uri@) {
                &&& r matches Ok(stat)
                &&& stat.uri@ == uri@
                &&& stat.entry_id is None
                &&& stat.kind == LegacyVfsNodeKind::Directory
                &&& stat.size == 0
                &&& stat.archive_role is None
                &&& stat.method is None
            } else {
                match found_file(self@, uri@, *verdict) {
                    Err(f) => r is Err && r->Err_0@ == f,
                    Ok(file) => {
                        &&& r matches Ok(stat)
                        &&& stat.uri@ == uri@
                        &&& stat.entry_id is Some && stat.entry_id->0@ == file.entry_id
                        &&& stat.kind == LegacyVfsNodeKind::File
                        &&& stat.size == file.size
                        &&& stat.archive_role is Some && stat.archive_role->0@ == file.role
                        &&& stat.method is Some && stat.method->0@ == "raw"@
                    },
                }
            },
    {
        let bare = strip_slashes(uri);
        let folder = text::join2(bare.as_str(), "/");
        if text::same_text(uri, self.prefix.as_str()) || self.has_below(folder.as_str()) {
            return Ok(
                LegacyVfsStat {
                    uri: text::owned(uri),
                    entry_id: None,
                    kind: LegacyVfsNodeKind::Directory,
                    size: 0,
                    archive_role: None,
                    method: None,
                },
            );
        }
        match self.entry(uri, verdict) {
            Err(e) => Err(e),
            Ok(file) => Ok(
                LegacyVfsStat {
                    uri: text::owned(uri),
                    entry_id: Some(text::owned(file.entry_id.as_str())),
                    kind: LegacyVfsNodeKind::File,
                    size: file.size,
                    archive_role: Some(text::owned(file.role.as_str())),
                    method: Some(text::owned("raw")),
                },
            ),
        }
    }
}

// ------------------------------------------------------------------------- reads

/// A read of a mounted file, as far as the host has to do it.
#[derive(Debug, Clone, Copy, PartialEq, Eq, Structural)]
pub struct ReadPlan {
    /// The archive to read from.
    pub archive: usize,
    /// The archive as it was when it was mounted.
    pub stat: ByteSourceStat,
    pub range: ByteRange,
    /// The place in the file.
    pub offset: u64,
    /// The read reaches the end of the file.
    pub eof: bool,
}

/// What became of a read in the host's ledger of read resources.
#[derive(Debug, Clone, Copy, PartialEq, Eq, Structural)]
pub enum LedgerReply {
    Recorded,
    Poisoned,
    Refused(ByteSourceError),
}

/// A read that succeeded: its bytes, and what the ledger said when they were recorded
/// in it.
#[derive(Debug)]
pub struct RecordedRead {
    pub bytes: Vec<u8>,
    pub ledger: LedgerReply,
}

#[derive(Debug)]
pub struct LegacyVfsReadResult {
    pub uri: String,
    pub offset: u64,
    pub bytes: Vec<u8>,
    pub eof: bool,
    pub cache_hit: bool,
}

/// The range of an archive that holds the range `offset..offset + length` of a file.
pub open spec fn source_range(
    vfs: VfsView,
    file: FileView,
    offset: u64,
    length: u64,
    max_range: u64,
) -> Result<ByteRange, Fault> {
    let archive = vfs.archives[file.archive_index];
    let start = archive.entries[file.entry_index].offset + offset;
    if !archive.readable {
        Err(
            crate::fault::fault(
                "ASTRA_EMU_FVP_SOURCE_MISSING",
                "mounted FVP archive source is unavailable",
            ),
        )
    } else if start > u64::MAX {
        Err(
            crate::fault::fault(
                "ASTRA_EMU_VFS_READ_OVERFLOW",
                "FVP entry source range overflowed",
            ),
        )
    } else if start + length > u64::MAX {
        Err(crate::fault::fault("ASTRA_EMU_VFS_READ_OVERFLOW", "FVP source range overflowed"))
    } else if start + length > archive.stat.len {
        Err(
            crate::fault::fault(
                "ASTRA_EMU_VFS_READ_BOUNDS",
                "FVP source range is outside the archive",
            ),
        )
    } else if length > max_range {
        Err(
            crate::fault::fault(
                "ASTRA_EMU_VFS_READ_LIMIT",
                "FVP source range exceeds the owned range limit",
            ),
        )
    } else {
        Ok(ByteRange { offset: start as u64, len: length })
    }
}

/// The plan for a read of a file.
pub open spec fn read_plan(
    vfs: VfsView,
    file: Result<FileView, Fault>,
    offset: u64,
    length: u64,
    max_read: u64,
    max_range: u64,
) -> Result<ReadPlan, Fault> {
    if length > max_read {
        Err(
            crate::fault::fault(
                "ASTRA_EMU_VFS_READ_LIMIT",
                "FVP range read exceeds the configured limit",
            ),
        )
    } else {
        match file {
            Err(f) => Err(f),
            Ok(file) => if offset + length > u64::MAX {
                Err(
                    crate::fault::fault(
                        "ASTRA_EMU_VFS_READ_OVERFLOW",
                        "FVP range read overflowed",
                    ),
                )
            } else if offset + length > file.size {
                Err(
                    crate::fault::fault(
                        "ASTRA_EMU_VFS_READ_BOUNDS",
                        "FVP range read is outside the entry",
                    ),
                )
            } else {
                match source_range(vfs, file, offset, length, max_range) {
                    Err(f) => Err(f),
                    Ok(range) => Ok(
                        ReadPlan {
                            archive: file.archive_index as usize,
                            stat: vfs.archives[file.archive_index].stat,
                            range,
                            offset,
                            eof: offset + length == file.size,
                        },
                    ),
                }
            },
        }
    }
}

/// The failure of the ledger, if it failed.
pub open spec fn ledger_fault(ledger: LedgerReply) -> Option<Fault> {
    match ledger {
        LedgerReply::Recorded => None,
        LedgerReply::Poisoned => Some(
            crate::fault::fault(
                "ASTRA_EMU_VFS_LEDGER_POISONED",
                "FVP resource ledger is poisoned",
            ),
        ),
        LedgerReply::Refused(e) => Some(
            Fault {
                code: crate::source::source_error_code(e),
                message: "FVP bounded archive source operation failed"@,
            },
        ),
    }
}

/// What a read gives, from the host's answers.
pub open spec fn read_outcome(
    length: u64,
    reply: Result<RecordedRead, ByteSourceError>,
) -> Result<Seq<u8>, Fault> {
    match reply {
        Err(e) => Err(
            Fault {
                code: crate::source::source_error_code(e),
                message: "FVP bounded archive source operation failed"@,
            },
        ),
        Ok(read) => match ledger_fault(read.ledger) {
            Some(f) => Err(f),
            None => if read.bytes@.len() != length {
                Err(
                    crate::fault::fault(
                        "ASTRA_EMU_VFS_READ_SHORT",
                        "FVP source returned an invalid owned range length",
                    ),
                )
            } else {
                Ok(read.bytes@)
            },
        },
    }
}

/// Holds the host's answers to a read against what was asked.
pub fn read_bounded(length: u64, reply: Result<RecordedRead, ByteSourceError>) -> (r: Result<
    Vec<u8>,
    LegacyCoreError,
>)
    ensures
        match read_outcome(length, reply) {
            Ok(bytes) => r is Ok && r->Ok_0@ == bytes,
            Err(f) => r is Err && r->Err_0@ == f,
        },
{
    let RecordedRead { bytes, ledger } = match reply {
        Ok(v) => v,
        Err(e) => return Err(crate::source::vfs_source_error(e)),
    };
    match ledger {
        LedgerReply::Recorded => {},
        LedgerReply::Poisoned => {
            return Err(
                LegacyCoreError::invalid(
                    "ASTRA_EMU_VFS_LEDGER_POISONED",
                    "FVP resource ledger is poisoned",
                ),
            );
        },
        LedgerReply::Refused(e) => return Err(crate::source::vfs_source_error(e)),
    }
    if bytes.len() as u64 != length {
        return Err(
            LegacyCoreError::invalid(
                "ASTRA_EMU_VFS_READ_SHORT",
                "FVP source returned an invalid owned range length",
            ),
        );
    }
    Ok(bytes)
}

/// How a file is streamed.
#[derive(Debug)]
pub enum StreamPlan {
    /// In one read, from memory.
    Whole(ReadPlan),
    /// In pieces.
    Pieces(FvpEntryStream),
}

/// A file that is read in pieces.
#[derive(Debug)]
pub struct FvpEntryStream {
    pub archive: usize,
    pub stat: ByteSourceStat,
    pub resource_id: String,
    pub source_offset: u64,
    pub length: u64,
    pub position: u64,
}

/// The next piece of a stream into a buffer of `room` bytes: nothing at the end, a
/// code where the place in the archive has no address.
pub open spec fn next_piece(
    source_offset: u64,
    length: u64,
    position: u64,
    room: u64,
    max_range: u64,
) -> Result<Option<ByteRange>, Seq<char>> {
    if room == 0 || position == length {
        Ok(None)
    } else if source_offset + position > u64::MAX {
        Err("ASTRA_EMU_VFS_READ_OVERFLOW"@)
    } else {
        let left = (length - position) as u64;
        let piece = crate::paging::smaller(
            crate::paging::smaller(left as int, room as int),
            max_range as int,
        );
        Ok(Some(ByteRange { offset: (source_offset + position) as u64, len: piece as u64 }))
    }
}

impl FvpEntryStream {
    pub open spec fn wf(&self) -> bool {
        self.position <= self.length
    }

    /// The next piece to read.
    pub fn request(&self, room: usize, max_range: u64) -> (r: Result<Option<ByteRange>, &'static str>)
        requires
            self.wf(),
        ensures
            match next_piece(
                self.source_offset,
                self.length,
                self.position,
                room as u64,
                max_range,
            ) {
                Ok(piece) => r is Ok && r->Ok_0 == piece,
                Err(code) => r is Err && r->Err_0@ == code,
            },
    {
        if room == 0 || self.position == self.length {
            return Ok(None);
        }
        let left: u64 = self.length - self.position;
        let room: u64 = room as u64;
        let mut len: u64 = if left < room {
            left
        } else {
            room
        };
        if max_range < len {
            len = max_range;
        }
        match self.source_offset.checked_add(self.position) {
            None => Err("ASTRA_EMU_VFS_READ_OVERFLOW"),
            Some(offset) => Ok(Some(ByteRange { offset, len })),
        }
    }

    /// Takes the host's answers to a piece of `range`: the bytes for the buffer. The
    /// failures are codes by themselves.
    pub fn accept(
        &mut self,
        range: ByteRange,
        reply: Result<RecordedRead, ByteSourceError>,
    ) -> (r: Result<Vec<u8>, &'static str>)
        requires
            old(self).wf(),
            old(self).position + range.len <= old(self).length,
            reply is Ok ==> reply->Ok_0.bytes@.len() <= range.len,
        ensures
            final(self).wf(),
            ({
                let before = *old(self);
                match reply {
                    Err(_) => {
                        &&& r is Err && r->Err_0@ == "ASTRA_EMU_VFS_SOURCE_READ"@
                        &&& *final(self) == before
                    },
                    Ok(read) => match read.ledger {
                        LedgerReply::Poisoned => {
                            &&& r is Err && r->Err_0@ == "ASTRA_EMU_VFS_LEDGER_POISONED"@
                            &&& *final(self) == before
                        },
                        LedgerReply::Refused(_) => {
                            &&& r is Err && r->Err_0@ == "ASTRA_EMU_VFS_REPEAT_READ_CHANGED"@
                            &&& *final(self) == before
                        },
                        LedgerReply::Recorded => {
                            &&& r is Ok && r->Ok_0@ == read.bytes@
                            &&& *final(self) == (FvpEntryStream {
                                position: (before.position + read.bytes@.len()) as u64,
                                ..before
                            })
                        },
                    },
                }
            }),
    {
        let RecordedRead { bytes, ledger } = match reply {
            Ok(v) => v,
            Err(_) => return Err("ASTRA_EMU_VFS_SOURCE_READ"),
        };
        match ledger {
            LedgerReply::Recorded => {},
            LedgerReply::Poisoned => return Err("ASTRA_EMU_VFS_LEDGER_POISONED"),
            LedgerReply::Refused(_) => return Err("ASTRA_EMU_VFS_REPEAT_READ_CHANGED"),
        }
        self.position = self.position + bytes.len() as u64;
        Ok(bytes)
    }
}

/// What the host says of a mounted source: its length and revision now, and the
/// digest of its bytes.
#[derive(Debug)]
pub struct SourceReply {
    pub stat: Result<ByteSourceStat, ByteSourceError>,
    pub hash: Result<Hash256, ByteSourceError>,
}

/// What is wrong with a mounted source, if anything is. One without a reply is gone.
pub open spec fn source_fault(archive: ArchiveView, reply: Option<SourceReply>) -> Option<Fault> {
    let changed = crate::fault::fault(
        "ASTRA_EMU_VFS_SOURCE_CHANGED",
        "FVP archive changed after mount",
    );
    match reply {
        None => Some(
            crate::fault::fault(
                "ASTRA_EMU_FVP_SOURCE_MISSING",
                "mounted FVP archive source is unavailable",
            ),
        ),
        Some(reply) => match reply.stat {
            Err(e) => Some(
                Fault {
                    code: crate::source::source_error_code(e),
                    message: "FVP bounded archive source operation failed"@,
                },
            ),
            Ok(stat) => if stat != archive.stat {
                Some(changed)
            } else {
                match reply.hash {
                    Err(e) => Some(
                        Fault {
                            code: crate::source::source_error_code(e),
                            message: "FVP bounded archive source operation failed"@,
                        },
                    ),
                    Ok(hash) => if hash@ != archive.source_hash {
                        Some(changed)
                    } else {
                        None
                    },
                }
            },
        },
    }
}

/// What is wrong with the sources from `i` on, if anything is.
pub open spec fn sources_fault(
    archives: Seq<ArchiveView>,
    replies: Seq<Option<SourceReply>>,
    i: int,
) -> Option<Fault>
    decreases archives.len() - i,
{
    if i >= archives.len() {
        None
    } else {
        let reply = if 0 <= i < replies.len() {
            replies[i]
        } else {
            None
        };
        match source_fault(archives[i], reply) {
            Some(f) => Some(f),
            None => sources_fault(archives, replies, i + 1),
        }
    }
}

fn source_changed() -> (r: LegacyCoreError)
    ensures
        r@ == crate::fault::fault(
            "ASTRA_EMU_VFS_SOURCE_CHANGED",
            "FVP archive changed after mount",
        ),
{
    LegacyCoreError::invalid("ASTRA_EMU_VFS_SOURCE_CHANGED", "FVP archive changed after mount")
}

fn source_missing() -> (r: LegacyCoreError)
    ensures
        r@ == crate::fault::fault(
            "ASTRA_EMU_FVP_SOURCE_MISSING",
            "mounted FVP archive source is unavailable",
        ),
{
    LegacyCoreError::invalid(
        "ASTRA_EMU_FVP_SOURCE_MISSING",
        "mounted FVP archive source is unavailable",
    )
}

impl FvpMountedVfs {
    fn locate(&self, file: &MountedEntry, offset: u64, length: u64, max_range: u64) -> (r: Result<
        ByteRange,
        LegacyCoreError,
    >)
        requires
            self.wf(),
            file_ok(self@.archives, file@),
        ensures
            match source_range(self@, file@, offset, length, max_range) {
                Ok(range) => r is Ok && r->Ok_0 == range,
                Err(f) => r is Err && r->Err_0@ == f,
            },
    {
        let mounted = &self.archives[file.archive_index];
        assert(self@.archives[file.archive_index as int] == mounted@);
        let readable = match mounted.archive.storage {
            ArchiveStorage::Source { .. } => true,
            _ => false,
        };
        if !readable {
            return Err(source_missing());
        }
        let start: u64 = match mounted.archive.entries[file.entry_index].offset.checked_add(offset) {
            Some(v) => v,
            None => return Err(
                LegacyCoreError::invalid(
                    "ASTRA_EMU_VFS_READ_OVERFLOW",
                    "FVP entry source range overflowed",
                ),
            ),
        };
        let end: u64 = match start.checked_add(length) {
            Some(v) => v,
            None => return Err(
                LegacyCoreError::invalid(
                    "ASTRA_EMU_VFS_READ_OVERFLOW",
                    "FVP source range overflowed",
                ),
            ),
        };
        if end > mounted.archive.stat().len {
            return Err(
                LegacyCoreError::invalid(
                    "ASTRA_EMU_VFS_READ_BOUNDS",
                    "FVP source range is outside the archive",
                ),
            );
        }
        if length > max_range {
            return Err(
                LegacyCoreError::invalid(
                    "ASTRA_EMU_VFS_READ_LIMIT",
                    "FVP source range exceeds the owned range limit",
                ),
            );
        }
        Ok(ByteRange { offset: start, len: length })
    }

    /// The first part of a read: what the host has to fetch. `max_read` bounds a
    /// read of a file, `max_range` a fetch from an archive.
    pub fn plan_read(
        &self,
        uri: &str,
        verdict: &Option<LegacyCoreError>,
        offset: u64,
        length: u64,
        max_read: u64,
        max_range: u64,
    ) -> (r: Result<ReadPlan, LegacyCoreError>)
        requires
            self.wf(),
        ensures
            match read_plan(
                self@,
                found_file(self@, uri@, *verdict),
                offset,
                length,
                max_read,
                max_range,
            ) {
                Ok(plan) => r is Ok && r->Ok_0 == plan,
                Err(f) => r is Err && r->Err_0@ == f,
            },
    {
        if length > max_read {
            return Err(
                LegacyCoreError::invalid(
                    "ASTRA_EMU_VFS_READ_LIMIT",
                    "FVP range read exceeds the configured limit",
                ),
            );
        }
        let file = match self.entry(uri, verdict) {
            Ok(v) => v,
            Err(e) => return Err(e),
        };
        let end: u64 = match offset.checked_add(length) {
            Some(v) => v,
            None => return Err(
                LegacyCoreError::invalid(
                    "ASTRA_EMU_VFS_READ_OVERFLOW",
                    "FVP range read overflowed",
                ),
            ),
        };
        if end > file.size {
            return Err(
                LegacyCoreError::invalid(
                    "ASTRA_EMU_VFS_READ_BOUNDS",
                    "FVP range read is outside the entry",
                ),
            );
        }
        let range = match self.locate(file, offset, length, max_range) {
            Ok(v) => v,
            Err(e) => return Err(e),
        };
        assert(self@.archives[file.archive_index as int] == self.archives@[file.archive_index as int]@);
        Ok(
            ReadPlan {
                archive: file.archive_index,
                stat: self.archives[file.archive_index].archive.stat(),
                range,
                offset,
                eof: end == file.size,
            },
        )
    }

    /// The last part of a read: the bytes, from the host's answers.
    pub fn read_range(
        &self,
        uri: &str,
        plan: &ReadPlan,
        reply: Result<RecordedRead, ByteSourceError>,
    ) -> (r: Result<LegacyVfsReadResult, LegacyCoreError>)
        ensures
            match read_outcome(plan.range.len, reply) {
                Ok(bytes) => {
                    &&& r matches Ok(result)
                    &&& result.uri@ == uri@
                    &&& result.offset == plan.offset
                    &&& result.bytes@ == bytes
                    &&& result.eof == plan.eof
                    &&& !result.cache_hit
                },
                Err(f) => r is Err && r->Err_0@ == f,
            },
    {
        match read_bounded(plan.range.len, reply) {
            Ok(bytes) => Ok(
                LegacyVfsReadResult {
                    uri: text::owned(uri),
                    offset: plan.offset,
                    bytes,
                    eof: plan.eof,
                    cache_hit: false,
                },
            ),
            Err(e) => Err(e),
        }
    }

    /// How a file is streamed: a file that one fetch can hold is read whole.
    pub fn open_stream(&self, uri: &str, verdict: &Option<LegacyCoreError>, max_range: u64) -> (r: Result<
        StreamPlan,
        LegacyCoreError,
    >)
        requires
            self.wf(),
        ensures
            match found_file(self@, uri@, *verdict) {
                Err(f) => r is Err && r->Err_0@ == f,
                Ok(file) => if file.size <= max_range {
                    match read_plan(
                        self@,
                        Ok(file),
                        0,
                        file.size,
                        file.size,
                        max_range,
                    ) {
                        Ok(plan) => r is Ok && r->Ok_0 == StreamPlan::Whole(plan),
                        Err(f) => r is Err && r->Err_0@ == f,
                    }
                } else if !self@.archives[file.archive_index].readable {
                    r is Err && r->Err_0@ == crate::fault::fault(
                        "ASTRA_EMU_FVP_SOURCE_MISSING",
                        "mounted FVP archive source is unavailable",
                    )
                } else {
                    let archive = self@.archives[file.archive_index];
                    &&& r matches Ok(StreamPlan::Pieces(stream))
                    &&& stream.wf()
                    &&& stream.archive == file.archive_index
                    &&& stream.stat == archive.stat
                    &&& stream.resource_id@ == uri@
                    &&& stream.source_offset == archive.entries[file.entry_index].offset
                    &&& stream.length == file.size
                    &&& stream.position == 0
                },
            },
    {
        let file = match self.entry(uri, verdict) {
            Ok(v) => v,
            Err(e) => return Err(e),
        };
        let mounted = &self.archives[file.archive_index];
        assert(self@.archives[file.archive_index as int] == mounted@);
        if file.size <= max_range {
            let range = match self.locate(file, 0, file.size, max_range) {
                Ok(v) => v,
                Err(e) => return Err(e),
            };
            return Ok(
                StreamPlan::Whole(
                    ReadPlan {
                        archive: file.archive_index,
                        stat: mounted.archive.stat(),
                        range,
                        offset: 0,
                        eof: true,
                    },
                ),
            );
        }
        let readable = match mounted.archive.storage {
            ArchiveStorage::Source { .. } => true,
            _ => false,
        };
        if !readable {
            return Err(source_missing());
        }
        Ok(
            StreamPlan::Pieces(
                FvpEntryStream {
                    archive: file.archive_index,
                    stat: mounted.archive.stat(),
                    resource_id: text::owned(uri),
                    source_offset: mounted.archive.entries[file.entry_index].offset,
                    length: file.size,
                    position: 0,
                },
            ),
        )
    }

    /// Whether the archives are still those that were mounted, from what the host
    /// says of each.
    pub fn validate_sources(&self, replies: &Vec<Option<SourceReply>>) -> (r: Result<(), LegacyCoreError>)
        ensures
            match sources_fault(self@.archives, replies@, 0) {
                None => r is Ok,
                Some(f) => r is Err && r->Err_0@ == f,
            },
    {
        let mut i: usize = 0;
        while i < self.archives.len()
            invariant
                i <= self.archives@.len(),
                sources_fault(self@.archives, replies@, 0) == sources_fault(
                    self@.archives,
                    replies@,
                    i as int,
                ),
            decreases self.archives@.len() - i,
        {
            let mounted = &self.archives[i];
            assert(self@.archives[i as int] == mounted@);
            if i >= replies.len() {
                return Err(source_missing());
            }
            match &replies[i] {
                None => return Err(source_missing()),
                Some(reply) => {
                    match reply.stat {
                        Err(e) => return Err(crate::source::vfs_source_error(e)),
                        Ok(stat) => {
                            if stat != mounted.archive.stat() {
                                return Err(source_changed());
                            }
                        },
                    }
                    match &reply.hash {
                        Err(e) => return Err(crate::source::vfs_source_error(*e)),
                        Ok(hash) => {
                            if !hash.same(&mounted.source_hash) {
                                return Err(source_changed());
                            }
                        },
                    }
                },
            }
            i = i + 1;
        }
        Ok(())
    }
}

// ----------------------------------------------------------------------- laws

/// Reading a mounted file gives the bytes of its entry: where the host fetches what
/// the plan asks for from the archive's bytes `data`, the read returns the asked
/// part of the entry.
pub proof fn law_read_gives_the_entry(
    vfs: VfsView,
    file: FileView,
    offset: u64,
    length: u64,
    max_read: u64,
    max_range: u64,
    data: Seq<u8>,
    fetched: RecordedRead,
)
    requires
        fetched.ledger == LedgerReply::Recorded,
        file_ok(vfs.archives, file),
        data.len() == vfs.archives[file.archive_index].stat.len,
        read_plan(vfs, Ok(file), offset, length, max_read, max_range) is Ok,
        ({
            let range = read_plan(vfs, Ok(file), offset, length, max_read, max_range)->Ok_0.range;
            fetched.bytes@ == data.subrange(range.offset as int, range.offset + range.len)
        }),
    ensures
        ({
            let entry = vfs.archives[file.archive_index].entries[file.entry_index];
            let outcome = read_outcome(length, Ok(fetched));
            &&& outcome is Ok
            &&& outcome->Ok_0.len() == length
            &&& entry.offset + entry.size <= data.len() ==> outcome->Ok_0 == data.subrange(
                entry.offset as int,
                entry.offset + entry.size,
            ).subrange(offset as int, offset + length)
        }),
{
    let entry = vfs.archives[file.archive_index].entries[file.entry_index];
    if entry.offset + entry.size <= data.len() {
        assert(fetched.bytes@ =~= data.subrange(
            entry.offset as int,
            entry.offset + entry.size,
        ).subrange(offset as int, offset + length));
    }
}

/// The pieces of a stream from `position` on, put together, when the host hands out
/// what is asked for and every buffer has `room` bytes.
pub open spec fn streamed(
    data: Seq<u8>,
    source_offset: u64,
    length: u64,
    position: u64,
    room: u64,
    max_range: u64,
) -> Seq<u8>
    decreases length - position,
{
    match next_piece(source_offset, length, position, room, max_range) {
        Ok(Some(range)) if 0 < range.len && position + range.len <= length => data.subrange(
            range.offset as int,
            range.offset + range.len,
        ) + streamed(
            data,
            source_offset,
            length,
            (position + range.len) as u64,
            room,
            max_range,
        ),
        _ => Seq::empty(),
    }
}

/// A stream read to its end gives exactly the bytes of the entry, whatever the size
/// of the buffers.
pub proof fn law_stream_gives_the_entry(
    data: Seq<u8>,
    source_offset: u64,
    length: u64,
    position: u64,
    room: u64,
    max_range: u64,
)
    requires
        position <= length,
        source_offset + length <= data.len() <= u64::MAX,
        room > 0,
        max_range > 0,
    ensures
        streamed(data, source_offset, length, position, room, max_range) == data.subrange(
            source_offset + position,
            source_offset + length,
        ),
    decreases length - position,
{
    if position < length {
        let range = next_piece(source_offset, length, position, room, max_range)->Ok_0->0;
        law_stream_gives_the_entry(
            data,
            source_offset,
            length,
            (position + range.len) as u64,
            room,
            max_range,
        );
        assert(data.subrange(range.offset as int, range.offset + range.len) + data.subrange(
            source_offset + position + range.len,
            source_offset + length,
        ) =~= data.subrange(source_offset + position, source_offset + length));
    } else {
        assert(data.subrange(source_offset + position, source_offset + length) =~= Seq::empty());
    }
}

/// An address names one entry: entries of archives with valid roles have the same
/// address only if they are the same entry of the same role.
pub proof fn law_addresses_are_distinct(
    prefix: Seq<char>,
    role_a: Seq<char>,
    name_a: Seq<char>,
    role_b: Seq<char>,
    name_b: Seq<char>,
)
    requires
        role_valid(role_a),
        role_valid(role_b),
        entry_uri(prefix, role_a, name_a) == entry_uri(prefix, role_b, name_b),
    ensures
        role_a == role_b,
        name_a == name_b,
{
    reveal_strlit("/");
    let a = entry_uri(prefix, role_a, name_a);
    let b = entry_uri(prefix, role_b, name_b);
    let p = prefix.len() as int;
    if role_a.len() < role_b.len() {
        assert(a[p + role_a.len()] == '/');
        assert(b[p + role_a.len()] == role_b[role_a.len() as int]);
        assert(role_char(role_b[role_a.len() as int]));
    }
    if role_b.len() < role_a.len() {
        assert(b[p + role_b.len()] == '/');
        assert(a[p + role_b.len()] == role_a[role_b.len() as int]);
        assert(role_char(role_a[role_b.len() as int]));
    }
    assert(a.len() == p + role_a.len() + 1 + name_a.len());
    assert(b.len() == p + role_b.len() + 1 + name_b.len());
    assert forall|i: int| 0 <= i < role_a.len() implies role_a[i] == role_b[i] by {
        assert(a[p + i] == role_a[i]);
        assert(b[p + i] == role_b[i]);
    }
    assert(role_a =~= role_b);
    assert forall|i: int| 0 <= i < name_a.len() implies name_a[i] == name_b[i] by {
        assert(a[p + role_a.len() + 1 + i] == name_a[i]);
        assert(b[p + role_a.len() + 1 + i] == name_b[i]);
    }
    assert(name_a =~= name_b);
}

/// Roles are valid and in small letters.
pub proof fn law_roles_are_small(archive: Seq<char>)
    requires
        role_of(archive) is Ok,
    ensures
        text::lower(role_of(archive)->Ok_0) == role_of(archive)->Ok_0,
        role_valid(role_of(archive)->Ok_0),
{
    let name = sole_name(archive)->0;
    let dot = extension_dot(name)->0;
    text::lemma_lower_idempotent(name.subrange(0, dot));
}

proof fn lemma_roles_distinct(archives: Seq<String>, i: int, seen: Set<Seq<char>>)
    requires
        0 <= i,
        roles_fault(archives, i, seen) is None,
    ensures
        forall|k: int|
            i <= k < archives.len() ==> role_of((#[trigger] archives[k])@) is Ok && !seen.contains(
                role_of(archives[k]@)->Ok_0,
            ),
        forall|k: int, l: int|
            i <= k < l < archives.len() ==> role_of((#[trigger] archives[k])@)->Ok_0 != role_of(
                (#[trigger] archives[l])@,
            )->Ok_0,
    decreases archives.len() - i,
{
    if i < archives.len() {
        let role = role_of(archives[i]@)->Ok_0;
        lemma_roles_distinct(archives, i + 1, seen.insert(role));
    }
}

/// The archives of accepted options have valid roles, and no two share one.
pub proof fn law_accepted_roles_are_distinct(options: FvpVfsFamilyOptions, k: int, l: int)
    requires
        options_fault(options) is None,
        0 <= k < l < options.archives@.len(),
    ensures
        role_of(options.archives@[k]@) is Ok,
        role_of(options.archives@[l]@) is Ok,
        role_of(options.archives@[k]@)->Ok_0 != role_of(options.archives@[l]@)->Ok_0,
{
    lemma_roles_distinct(options.archives@, 0, Set::empty());
}

proof fn lemma_no_dot_behind(stem: Seq<char>, ending: Seq<char>, end: int)
    requires
        !ending.contains('.'),
        0 <= end <= ending.len(),
    ensures
        crate::hosted_host::last_place(stem + seq!['.'] + ending, '.', stem.len() + 1 + end) == Some(
            stem.len() as int,
        ),
    decreases end,
{
    let name = stem + seq!['.'] + ending;
    if end > 0 {
        assert(ending.contains(ending[end - 1]));
        assert(name[stem.len() + end] == ending[end - 1]);
        lemma_no_dot_behind(stem, ending, end - 1);
    } else {
        assert(name[stem.len() as int] == '.');
    }
}

/// The role of an archive is its name in small letters without the ending, which is `bin` in
/// any case of letters. Its name is made of ASCII letters, digits, dots, underscores and
/// hyphens.
pub proof fn law_role_is_the_name(stem: Seq<char>, ending: Seq<char>)
    requires
        stem.len() > 0,
        text::byte_len(text::lower(stem)) <= 128,
        forall|i: int| 0 <= i < stem.len() ==> {
            let c = #[trigger] stem[i];
            'a' <= c <= 'z' || 'A' <= c <= 'Z' || '0' <= c <= '9' || c == '.' || c == '_' || c == '-'
        },
        text::same_ignoring_case(ending, "bin"@),
    ensures
        role_of(stem + seq!['.'] + ending) == Ok::<Seq<char>, Fault>(text::lower(stem)),
{
    reveal_strlit("bin");
    let name = stem + seq!['.'] + ending;
    assert(text::lower("bin"@) =~= "bin"@);
    assert(text::lower(ending).len() == ending.len());
    assert(ending.len() == 3);
    assert forall|i: int| 0 <= i < 3 implies ending[i] != '.' && ending[i] != '/' by {
        assert(text::lower(ending)[i] == "bin"@[i]);
    }
    assert(!ending.contains('.'));
    assert forall|i: int| 0 <= i < name.len() implies name[i] != '/' by {
        if i < stem.len() {
            assert(name[i] == stem[i]);
        } else if i > stem.len() {
            assert(name[i] == ending[i - stem.len() - 1]);
        }
    }
    text::law_first_place_is_the_first(name, '/', 0);
    assert(name.subrange(0, name.len() as int) =~= name);
    lemma_no_dot_behind(stem, ending, ending.len() as int);
    assert(name.subrange(0, stem.len() as int) =~= stem);
    assert(name.subrange(stem.len() as int + 1, name.len() as int) =~= ending);
    let role = text::lower(stem);
    assert forall|i: int| 0 <= i < role.len() implies role_char(#[trigger] role[i]) by {
        let c = stem[i];
    }
}

/// A file with another ending, or without one, and a file in another place are no archives of
/// a mount.
pub proof fn law_other_files_have_no_role(name: Seq<char>, dir: Seq<char>)
    requires
        name.len() > 0,
        !name.contains('/'),
        dir.len() > 0,
        !dir.contains('/'),
        name != seq!['.'],
    ensures
        role_of(dir + seq!['/'] + name) matches Err(f) && f.code == "ASTRA_EMU_FVP_ARCHIVE_PATH"@,
        !name.contains('.') ==> role_of(name) is Err,
        forall|stem: Seq<char>, ending: Seq<char>|
            name == #[trigger] (stem + seq!['.'] + ending) && !ending.contains('.')
                && !text::same_ignoring_case(ending, "bin"@) ==> role_of(name) is Err,
        role_of(Seq::empty()) is Err,
{
    let path = dir + seq!['/'] + name;
    text::law_first_place_is_the_first(path, '/', 0);
    text::law_first_place_is_the_first(path, '/', dir.len() as int + 1);
    text::law_first_place_is_the_first(name, '/', 0);
    text::law_first_place_is_the_first(Seq::<char>::empty(), '/', 0);
    let end = text::first_place(path, '/', 0);
    assert(path[dir.len() as int] == '/');
    if end < dir.len() {
        assert(dir[end] == '/');
        assert(dir.contains('/'));
    }
    assert(end == dir.len());
    let next = text::first_place(path, '/', dir.len() as int + 1);
    if next < path.len() {
        assert(path[next] == name[next - dir.len() - 1]);
        assert(name.contains('/'));
    }
    assert(next == path.len());
    if next == dir.len() + 2 && path[dir.len() as int + 1] == '.' {
        assert(name =~= seq!['.']);
    }
    assert(!only_here(path, end));
    let stop = text::first_place(name, '/', 0);
    if stop < name.len() {
        assert(name.contains('/'));
    }
    assert(name.subrange(0, name.len() as int) =~= name);
    if !name.contains('.') {
        lemma_no_place(name, '.', name.len() as int);
    }
    reveal_strlit("bin");
    assert(text::lower("bin"@) =~= "bin"@);
    assert forall|stem: Seq<char>, ending: Seq<char>|
        name == #[trigger] (stem + seq!['.'] + ending) && !ending.contains('.')
            && !text::same_ignoring_case(ending, "bin"@) implies role_of(name) is Err by {
        lemma_no_dot_behind(stem, ending, ending.len() as int);
        assert(name.subrange(stem.len() as int + 1, name.len() as int) =~= ending);
    }
    assert(Seq::<char>::empty().subrange(0, 0) =~= Seq::<char>::empty());
}

proof fn lemma_no_place(s: Seq<char>, c: char, end: int)
    requires
        !s.contains(c),
        0 <= end <= s.len(),
    ensures
        crate::hosted_host::last_place(s, c, end) is None,
    decreases end,
{
    if end > 0 {
        assert(s.contains(s[end - 1]));
        lemma_no_place(s, c, end - 1);
    }
}

/// A mount takes between one and 4096 archives, each with at least one and at most ten million
/// entries allowed, and each with a role of its own; nothing else stands in its way.
pub proof fn law_mount_options_are_bounded(options: FvpVfsFamilyOptions)
    ensures
        options_fault(options) is None ==> {
            &&& 1 <= options.archives@.len() <= 4096
            &&& 1 <= options.max_entries_per_archive <= 10_000_000
        },
        1 <= options.archives@.len() <= 4096 && 1 <= options.max_entries_per_archive <= 10_000_000
            && (forall|k: int|
            0 <= k < options.archives@.len() ==> role_of((#[trigger] options.archives@[k])@) is Ok)
            && (forall|k: int, l: int|
            0 <= k < l < options.archives@.len() ==> role_of((#[trigger] options.archives@[k])@)
                != role_of((#[trigger] options.archives@[l])@)) ==> options_fault(options) is None,
{
    if (forall|k: int|
        0 <= k < options.archives@.len() ==> role_of((#[trigger] options.archives@[k])@) is Ok) && (
    forall|k: int, l: int|
        0 <= k < l < options.archives@.len() ==> role_of((#[trigger] options.archives@[k])@)
            != role_of((#[trigger] options.archives@[l])@)) {
        lemma_roles_fine(options.archives@, 0, Set::empty());
    }
}

proof fn lemma_roles_fine(archives: Seq<String>, i: int, seen: Set<Seq<char>>)
    requires
        0 <= i <= archives.len(),
        forall|k: int| 0 <= k < archives.len() ==> role_of((#[trigger] archives[k])@) is Ok,
        forall|k: int, l: int|
            0 <= k < l < archives.len() ==> role_of((#[trigger] archives[k])@) != role_of(
                (#[trigger] archives[l])@,
            ),
        forall|role: Seq<char>| #[trigger]
            seen.contains(role) ==> exists|k: int|
                0 <= k < i && role_of((#[trigger] archives[k])@) == Ok::<Seq<char>, Fault>(role),
    ensures
        roles_fault(archives, i, seen) is None,
    decreases archives.len() - i,
{
    if i < archives.len() {
        let role = role_of(archives[i]@)->Ok_0;
        if seen.contains(role) {
            let k = choose|k: int|
                0 <= k < i && role_of((#[trigger] archives[k])@) == Ok::<Seq<char>, Fault>(role);
            assert(role_of(archives[k]@) != role_of(archives[i]@));
        }
        let more = seen.insert(role);
        assert forall|other: Seq<char>| #[trigger] more.contains(other) implies exists|k: int|
            0 <= k < i + 1 && role_of((#[trigger] archives[k])@) == Ok::<Seq<char>, Fault>(other) by {
            if other == role {
                assert(role_of(archives[i]@) == Ok::<Seq<char>, Fault>(other));
            } else {
                assert(seen.contains(other));
                let k = choose|k: int|
                    0 <= k < i && role_of((#[trigger] archives[k])@) == Ok::<Seq<char>, Fault>(other);
                assert(role_of(archives[k]@) == Ok::<Seq<char>, Fault>(other));
            }
        }
        lemma_roles_fine(archives, i + 1, more);
    }
}

/// Whether `file` is the file for the entry at place `at` of the archive at `index`: found
/// there again, with the size of the entry, the digest of its content, the kind that the
/// first bytes tell, and an identity that names role and entry.
pub open spec fn stands_for(
    file: FileView,
    index: int,
    at: int,
    role: Seq<char>,
    entry: EntryView,
    audit: EntryAuditView,
) -> bool {
    &&& file.archive_index == index
    &&& file.entry_index == at
    &&& file.role == role
    &&& file.entry_id == role + ":"@ + entry.name
    &&& file.size == entry.size
    &&& file.content_hash == audit.hash
    &&& file.media_kind == crate::archive::media_kind(audit.magic)
}

/// Whether an address is among all files and was not among the earlier ones.
pub open spec fn newly_found(
    files: Map<Seq<char>, FileView>,
    all: Map<Seq<char>, FileView>,
    uri: Seq<char>,
) -> bool {
    !files.contains_key(uri) && all.contains_key(uri)
}

/// Every entry of an accepted archive gets its address, prefix, role and name with slashes
/// between role and name, and its file; the files that were there stay, and no others come.
/// The boundary has refused none of them.
pub proof fn law_every_entry_gets_its_address(
    prefix: Seq<char>,
    index: int,
    role: Seq<char>,
    entries: Seq<EntryView>,
    audits: Seq<EntryAuditView>,
    verdicts: Seq<Option<LegacyCoreError>>,
    i: int,
    ids: Set<Seq<char>>,
    files: Map<Seq<char>, FileView>,
)
    requires
        0 <= i <= entries.len() == audits.len() == verdicts.len(),
        entries_added(prefix, index, role, entries, audits, verdicts, i, ids, files) is Ok,
    ensures
        ({
            let (all_ids, all) = entries_added(
                prefix,
                index,
                role,
                entries,
                audits,
                verdicts,
                i,
                ids,
                files,
            )->Ok_0;
            &&& forall|k: int| i <= k < entries.len() ==> (#[trigger] verdicts[k]) is None
            &&& forall|k: int|
                i <= k < entries.len() ==> #[trigger] newly_found(
                    files,
                    all,
                    prefix + role + "/"@ + entries[k].name,
                ) && stands_for(
                    all[prefix + role + "/"@ + entries[k].name],
                    index,
                    k,
                    role,
                    entries[k],
                    audits[k],
                )
            &&& forall|uri: Seq<char>| #[trigger]
                files.contains_key(uri) ==> all.contains_key(uri) && all[uri] == files[uri]
            &&& forall|uri: Seq<char>| #[trigger]
                all.contains_key(uri) ==> files.contains_key(uri) || exists|k: int|
                    i <= k < entries.len() && uri == prefix + role + "/"@ + (
                    #[trigger] entries[k]).name
        }),
    decreases entries.len() - i,
{
    if i < entries.len() {
        let uri = entry_uri(prefix, role, entries[i].name);
        let id = entry_id(role, entries[i].name);
        let file = file_of(index, i, role, entries[i], audits[i]);
        let more = files.insert(uri, file);
        law_every_entry_gets_its_address(
            prefix,
            index,
            role,
            entries,
            audits,
            verdicts,
            i + 1,
            ids.insert(id),
            more,
        );
        assert(more.contains_key(uri));
        let all = entries_added(
            prefix,
            index,
            role,
            entries,
            audits,
            verdicts,
            i,
            ids,
            files,
        )->Ok_0.1;
        assert forall|k: int| i <= k < entries.len() implies #[trigger] newly_found(
            files,
            all,
            prefix + role + "/"@ + entries[k].name,
        ) && stands_for(
            all[prefix + role + "/"@ + entries[k].name],
            index,
            k,
            role,
            entries[k],
            audits[k],
        ) by {
            let address = prefix + role + "/"@ + entries[k].name;
            if k > i {
                assert(newly_found(more, all, address));
                if files.contains_key(address) {
                    assert(more.contains_key(address));
                }
            }
        }
        assert forall|address: Seq<char>| #[trigger] all.contains_key(address) implies files.contains_key(
            address,
        ) || exists|k: int|
            i <= k < entries.len() && address == prefix + role + "/"@ + (
            #[trigger] entries[k]).name by {
            if more.contains_key(address) && !files.contains_key(address) {
                assert(address == prefix + role + "/"@ + entries[i].name);
            }
        }
        assert forall|address: Seq<char>| #[trigger] files.contains_key(
            address,
        ) implies all.contains_key(address) && all[address] == files[address] by {
            assert(more.contains_key(address));
        }
    }
}

/// A mount that takes an archive in has it behind the others, under the role of its name and
/// otherwise as it is.
pub proof fn law_archive_joins_the_mount(
    mount: MountView,
    name: Seq<char>,
    archive: ArchiveView,
    audits: Seq<EntryAuditView>,
    verdicts: Seq<Option<LegacyCoreError>>,
)
    requires
        archive_added(mount, name, archive, audits, verdicts) is Ok,
    ensures
        ({
            let after = archive_added(mount, name, archive, audits, verdicts)->Ok_0;
            let joined = after.archives.last();
            &&& after.archives.drop_last() == mount.archives
            &&& role_of(name) == Ok::<Seq<char>, Fault>(joined.role)
            &&& joined.source_hash == archive.source_hash
            &&& joined.stat == archive.stat
            &&& joined.entries == archive.entries
            &&& joined.readable == archive.readable
            &&& after.mount_id == mount.mount_id
            &&& after.prefix == mount.prefix
            &&& after.profile_hash == mount.profile_hash
            &&& Ok::<(Set<Seq<char>>, Map<Seq<char>, FileView>), Fault>((after.ids, after.entries))
                == entries_added(
                mount.prefix,
                mount.archives.len() as int,
                joined.role,
                archive.entries,
                audits,
                verdicts,
                0,
                mount.ids,
                mount.entries,
            )
        }),
{
    let after = archive_added(mount, name, archive, audits, verdicts)->Ok_0;
    assert(after.archives.drop_last() =~= mount.archives);
}

/// The manifest of a mount has a line for each archive, with its role, length and digest, and
/// a line for each file, with its address, its place and size in its archive and its digest.
pub proof fn law_mount_manifest_lists_everything(
    mount: MountView,
    schema: Seq<char>,
    uris: Seq<String>,
    i: int,
    k: int,
)
    requires
        0 <= i < uris.len(),
        0 <= k < mount.archives.len(),
    ensures
        ({
            let manifest = mount_manifest(mount, schema, uris);
            let line = manifest.entries[i];
            let source = manifest.sources[k];
            let file = mount.entries[uris[i]@];
            let entry = mount.archives[file.archive_index].entries[file.entry_index];
            &&& manifest.schema == schema
            &&& manifest.mount_id == mount.mount_id
            &&& manifest.prefix == mount.prefix
            &&& manifest.mount_profile_hash == mount.profile_hash
            &&& manifest.entries.len() == uris.len()
            &&& manifest.sources.len() == mount.archives.len()
            &&& line.uri == uris[i]@
            &&& line.entry_id == file.entry_id
            &&& line.source_id == file.role
            &&& line.source_offset == entry.offset
            &&& line.stored_size == file.size
            &&& line.decoded_size == file.size
            &&& line.content_hash == Some(file.content_hash)
            &&& line.source_hash == file.content_hash
            &&& line.media_kind == file.media_kind
            &&& line.method == "raw"@
            &&& source.source_id == mount.archives[k].role
            &&& source.archive_role == Some(mount.archives[k].role)
            &&& source.byte_size == mount.archives[k].stat.len
            &&& source.source_hash == mount.archives[k].source_hash
            &&& source.part_count == 1
        }),
{
}

/// The reader of a mount is told by the digests of its archives in order: one more archive
/// adds its digest at the end.
pub proof fn law_reader_is_told_by_the_archives(archives: Seq<ArchiveView>, more: ArchiveView)
    ensures
        reader_material(Seq::empty(), 0) == Seq::<u8>::empty(),
        reader_material(archives.push(more), archives.len() as int + 1) == reader_material(
            archives,
            archives.len() as int,
        ) + more.source_hash,
{
    lemma_material(archives, more, archives.len() as int);
    assert(archives.push(more)[archives.len() as int] == more);
}

proof fn lemma_material(archives: Seq<ArchiveView>, more: ArchiveView, n: int)
    requires
        0 <= n <= archives.len(),
    ensures
        reader_material(archives.push(more), n) == reader_material(archives, n),
    decreases n,
{
    if n > 0 {
        lemma_material(archives, more, n - 1);
        assert(archives.push(more)[n - 1] == archives[n - 1]);
    }
}

/// A child of a directory is the name that follows it in an address: a file where nothing
/// comes behind the name, a directory where a slash does. An address elsewhere, and one with
/// nothing or a slash right behind the directory, has none.
pub proof fn law_children_are_the_next_names(base: Seq<char>, name: Seq<char>, rest: Seq<char>, uri: Seq<char>)
    requires
        name.len() > 0,
        !name.contains('/'),
    ensures
        child_of(base, base + name) == Some((name, LegacyVfsNodeKind::File)),
        child_of(base, base + name + seq!['/'] + rest) == Some((name, LegacyVfsNodeKind::Directory)),
        child_of(base, base) is None,
        child_of(base, base + seq!['/'] + rest) is None,
        !text::has_prefix(uri, base) ==> child_of(base, uri) is None,
{
    let plain = base + name;
    let deep = base + name + seq!['/'] + rest;
    let odd = base + seq!['/'] + rest;
    let b = base.len() as int;
    assert(plain.subrange(0, b) =~= base);
    assert(deep.subrange(0, b) =~= base);
    assert(odd.subrange(0, b) =~= base);
    assert(base.subrange(0, b) =~= base);
    let s1 = plain.subrange(b, plain.len() as int);
    let s2 = deep.subrange(b, deep.len() as int);
    let s3 = odd.subrange(b, odd.len() as int);
    assert(s1 =~= name);
    assert(s2 =~= name + seq!['/'] + rest);
    assert(s3 =~= seq!['/'] + rest);
    text::law_first_place_is_the_first(s1, '/', 0);
    text::law_first_place_is_the_first(s2, '/', 0);
    let e1 = text::first_place(s1, '/', 0);
    let e2 = text::first_place(s2, '/', 0);
    if e1 < name.len() {
        assert(name.contains(s1[e1]));
    }
    if e2 < name.len() {
        assert(s2[e2] == name[e2]);
        assert(name.contains(name[e2]));
    }
    assert(s2[name.len() as int] == '/');
    assert(e2 == name.len());
    assert(s1.subrange(0, e1) =~= name);
    assert(s2.subrange(0, e2) =~= name);
    assert(s3[0] == '/');
    text::law_first_place_is_the_first(base.subrange(b, b), '/', 0);
}

proof fn lemma_children(
    uris: Seq<String>,
    base: Seq<char>,
    i: int,
    seen: Map<Seq<char>, LegacyVfsNodeKind>,
    name: Seq<char>,
)
    requires
        0 <= i <= uris.len(),
    ensures
        children(uris, base, i, seen).contains_key(name) <==> seen.contains_key(name) || exists|k: int|
            i <= k < uris.len() && {
                let child = child_of(base, (#[trigger] uris[k])@);
                child is Some && (child->0).0 == name
            },
        seen.contains_key(name) ==> children(uris, base, i, seen)[name] == seen[name],
        !seen.contains_key(name) && children(uris, base, i, seen).contains_key(name) ==> exists|k: int|
            i <= k < uris.len() && child_of(base, (#[trigger] uris[k])@) == Some(
                (name, children(uris, base, i, seen)[name]),
            ),
    decreases uris.len() - i,
{
    if i < uris.len() {
        let child = child_of(base, uris[i]@);
        if child is Some && !seen.contains_key((child->0).0) {
            lemma_children(uris, base, i + 1, seen.insert((child->0).0, (child->0).1), name);
        } else {
            lemma_children(uris, base, i + 1, seen, name);
        }
    }
}

/// A directory lists a name if and only if an address leads through it, and tells of it what
/// one of those addresses tells.
pub proof fn law_directories_list_their_children(uris: Seq<String>, base: Seq<char>, name: Seq<char>)
    ensures
        ({
            let found = children(uris, base, 0, Map::empty());
            &&& found.contains_key(name) <==> exists|k: int|
                0 <= k < uris.len() && {
                    let child = child_of(base, (#[trigger] uris[k])@);
                    child is Some && (child->0).0 == name
                }
            &&& found.contains_key(name) ==> exists|k: int|
                0 <= k < uris.len() && child_of(base, (#[trigger] uris[k])@) == Some(
                    (name, found[name]),
                )
        }),
{
    lemma_children(uris, base, 0, Map::empty(), name);
}

/// A directory is named with or without a slash at its end.
pub proof fn law_directory_slash_does_not_matter(uri: Seq<char>)
    requires
        uri.len() > 0,
        uri.last() != '/',
    ensures
        directory_base(uri) == uri + seq!['/'],
        directory_base(uri + seq!['/']) == uri + seq!['/'],
        without_slashes(uri) == uri,
        without_slashes(uri + seq!['/']) == uri,
{
    reveal_strlit("/");
    assert("/"@ =~= seq!['/']);
    let slashed = uri + seq!['/'];
    assert(slashed.subrange(slashed.len() - 1, slashed.len() as int) =~= "/"@);
    if text::has_suffix(uri, "/"@) {
        assert(uri.subrange(uri.len() - 1, uri.len() as int)[0] == uri.last());
    }
    assert(slashed.drop_last() =~= uri);
    reveal_with_fuel(without_slashes, 3);
}

/// A read is planned if and only if it asks for no more than may be read at once, stays in
/// the file and in the archive, and the archive is there. It asks the archive for as many
/// bytes as were wanted, as far behind the start of the entry as wanted, and knows whether it
/// comes to the end.
pub proof fn law_reads_are_planned_within_the_file(
    vfs: VfsView,
    file: FileView,
    offset: u64,
    length: u64,
    max_read: u64,
    max_range: u64,
)
    requires
        file_ok(vfs.archives, file),
        file.archive_index <= usize::MAX,
    ensures
        ({
            let archive = vfs.archives[file.archive_index];
            let start = archive.entries[file.entry_index].offset;
            let plan = read_plan(vfs, Ok(file), offset, length, max_read, max_range);
            &&& plan is Ok <==> {
                &&& length <= max_read
                &&& length <= max_range
                &&& offset + length <= file.size
                &&& archive.readable
                &&& start + offset + length <= archive.stat.len
            }
            &&& plan matches Ok(p) ==> {
                &&& p.archive == file.archive_index
                &&& p.stat == archive.stat
                &&& p.range.offset == start + offset
                &&& p.range.len == length
                &&& p.offset == offset
                &&& p.eof <==> offset + length == file.size
            }
            &&& length > max_read ==> plan->Err_0.code == "ASTRA_EMU_VFS_READ_LIMIT"@
        }),
        forall|why: Fault|
            length <= max_read ==> #[trigger] read_plan(
                vfs,
                Err::<FileView, Fault>(why),
                offset,
                length,
                max_read,
                max_range,
            ) == Err::<ReadPlan, Fault>(why),
{
}

/// A read gives the bytes of the source if they are as many as were asked for and the read
/// was recorded; otherwise it fails.
pub proof fn law_recorded_reads_give_their_bytes(length: u64, read: RecordedRead, why: ByteSourceError)
    ensures
        read_outcome(length, Ok(read)) is Ok <==> read.ledger is Recorded && read.bytes@.len()
            == length,
        read_outcome(length, Ok(read)) matches Ok(bytes) ==> bytes == read.bytes@,
        read_outcome(length, Err(why)) matches Err(f) && f.code == crate::source::source_error_code(
            why,
        ),
{
}

/// A mounted archive is sound if and only if its source answers, and with the length,
/// revision and digest that it was mounted with. All archives are held to that.
pub proof fn law_changed_sources_are_noticed(
    archives: Seq<ArchiveView>,
    replies: Seq<Option<SourceReply>>,
    i: int,
)
    requires
        0 <= i <= archives.len() == replies.len(),
    ensures
        sources_fault(archives, replies, i) is None <==> forall|k: int|
            i <= k < archives.len() ==> {
                &&& #[trigger] replies[k] is Some
                &&& replies[k]->0.stat == Ok::<ByteSourceStat, ByteSourceError>(archives[k].stat)
                &&& replies[k]->0.hash is Ok
                &&& replies[k]->0.hash->Ok_0@ == archives[k].source_hash
            },
    decreases archives.len() - i,
{
    if i < archives.len() {
        let reply = replies[i];
        law_changed_sources_are_noticed(archives, replies, i + 1);
    }
}

/// An address is a directory if it is the root or if a file lies below it, with or without a
/// slash at its end; a file is found under its own address unless the boundary refuses that.
pub proof fn law_addresses_lead_to_files_and_directories(
    vfs: VfsView,
    dir: Seq<char>,
    rest: Seq<char>,
    uri: Seq<char>,
    why: LegacyCoreError,
)
    requires
        dir.len() > 0,
        dir.last() != '/',
    ensures
        is_directory(vfs, vfs.prefix),
        vfs.entries.contains_key(dir + seq!['/'] + rest) ==> is_directory(vfs, dir) && is_directory(
            vfs,
            dir + seq!['/'],
        ),
        is_directory(vfs, dir) && dir != vfs.prefix ==> exists|file: Seq<char>|
            vfs.entries.contains_key(file) && #[trigger] text::has_prefix(file, dir + seq!['/']),
        vfs.entries.contains_key(uri) ==> found_file(vfs, uri, None) == Ok::<FileView, Fault>(
            vfs.entries[uri],
        ),
        !vfs.entries.contains_key(uri) ==> (found_file(vfs, uri, None) matches Err(f) && f.code
            == "ASTRA_EMU_VFS_NOT_FOUND"@),
        found_file(vfs, uri, Some(why)) == Err::<FileView, Fault>(why@),
{
    reveal_strlit("/");
    assert("/"@ =~= seq!['/']);
    law_directory_slash_does_not_matter(dir);
    let file = dir + seq!['/'] + rest;
    let base = dir + seq!['/'];
    assert(file.subrange(0, base.len() as int) =~= base);
    assert(text::has_prefix(file, base));
}

/// A mount is asked for under the schema of this family and its digest, under the prefix
/// `fvp:/` and without a private patch.
pub proof fn law_mounts_are_asked_for_in_form(context: MountContext)
    ensures
        profile_ok(context) <==> {
            &&& context.schema_id@ == "astra.emu.fvp_vfs_options.v1"@
            &&& context.schema_hash@ == crate::digest::sha256_of(
                vstd::utf8::encode_utf8("astra.emu.fvp_vfs_options.v1"@),
            )
            &&& context.prefix@ == "fvp:/"@
            &&& !context.private_patch
        },
{
}

/// What is said of a mounted entry is said of its own fields.
pub proof fn law_mounted_entry_is_seen_as_it_is(entry: MountedEntry)
    ensures
        entry@.archive_index == entry.archive_index as int,
        entry@.entry_index == entry.entry_index as int,
        entry@.entry_id == entry.entry_id@,
        entry@.role == entry.role@,
        entry@.size == entry.size,
        entry@.content_hash == entry.content_hash@,
        entry@.media_kind == entry.media_kind@,
{
}

/// A listing has each child once, by increasing names, with the address below its directory
/// and its own kind.
pub proof fn law_listings_are_sorted(
    nodes: Seq<LegacyVfsNode>,
    base: Seq<char>,
    found: Map<Seq<char>, LegacyVfsNodeKind>,
    i: int,
    j: int,
)
    requires
        lists(nodes, base, found),
        0 <= i < j < nodes.len(),
    ensures
        crate::names::text_lt(nodes[i].name@, nodes[j].name@),
        nodes[i].name@ != nodes[j].name@,
        nodes[i].uri@ == base + nodes[i].name@,
        found.contains_key(nodes[i].name@) && found[nodes[i].name@] == nodes[i].kind,
        forall|name: Seq<char>| #[trigger]
            found.contains_key(name) ==> exists|k: int|
                0 <= k < nodes.len() && (#[trigger] nodes[k]).name@ == name,
{
    crate::names::lemma_text_lt_irreflexive(nodes[i].name@);
    let first = nodes[i];
    let second = nodes[j];
}

}
