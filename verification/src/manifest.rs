//! The pack manifest: what a mount offers and where each entry comes from.

use vstd::prelude::*;

use crate::digest::Hash256;

verus! {

/// One mounted entry.
#[derive(Debug, Clone)]
pub struct LegacyVfsEntry {
    pub uri: String,
    pub entry_id: String,
    pub source_id: String,
    pub source_offset: u64,
    pub stored_size: u64,
    pub decoded_size: u64,
    pub source_hash: Hash256,
    pub content_hash: Option<Hash256>,
    pub method: String,
    pub media_kind: String,
}

#[verifier::ext_equal]
pub struct VfsEntryView {
    pub uri: Seq<char>,
    pub entry_id: Seq<char>,
    pub source_id: Seq<char>,
    pub source_offset: u64,
    pub stored_size: u64,
    pub decoded_size: u64,
    pub source_hash: Seq<u8>,
    pub content_hash: Option<Seq<u8>>,
    pub method: Seq<char>,
    pub media_kind: Seq<char>,
}

impl LegacyVfsEntry {
    pub open spec fn view(&self) -> VfsEntryView {
        VfsEntryView {
            uri: self.uri@,
            entry_id: self.entry_id@,
            source_id: self.source_id@,
            source_offset: self.source_offset,
            stored_size: self.stored_size,
            decoded_size: self.decoded_size,
            source_hash: self.source_hash@,
            content_hash: match self.content_hash {
                Some(h) => Some(h@),
                None => None,
            },
            method: self.method@,
            media_kind: self.media_kind@,
        }
    }
}

/// One archive behind a mount.
#[derive(Debug, Clone)]
pub struct LegacyVfsSource {
    pub source_id: String,
    pub archive_role: Option<String>,
    pub byte_size: u64,
    pub part_count: u32,
    pub source_hash: Hash256,
}

#[verifier::ext_equal]
pub struct VfsSourceView {
    pub source_id: Seq<char>,
    pub archive_role: Option<Seq<char>>,
    pub byte_size: u64,
    pub part_count: u32,
    pub source_hash: Seq<u8>,
}

impl LegacyVfsSource {
    pub open spec fn view(&self) -> VfsSourceView {
        VfsSourceView {
            source_id: self.source_id@,
            archive_role: match self.archive_role {
                Some(r) => Some(r@),
                None => None,
            },
            byte_size: self.byte_size,
            part_count: self.part_count,
            source_hash: self.source_hash@,
        }
    }
}

#[derive(Debug, Clone)]
pub struct LegacyPackManifest {
    pub schema: String,
    pub family_id: String,
    pub mount_id: String,
    pub prefix: String,
    pub reader_id: String,
    pub reader_hash: Hash256,
    pub decrypt_provider_id: String,
    pub private_profile_hash: Hash256,
    pub mount_profile_hash: Hash256,
    pub sources: Vec<LegacyVfsSource>,
    pub entries: Vec<LegacyVfsEntry>,
}

#[verifier::ext_equal]
pub struct ManifestView {
    pub schema: Seq<char>,
    pub family_id: Seq<char>,
    pub mount_id: Seq<char>,
    pub prefix: Seq<char>,
    pub reader_id: Seq<char>,
    pub reader_hash: Seq<u8>,
    pub decrypt_provider_id: Seq<char>,
    pub private_profile_hash: Seq<u8>,
    pub mount_profile_hash: Seq<u8>,
    pub sources: Seq<VfsSourceView>,
    pub entries: Seq<VfsEntryView>,
}

pub open spec fn source_views(s: Seq<LegacyVfsSource>) -> Seq<VfsSourceView> {
    Seq::new(s.len(), |i: int| s[i]@)
}

pub open spec fn entry_views(s: Seq<LegacyVfsEntry>) -> Seq<VfsEntryView> {
    Seq::new(s.len(), |i: int| s[i]@)
}

impl LegacyPackManifest {
    pub open spec fn view(&self) -> ManifestView {
        ManifestView {
            schema: self.schema@,
            family_id: self.family_id@,
            mount_id: self.mount_id@,
            prefix: self.prefix@,
            reader_id: self.reader_id@,
            reader_hash: self.reader_hash@,
            decrypt_provider_id: self.decrypt_provider_id@,
            private_profile_hash: self.private_profile_hash@,
            mount_profile_hash: self.mount_profile_hash@,
            sources: source_views(self.sources@),
            entries: entry_views(self.entries@),
        }
    }
}

/// The bytes whose digest stands for "no private profile".
pub open spec fn no_private_profile() -> Seq<u8> {
    vstd::utf8::encode_utf8("astra.emu.fvp.no_private_profile"@)
}

/// The identity of "no private profile".
pub fn no_private_profile_hash() -> (r: Hash256)
    ensures
        r@ == crate::digest::sha256_of(no_private_profile()),
{
    Hash256::from_sha256("astra.emu.fvp.no_private_profile".as_bytes())
}

}
