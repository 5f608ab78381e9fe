//! What a store from before the migration holds, and how its keys were
//! formed.

use vstd::prelude::*;
use vstd::slice::{slice_subrange, slice_to_vec};
use vstd::string::*;
use vstd::utf8::encode_utf8;
use crate::alias::{alias_from_bytes, token_from_bytes, Alias, AliasView, DeleteToken};
use crate::bytes::{bytes_eq, concat_bytes, is_prefix, starts_with};
use crate::details::{Details, DetailsView};
use crate::ident::IdView;
use crate::repo::table::Key;
use crate::repo::{
    generator_key, generator_key_bytes, store_migration_key, store_migration_progress,
};
use crate::text::{string_from_utf8_lossy, utf8_lossy};

verus! {

/// The key under which the delete token of an alias was kept.
pub fn delete_key(alias: &str) -> (r: String)
    ensures
        r@ == alias@ + "/delete"@,
{
    alias.to_owned().concat("/delete")
}

/// The key under which the number of an alias was kept.
pub fn alias_id_key(alias: &str) -> (r: String)
    ensures
        r@ == alias@ + "/id"@,
{
    alias.to_owned().concat("/id")
}

/// The key under which the alias with the number `id` of `hash` was kept.
pub fn alias_key(hash: &[u8], id: &str) -> (r: Vec<u8>)
    ensures
        r@ == hash@ + seq![0u8] + id.spec_bytes(),
{
    let mut key = concat_bytes(hash, [0u8].as_slice());
    let ghost before = key@;
    key.extend_from_slice(id.as_bytes());
    assert(key@ =~= before + id.spec_bytes());
    assert(before =~= hash@ + seq![0u8]);
    key
}

/// The bounds between which the keys of the aliases of `hash` lay: from
/// the first inclusive to the second exclusive.
pub fn alias_key_bounds(hash: &[u8]) -> (r: (Vec<u8>, Vec<u8>))
    ensures
        r.0@ == hash@ + seq![0u8],
        r.1@ == hash@ + seq![1u8],
{
    let start = concat_bytes(hash, [0u8].as_slice());
    let end = concat_bytes(hash, [1u8].as_slice());
    assert(start@ =~= hash@ + seq![0u8]);
    assert(end@ =~= hash@ + seq![1u8]);
    (start, end)
}

/// The key under which the variant of `filename` with the processing path
/// `variant_process_path` was kept.
pub fn variant_key(variant_process_path: &str, filename: &str) -> (r: Vec<u8>)
    ensures
        r@ == vstd::utf8::encode_utf8(filename@ + "/"@ + variant_process_path@),
{
    filename.to_owned().concat("/").concat(variant_process_path).as_str().as_bytes_vec()
}

/// The key under which the details of the blob of `filename` at
/// `variant_path` were kept.
pub fn details_key(variant_path: &str, filename: &str) -> (r: Vec<u8>)
    ensures
        r@ == vstd::utf8::encode_utf8(filename@ + "/"@ + variant_path@),
{
    variant_key(variant_path, filename)
}

/// The key under which the motion preview of `filename` was kept.
pub fn motion_key(filename: &str) -> (r: String)
    ensures
        r@ == filename@ + "/motion"@,
{
    filename.to_owned().concat("/motion")
}

/// One alias of the old store with its delete token, where it had one.
pub struct OldAlias {
    pub alias: Alias,
    pub delete_token: Option<DeleteToken>,
}

/// What the old store holds of one hash. A part that could not be read is
/// absent.
pub struct OldHash {
    pub hash: Vec<u8>,
    /// Where the original is stored.
    pub main_identifier: Option<Vec<u8>>,
    /// The aliases of the hash.
    pub aliases: Vec<OldAlias>,
    /// Where the motion preview is stored, where there is one.
    pub motion_identifier: Option<Vec<u8>>,
    /// The variants: variant key and where the variant is stored.
    pub variants: Option<Vec<(String, Vec<u8>)>>,
    /// The details of the blobs of the hash, by their identifiers.
    pub details: Option<Vec<(Vec<u8>, Details)>>,
}

/// A store from before the migration, for reading only.
pub struct Old {
    /// The hashes in the order in which the store lists them.
    pub hashes: Vec<OldHash>,
    /// How far an earlier migration of the blobs had come.
    pub store_migration_progress: Option<Vec<u8>>,
    /// The cursor of the path generator.
    pub generator_cursor: Option<Vec<u8>>,
}

/// The mathematical value of what the old store holds of one hash.
pub struct OldHashView {
    pub hash: Seq<u8>,
    pub main_identifier: Option<Seq<u8>>,
    pub aliases: Seq<(AliasView, Option<IdView>)>,
    pub motion_identifier: Option<Seq<u8>>,
    pub variants: Option<Seq<(Seq<char>, Seq<u8>)>>,
    pub details: Option<Seq<(Seq<u8>, DetailsView)>>,
}

/// The bytes of an optional byte string.
pub open spec fn bytes_of(v: Option<Vec<u8>>) -> Option<Seq<u8>> {
    match v {
        Some(b) => Some(b@),
        None => None,
    }
}

/// The values of a list of old aliases.
pub open spec fn alias_views(aliases: Seq<OldAlias>) -> Seq<(AliasView, Option<IdView>)> {
    aliases.map_values(
        |a: OldAlias|
            (
                a.alias@,
                match a.delete_token {
                    Some(t) => Some(t@),
                    None => None,
                },
            ),
    )
}

/// The values of a list of variants.
pub open spec fn variant_views(variants: Seq<(String, Vec<u8>)>) -> Seq<(Seq<char>, Seq<u8>)> {
    variants.map_values(|v: (String, Vec<u8>)| (v.0@, v.1@))
}

/// The values of a list of details.
pub open spec fn details_views(details: Seq<(Vec<u8>, Details)>) -> Seq<(Seq<u8>, DetailsView)> {
    details.map_values(|d: (Vec<u8>, Details)| (d.0@, d.1@))
}

impl View for OldHash {
    type V = OldHashView;

    open spec fn view(&self) -> OldHashView {
        OldHashView {
            hash: self.hash@,
            main_identifier: bytes_of(self.main_identifier),
            aliases: alias_views(self.aliases@),
            motion_identifier: bytes_of(self.motion_identifier),
            variants: match self.variants {
                Some(v) => Some(variant_views(v@)),
                None => None,
            },
            details: match self.details {
                Some(d) => Some(details_views(d@)),
                None => None,
            },
        }
    }
}

/// The mathematical value of a store from before the migration.
pub struct OldView {
    pub hashes: Seq<OldHashView>,
    pub store_migration_progress: Option<Seq<u8>>,
    pub generator_cursor: Option<Seq<u8>>,
}

impl View for Old {
    type V = OldView;

    open spec fn view(&self) -> OldView {
        OldView {
            hashes: self.hashes@.map_values(|h: OldHash| h@),
            store_migration_progress: bytes_of(self.store_migration_progress),
            generator_cursor: bytes_of(self.generator_cursor),
        }
    }
}

/// The trees of a store of the old layout, each as its entries in the order
/// of their keys.
///
/// - alias tree: alias -> hash, alias/delete -> delete token
/// - main tree: hash -> filename, hash 0 number -> alias
/// - filename tree: filename -> hash
/// - path tree: filename -> path of the original, filename/variant -> path
///   of the variant, filename/motion -> path of the motion preview
/// - details tree: filename/path -> details of the blob at the path
/// - settings tree: the cursor of the path generator and the progress of a
///   migration of the blobs
pub struct OldTrees {
    pub alias: Vec<(Vec<u8>, Vec<u8>)>,
    pub main: Vec<(Vec<u8>, Vec<u8>)>,
    pub filename: Vec<(Vec<u8>, Vec<u8>)>,
    pub path: Vec<(Vec<u8>, Vec<u8>)>,
    pub details: Vec<(Vec<u8>, Details)>,
    pub settings: Vec<(Vec<u8>, Vec<u8>)>,
}

/// The value under `key` among `entries`.
pub open spec fn lookup(entries: Seq<(Vec<u8>, Vec<u8>)>, key: Seq<u8>) -> Option<Seq<u8>>
    decreases entries.len(),
{
    if entries.len() == 0 {
        None
    } else if entries[0].0@ == key {
        Some(entries[0].1@)
    } else {
        lookup(entries.drop_first(), key)
    }
}

impl OldTrees {
    /// The name of the file of `hash`.
    pub open spec fn filename_of(self, hash: Seq<u8>) -> Option<Seq<char>> {
        match lookup(self.main@, hash) {
            Some(name) => Some(utf8_lossy(name)),
            None => None,
        }
    }

    /// The delete token of `alias`, where one is on record that can be read.
    pub open spec fn token_of(self, alias: AliasView) -> Option<IdView> {
        match lookup(self.alias@, encode_utf8(alias.text() + "/delete"@)) {
            Some(token) => token_from_bytes(token),
            None => None,
        }
    }

    /// The aliases of `hash` among the given entries of the main tree, each
    /// with its delete token: the values under the keys that start with the
    /// hash and a zero byte, as far as they can be read as aliases.
    pub open spec fn aliases_among(
        self,
        entries: Seq<(Vec<u8>, Vec<u8>)>,
        hash: Seq<u8>,
    ) -> Seq<(AliasView, Option<IdView>)>
        decreases entries.len(),
    {
        if entries.len() == 0 {
            Seq::empty()
        } else {
            let before = self.aliases_among(entries.drop_last(), hash);
            let entry = entries.last();
            if is_prefix(hash + seq![0u8], entry.0@) {
                match alias_from_bytes(entry.1@) {
                    Some(alias) => before.push((alias, self.token_of(alias))),
                    None => before,
                }
            } else {
                before
            }
        }
    }

    /// What the old store holds: something of each hash that the filename
    /// tree lists, in that order, and the settings that are taken over.
    pub open spec fn old_store(self) -> OldView {
        OldView {
            hashes: self.filename@.map_values(|e: (Vec<u8>, Vec<u8>)| self.old_hash(e.1@)),
            store_migration_progress: lookup(self.settings@, store_migration_key()),
            generator_cursor: lookup(self.settings@, generator_key()),
        }
    }

    /// What the old store holds of `hash`.
    pub open spec fn old_hash(self, hash: Seq<u8>) -> OldHashView {
        let filename = self.filename_of(hash);
        OldHashView {
            hash,
            main_identifier: match filename {
                Some(name) => lookup(self.path@, encode_utf8(name)),
                None => None,
            },
            aliases: self.aliases_among(self.main@, hash),
            motion_identifier: match filename {
                Some(name) => lookup(self.path@, encode_utf8(name + "/motion"@)),
                None => None,
            },
            variants: match filename {
                Some(name) => Some(variants_among(self.path@, name)),
                None => None,
            },
            details: match filename {
                Some(name) => Some(details_among(self.details@, name)),
                None => None,
            },
        }
    }
}

/// The variants of the file `name` among the given entries of the path tree:
/// the entries under the keys that start with the name and a slash, but for
/// the motion preview; the rest of the key names the variant.
pub open spec fn variants_among(entries: Seq<(Vec<u8>, Vec<u8>)>, name: Seq<char>) -> Seq<
    (Seq<char>, Seq<u8>),
>
    decreases entries.len(),
{
    if entries.len() == 0 {
        Seq::empty()
    } else {
        let before = variants_among(entries.drop_last(), name);
        let entry = entries.last();
        let prefix = encode_utf8(name + "/"@);
        if is_prefix(prefix, entry.0@) && entry.0@ != encode_utf8(name + "/motion"@) {
            before.push((utf8_lossy(entry.0@.skip(prefix.len() as int)), entry.1@))
        } else {
            before
        }
    }
}

/// The details of the blobs of the file `name` among the given entries of
/// the details tree: the entries under the keys that start with the name and
/// a slash; the rest of the key is the identifier of the blob.
pub open spec fn details_among(entries: Seq<(Vec<u8>, Details)>, name: Seq<char>) -> Seq<
    (Seq<u8>, DetailsView),
>
    decreases entries.len(),
{
    if entries.len() == 0 {
        Seq::empty()
    } else {
        let before = details_among(entries.drop_last(), name);
        let entry = entries.last();
        let prefix = encode_utf8(name + "/"@);
        if is_prefix(prefix, entry.0@) {
            before.push((entry.0@.skip(prefix.len() as int), entry.1@))
        } else {
            before
        }
    }
}

/// The value under `key` among `entries`.
pub fn find_entry<'a>(entries: &'a Vec<(Vec<u8>, Vec<u8>)>, key: &[u8]) -> (r: Option<&'a Vec<u8>>)
    ensures
        match r {
            Some(v) => lookup(entries@, key@) == Some(v@),
            None => lookup(entries@, key@) is None,
        },
{
    let mut i: usize = 0;
    assert(entries@.skip(0) =~= entries@);
    while i < entries.len()
        invariant
            i <= entries@.len(),
            lookup(entries@, key@) == lookup(entries@.skip(i as int), key@),
        decreases entries@.len() - i,
    {
        assert(entries@.skip(i as int)[0] == entries@[i as int]);
        if bytes_eq(entries[i].0.as_slice(), key) {
            return Some(&entries[i].1);
        }
        assert(entries@.skip(i as int).drop_first() =~= entries@.skip(i + 1));
        i += 1;
    }
    None
}

impl OldTrees {
    /// The aliases of `hash`, each with its delete token.
    fn aliases(&self, hash: &Vec<u8>) -> (r: Vec<OldAlias>)
        ensures
            alias_views(r@) == self.aliases_among(self.main@, hash@),
    {
        let (start, _) = alias_key_bounds(hash.as_slice());
        let mut out: Vec<OldAlias> = Vec::new();
        let mut i: usize = 0;
        assert(alias_views(out@) =~= Seq::empty());
        while i < self.main.len()
            invariant
                i <= self.main@.len(),
                start@ == hash@ + seq![0u8],
                alias_views(out@) == self.aliases_among(self.main@.take(i as int), hash@),
            decreases self.main@.len() - i,
        {
            proof {
                assert(self.main@.take(i + 1).drop_last() =~= self.main@.take(i as int));
                assert(self.main@.take(i + 1).last() == self.main@[i as int]);
            }
            if starts_with(self.main[i].0.as_slice(), start.as_slice()) {
                match Alias::from_slice(self.main[i].1.as_slice()) {
                    Some(alias) => {
                        let key = delete_key(alias.to_string().as_str());
                        let delete_token = match find_entry(&self.alias, key.as_str().as_bytes()) {
                            Some(token) => DeleteToken::from_slice(token.as_slice()),
                            None => None,
                        };
                        let ghost before = out@;
                        let entry = OldAlias { alias, delete_token };
                        out.push(entry);
                        assert(alias_views(out@) =~= alias_views(before).push(
                            (
                                entry.alias@,
                                match entry.delete_token {
                                    Some(t) => Some(t@),
                                    None => None,
                                },
                            ),
                        ));
                    },
                    None => {},
                }
            }
            i += 1;
        }
        assert(self.main@.take(self.main@.len() as int) =~= self.main@);
        out
    }

    /// The variants of the file `name`.
    fn variants(&self, name: &str) -> (r: Vec<(String, Vec<u8>)>)
        ensures
            variant_views(r@) == variants_among(self.path@, name@),
    {
        let prefix = name.to_owned().concat("/");
        let prefix = prefix.as_str().as_bytes();
        let motion = motion_key(name);
        let motion = motion.as_str().as_bytes();
        let mut out: Vec<(String, Vec<u8>)> = Vec::new();
        let mut i: usize = 0;
        assert(variant_views(out@) =~= Seq::empty());
        while i < self.path.len()
            invariant
                i <= self.path@.len(),
                prefix@ == encode_utf8(name@ + "/"@),
                motion@ == encode_utf8(name@ + "/motion"@),
                variant_views(out@) == variants_among(self.path@.take(i as int), name@),
            decreases self.path@.len() - i,
        {
            proof {
                assert(self.path@.take(i + 1).drop_last() =~= self.path@.take(i as int));
                assert(self.path@.take(i + 1).last() == self.path@[i as int]);
            }
            let key = self.path[i].0.as_slice();
            if starts_with(key, prefix) && !bytes_eq(key, motion) {
                let rest = slice_subrange(key, prefix.len(), key.len());
                assert(rest@ =~= key@.skip(prefix@.len() as int));
                let ghost before = out@;
                let entry = (string_from_utf8_lossy(rest), self.path[i].1.duplicate());
                out.push(entry);
                assert(variant_views(out@) =~= variant_views(before).push((entry.0@, entry.1@)));
            }
            i += 1;
        }
        assert(self.path@.take(self.path@.len() as int) =~= self.path@);
        out
    }

    /// The details of the blobs of the file `name`.
    fn details(&self, name: &str) -> (r: Vec<(Vec<u8>, Details)>)
        ensures
            details_views(r@) == details_among(self.details@, name@),
    {
        let prefix = name.to_owned().concat("/");
        let prefix = prefix.as_str().as_bytes();
        let mut out: Vec<(Vec<u8>, Details)> = Vec::new();
        let mut i: usize = 0;
        assert(details_views(out@) =~= Seq::empty());
        while i < self.details.len()
            invariant
                i <= self.details@.len(),
                prefix@ == encode_utf8(name@ + "/"@),
                details_views(out@) == details_among(self.details@.take(i as int), name@),
            decreases self.details@.len() - i,
        {
            proof {
                assert(self.details@.take(i + 1).drop_last() =~= self.details@.take(i as int));
                assert(self.details@.take(i + 1).last() == self.details@[i as int]);
            }
            let key = self.details[i].0.as_slice();
            if starts_with(key, prefix) {
                let rest = slice_subrange(key, prefix.len(), key.len());
                assert(rest@ =~= key@.skip(prefix@.len() as int));
                let ghost before = out@;
                let entry = (slice_to_vec(rest), self.details[i].1.duplicate());
                out.push(entry);
                assert(details_views(out@) =~= details_views(before).push((entry.0@, entry.1@)));
            }
            i += 1;
        }
        assert(self.details@.take(self.details@.len() as int) =~= self.details@);
        out
    }

    /// Reads what the old store holds of `hash`.
    pub fn read_hash(&self, hash: &Vec<u8>) -> (r: OldHash)
        ensures
            r@ == self.old_hash(hash@),
    {
        let aliases = self.aliases(hash);
        match find_entry(&self.main, hash.as_slice()) {
            Some(name) => {
                let name = string_from_utf8_lossy(name.as_slice());
                let motion = motion_key(name.as_str());
                OldHash {
                    hash: hash.duplicate(),
                    main_identifier: match find_entry(&self.path, name.as_str().as_bytes()) {
                        Some(id) => Some(id.duplicate()),
                        None => None,
                    },
                    aliases,
                    motion_identifier: match find_entry(&self.path, motion.as_str().as_bytes()) {
                        Some(id) => Some(id.duplicate()),
                        None => None,
                    },
                    variants: Some(self.variants(name.as_str())),
                    details: Some(self.details(name.as_str())),
                }
            },
            None => OldHash {
                hash: hash.duplicate(),
                main_identifier: None,
                aliases,
                motion_identifier: None,
                variants: None,
                details: None,
            },
        }
    }

    /// Reads the old store.
    pub fn read(&self) -> (r: Old)
        ensures
            r@ == self.old_store(),
    {
        let mut hashes: Vec<OldHash> = Vec::new();
        let mut i: usize = 0;
        while i < self.filename.len()
            invariant
                i <= self.filename@.len(),
                hashes@.len() == i,
                forall|j: int|
                    0 <= j < i ==> (#[trigger] hashes@[j])@ == self.old_hash(self.filename@[j].1@),
            decreases self.filename@.len() - i,
        {
            hashes.push(self.read_hash(&self.filename[i].1));
            i += 1;
        }
        let r = Old {
            hashes,
            store_migration_progress: match find_entry(
                &self.settings,
                store_migration_progress().as_slice(),
            ) {
                Some(v) => Some(v.duplicate()),
                None => None,
            },
            generator_cursor: match find_entry(&self.settings, generator_key_bytes().as_slice()) {
                Some(v) => Some(v.duplicate()),
                None => None,
            },
        };
        assert(r@.hashes =~= self.old_store().hashes);
        r
    }
}

} // verus!
