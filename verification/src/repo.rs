//! The metadata repository: the relations between hashes, aliases,
//! identifiers, variants and details, and the settings that outlive a
//! process.

use vstd::prelude::*;
use vstd::string::*;
use vstd::utf8::encode_utf8;
use crate::details::{Details, DetailsView};
use crate::repo::alias_repo::{AliasRepo, AliasState};
use crate::repo::hash_repo::{HashRepo, HashState};
use crate::repo::table::{Key, Table};

pub mod alias_repo;
pub mod hash_repo;
pub mod legacy;
pub mod migrate;
pub mod table;

verus! {

/// The answer of a guarded creation to a key that is there already.
#[derive(Debug, PartialEq, Eq)]
pub struct AlreadyExists;

/// The key of the marker that says that the migration has been done.
pub open spec fn repo_migration_key() -> Seq<u8> {
    encode_utf8("repo-migration-01"@)
}

/// The key under which the progress of a migration of the blobs is kept.
pub open spec fn store_migration_key() -> Seq<u8> {
    encode_utf8("store-migration-progress"@)
}

/// The key under which the cursor of the path generator is kept.
pub open spec fn generator_key() -> Seq<u8> {
    encode_utf8("last-path"@)
}

/// The value of the marker.
pub open spec fn marker_value() -> Seq<u8> {
    encode_utf8("1"@)
}

/// The key of the marker that says that the migration has been done.
pub fn repo_migration_o1() -> (r: Vec<u8>)
    ensures
        r@ == repo_migration_key(),
{
    "repo-migration-01".as_bytes_vec()
}

/// The key under which the progress of a migration of the blobs is kept.
pub fn store_migration_progress() -> (r: Vec<u8>)
    ensures
        r@ == store_migration_key(),
{
    "store-migration-progress".as_bytes_vec()
}

/// The key under which the cursor of the path generator is kept.
pub fn generator_key_bytes() -> (r: Vec<u8>)
    ensures
        r@ == generator_key(),
{
    "last-path".as_bytes_vec()
}

/// Values that belong to the whole installation, each under a fixed key.
pub struct SettingsRepo {
    values: Table<Vec<u8>, Vec<u8>>,
}

impl View for SettingsRepo {
    type V = Map<Seq<u8>, Seq<u8>>;

    closed spec fn view(&self) -> Map<Seq<u8>, Seq<u8>> {
        self.values@
    }
}

impl SettingsRepo {
    /// No setting.
    pub fn new() -> (r: Self)
        ensures
            r@ == Map::<Seq<u8>, Seq<u8>>::empty(),
    {
        SettingsRepo { values: Table::new() }
    }

    /// Stores `value` under `key`.
    pub fn set(&mut self, key: Vec<u8>, value: Vec<u8>)
        ensures
            final(self)@ == old(self)@.insert(key@, value@),
    {
        self.values.insert(key, value);
    }

    /// The value under `key`.
    pub fn get(&self, key: &Vec<u8>) -> (r: Option<Vec<u8>>)
        ensures
            match r {
                Some(v) => self@.contains_key(key@) && self@[key@] == v@,
                None => !self@.contains_key(key@),
            },
    {
        match self.values.get(key) {
            Some(v) => Some(v.duplicate()),
            None => None,
        }
    }

    /// Removes the value under `key`.
    pub fn remove(&mut self, key: &Vec<u8>)
        ensures
            final(self)@ == old(self)@.remove(key@),
    {
        self.values.remove(key);
    }
}

/// The details of stored blobs, by the bytes of their identifiers.
pub struct IdentifierRepo {
    details: Table<Vec<u8>, Details>,
}

impl View for IdentifierRepo {
    type V = Map<Seq<u8>, DetailsView>;

    closed spec fn view(&self) -> Map<Seq<u8>, DetailsView> {
        self.details@
    }
}

impl IdentifierRepo {
    /// No details.
    pub fn new() -> (r: Self)
        ensures
            r@ == Map::<Seq<u8>, DetailsView>::empty(),
    {
        IdentifierRepo { details: Table::new() }
    }

    /// Records the details of the blob at `identifier`.
    pub fn relate_details(&mut self, identifier: Vec<u8>, details: &Details)
        ensures
            final(self)@ == old(self)@.insert(identifier@, details@),
    {
        self.details.insert(identifier, details.duplicate());
    }

    /// The details of the blob at `identifier`.
    pub fn details(&self, identifier: &Vec<u8>) -> (r: Option<Details>)
        ensures
            match r {
                Some(d) => self@.contains_key(identifier@) && self@[identifier@] == d@,
                None => !self@.contains_key(identifier@),
            },
    {
        match self.details.get(identifier) {
            Some(d) => Some(d.duplicate()),
            None => None,
        }
    }

    /// Forgets the details of the blob at `identifier`.
    pub fn cleanup(&mut self, identifier: &Vec<u8>)
        ensures
            final(self)@ == old(self)@.remove(identifier@),
    {
        self.details.remove(identifier);
    }
}

/// Everything the repository records.
pub struct RepoState {
    pub settings: Map<Seq<u8>, Seq<u8>>,
    pub identifiers: Map<Seq<u8>, DetailsView>,
    pub hashes: HashState,
    pub aliases: AliasState,
}

/// The metadata repository, held in memory: four groups of relations that
/// change independently of each other.
pub struct Repo {
    pub settings: SettingsRepo,
    pub identifiers: IdentifierRepo,
    pub hashes: HashRepo,
    pub aliases: AliasRepo,
}

impl View for Repo {
    type V = RepoState;

    open spec fn view(&self) -> RepoState {
        RepoState {
            settings: self.settings@,
            identifiers: self.identifiers@,
            hashes: self.hashes@,
            aliases: self.aliases@,
        }
    }
}

impl RepoState {
    /// Nothing recorded.
    pub open spec fn empty() -> RepoState {
        RepoState {
            settings: Map::empty(),
            identifiers: Map::empty(),
            hashes: HashState::empty(),
            aliases: AliasState::empty(),
        }
    }
}

impl Repo {
    /// A repository that records nothing.
    pub fn open() -> (r: Self)
        ensures
            r@ == RepoState::empty(),
    {
        Repo {
            settings: SettingsRepo::new(),
            identifiers: IdentifierRepo::new(),
            hashes: HashRepo::new(),
            aliases: AliasRepo::new(),
        }
    }
}

} // verus!
