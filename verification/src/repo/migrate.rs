//! The migration from a store of the old layout: each hash is taken over
//! once, and a marker among the settings keeps a later start from doing it
//! again.

use vstd::prelude::*;
use vstd::string::*;
use crate::alias::AliasView;
use crate::details::{Details, DetailsView};
use crate::repo::alias_repo::AliasState;
use crate::repo::hash_repo::HashState;
use crate::ident::IdView;
use crate::repo::legacy::{
    alias_views, details_views, variant_views, Old, OldHash, OldHashView, OldTrees, OldView,
};
use crate::repo::table::Key;
use crate::repo::{
    generator_key, generator_key_bytes, marker_value, repo_migration_key, repo_migration_o1,
    store_migration_key, store_migration_progress, Repo, RepoState,
};

verus! {

impl RepoState {
    /// Whether the migration has been done.
    pub open spec fn has_migrated(self) -> bool {
        self.settings.contains_key(repo_migration_key())
    }

    /// The state after the migration has been marked as done.
    pub open spec fn mark_migrated(self) -> RepoState {
        RepoState { settings: self.settings.insert(repo_migration_key(), marker_value()), ..self }
    }

    /// The state after one alias of the old store has been taken over for
    /// `hash`: an alias that exists is left alone; a new one is created,
    /// related to the hash in both directions and given its old delete token
    /// where it had one.
    pub open spec fn migrate_alias(
        self,
        hash: Seq<u8>,
        alias: AliasView,
        token: Option<IdView>,
    ) -> RepoState {
        if self.aliases.aliases.contains(alias) {
            self
        } else {
            RepoState {
                hashes: self.hashes.relate_alias(hash, alias),
                aliases: AliasState {
                    aliases: self.aliases.aliases.insert(alias),
                    hashes: self.aliases.hashes.insert(alias, hash),
                    delete_tokens: match token {
                        Some(t) => if self.aliases.delete_tokens.contains_key(alias) {
                            self.aliases.delete_tokens
                        } else {
                            self.aliases.delete_tokens.insert(alias, t)
                        },
                        None => self.aliases.delete_tokens,
                    },
                },
                ..self
            }
        }
    }

    /// The state after the settings of the old store have been copied.
    pub open spec fn copy_settings(self, old_store: OldView) -> RepoState {
        let with_progress = match old_store.store_migration_progress {
            Some(v) => self.settings.insert(store_migration_key(), v),
            None => self.settings,
        };
        RepoState {
            settings: match old_store.generator_cursor {
                Some(v) => with_progress.insert(generator_key(), v),
                None => with_progress,
            },
            ..self
        }
    }
}

/// The state after the aliases of the old store have been taken over for
/// `hash`, in their order.
pub open spec fn migrate_aliases(
    s: RepoState,
    hash: Seq<u8>,
    aliases: Seq<(AliasView, Option<IdView>)>,
) -> RepoState
    decreases aliases.len(),
{
    if aliases.len() == 0 {
        s
    } else {
        migrate_aliases(s, hash, aliases.drop_last()).migrate_alias(
            hash,
            aliases.last().0,
            aliases.last().1,
        )
    }
}

/// The hash relations after the variants of the old store have been taken
/// over for `hash`, in their order.
pub open spec fn migrate_variants(
    s: HashState,
    hash: Seq<u8>,
    variants: Seq<(Seq<char>, Seq<u8>)>,
) -> HashState
    decreases variants.len(),
{
    if variants.len() == 0 {
        s
    } else {
        migrate_variants(s, hash, variants.drop_last()).relate_variant_identifier(
            hash,
            variants.last().0,
            variants.last().1,
        )
    }
}

/// The details after the details of the old store have been taken over, in
/// their order.
pub open spec fn migrate_details(
    s: Map<Seq<u8>, DetailsView>,
    details: Seq<(Seq<u8>, DetailsView)>,
) -> Map<Seq<u8>, DetailsView>
    decreases details.len(),
{
    if details.len() == 0 {
        s
    } else {
        migrate_details(s, details.drop_last()).insert(details.last().0, details.last().1)
    }
}

/// What taking over one hash of the old store makes of the state, and
/// whether it came to its end. A hash that exists is skipped. Otherwise the
/// hash is created, then its original, its aliases, its motion preview, its
/// variants and the details of its blobs are recorded, and last the settings
/// are copied. Where a part of the old store is absent the migration of the
/// hash stops there and keeps what it has recorded.
pub open spec fn migrated_hash(s: RepoState, old_store: OldView, h: OldHashView) -> (
    RepoState,
    bool,
) {
    let hash = h.hash;
    if s.hashes.hashes.contains(hash) {
        (s, true)
    } else {
        let s1 = RepoState { hashes: s.hashes.create(hash), ..s };
        match h.main_identifier {
            None => (s1, false),
            Some(main) => {
                let s2 = RepoState { hashes: s1.hashes.relate_identifier(hash, main), ..s1 };
                let s3 = migrate_aliases(s2, hash, h.aliases);
                let s4 = match h.motion_identifier {
                    Some(m) => RepoState {
                        hashes: s3.hashes.relate_motion_identifier(hash, m),
                        ..s3
                    },
                    None => s3,
                };
                match h.variants {
                    None => (s4, false),
                    Some(variants) => {
                        let s5 = RepoState {
                            hashes: migrate_variants(s4.hashes, hash, variants),
                            ..s4
                        };
                        match h.details {
                            None => (s5, false),
                            Some(details) => {
                                let s6 = RepoState {
                                    identifiers: migrate_details(s5.identifiers, details),
                                    ..s5
                                };
                                (s6.copy_settings(old_store), true)
                            },
                        }
                    },
                }
            },
        }
    }
}

/// What taking over the given hashes of the old store, in their order, makes
/// of the state, and how many of them did not come to their end.
pub open spec fn migrated_hashes(s: RepoState, old_store: OldView, hashes: Seq<OldHashView>) -> (
    RepoState,
    int,
)
    decreases hashes.len(),
{
    if hashes.len() == 0 {
        (s, 0)
    } else {
        let (t, failed) = migrated_hashes(s, old_store, hashes.drop_last());
        let (u, ok) = migrated_hash(t, old_store, hashes.last());
        (
            u,
            if ok {
                failed
            } else {
                failed + 1
            },
        )
    }
}

/// What the migration makes of the state: nothing where it has been done
/// before; otherwise every hash of the old store is taken over and the
/// migration is marked as done.
pub open spec fn migrated(s: RepoState, old_store: OldView) -> RepoState {
    if s.has_migrated() {
        s
    } else {
        migrated_hashes(s, old_store, old_store.hashes).0.mark_migrated()
    }
}

/// Migration is idempotent: a second run against the same old store finds
/// the marker and changes nothing.
pub proof fn lemma_migration_idempotent(s: RepoState, old_store: OldView)
    ensures
        migrated(s, old_store).has_migrated(),
        migrated(migrated(s, old_store), old_store) == migrated(s, old_store),
{
}

/// Taking over a hash that exists changes nothing, whatever the old store
/// holds of it.
pub proof fn lemma_migrated_hash_twice(s: RepoState, old_store: OldView, h: OldHashView)
    ensures
        migrated_hash(migrated_hash(s, old_store, h).0, old_store, h) == (
            migrated_hash(s, old_store, h).0,
            true,
        ),
{
    if !s.hashes.hashes.contains(h.hash) {
        lemma_migration_keeps_hash(s, old_store, h);
    }
}

/// Taking over an alias of the old store keeps the repository consistent.
pub proof fn lemma_migrate_alias_consistent(
    s: RepoState,
    hash: Seq<u8>,
    alias: AliasView,
    token: Option<IdView>,
)
    requires
        s.consistent(),
    ensures
        s.migrate_alias(hash, alias, token).consistent(),
{
    let t = s.migrate_alias(hash, alias, token);
    assert forall|h: Seq<u8>, a: AliasView| #[trigger]
        t.hashes.aliases.contains((h, a)) <==> t.aliases.hashes.contains_key(a)
            && t.aliases.hashes[a] == h by {
        assert(s.hashes.aliases.contains((h, a)) <==> s.aliases.hashes.contains_key(a)
            && s.aliases.hashes[a] == h);
    }
}

/// Taking over the aliases of the old store keeps the repository consistent.
pub proof fn lemma_migrate_aliases_consistent(
    s: RepoState,
    hash: Seq<u8>,
    aliases: Seq<(AliasView, Option<IdView>)>,
)
    requires
        s.consistent(),
    ensures
        migrate_aliases(s, hash, aliases).consistent(),
    decreases aliases.len(),
{
    if aliases.len() > 0 {
        lemma_migrate_aliases_consistent(s, hash, aliases.drop_last());
        lemma_migrate_alias_consistent(
            migrate_aliases(s, hash, aliases.drop_last()),
            hash,
            aliases.last().0,
            aliases.last().1,
        );
    }
}

/// Taking over variants touches nothing but the variants.
proof fn lemma_migrate_variants_frame(
    s: HashState,
    hash: Seq<u8>,
    variants: Seq<(Seq<char>, Seq<u8>)>,
)
    ensures
        migrate_variants(s, hash, variants).aliases == s.aliases,
        migrate_variants(s, hash, variants).hashes == s.hashes,
    decreases variants.len(),
{
    if variants.len() > 0 {
        lemma_migrate_variants_frame(s, hash, variants.drop_last());
    }
}

/// Taking over aliases leaves the created hashes and the settings as they
/// are.
proof fn lemma_migrate_aliases_frame(
    s: RepoState,
    hash: Seq<u8>,
    aliases: Seq<(AliasView, Option<IdView>)>,
)
    ensures
        migrate_aliases(s, hash, aliases).hashes.hashes == s.hashes.hashes,
        migrate_aliases(s, hash, aliases).settings == s.settings,
    decreases aliases.len(),
{
    if aliases.len() > 0 {
        lemma_migrate_aliases_frame(s, hash, aliases.drop_last());
    }
}

/// Taking over a hash of the old store keeps the repository consistent.
pub proof fn lemma_migrated_hash_consistent(s: RepoState, old_store: OldView, h: OldHashView)
    requires
        s.consistent(),
    ensures
        migrated_hash(s, old_store, h).0.consistent(),
{
    let hash = h.hash;
    if !s.hashes.hashes.contains(hash) {
        let s1 = RepoState { hashes: s.hashes.create(hash), ..s };
        assert(s1.consistent());
        match h.main_identifier {
            None => {},
            Some(main) => {
                let s2 = RepoState { hashes: s1.hashes.relate_identifier(hash, main), ..s1 };
                assert(s2.consistent());
                lemma_migrate_aliases_consistent(s2, hash, h.aliases);
                let s3 = migrate_aliases(s2, hash, h.aliases);
                let s4 = match h.motion_identifier {
                    Some(m) => RepoState {
                        hashes: s3.hashes.relate_motion_identifier(hash, m),
                        ..s3
                    },
                    None => s3,
                };
                assert(s4.consistent());
                match h.variants {
                    None => {},
                    Some(variants) => {
                        lemma_migrate_variants_frame(s4.hashes, hash, variants);
                        let s5 = RepoState {
                            hashes: migrate_variants(s4.hashes, hash, variants),
                            ..s4
                        };
                        assert(s5.consistent());
                    },
                }
            },
        }
    }
}

/// Taking over hashes of the old store keeps the repository consistent.
pub proof fn lemma_migrated_hashes_consistent(
    s: RepoState,
    old_store: OldView,
    hashes: Seq<OldHashView>,
)
    requires
        s.consistent(),
    ensures
        migrated_hashes(s, old_store, hashes).0.consistent(),
    decreases hashes.len(),
{
    if hashes.len() > 0 {
        lemma_migrated_hashes_consistent(s, old_store, hashes.drop_last());
        lemma_migrated_hash_consistent(
            migrated_hashes(s, old_store, hashes.drop_last()).0,
            old_store,
            hashes.last(),
        );
    }
}

/// The migration keeps the repository consistent.
pub proof fn lemma_migrated_consistent(s: RepoState, old_store: OldView)
    requires
        s.consistent(),
    ensures
        migrated(s, old_store).consistent(),
{
    lemma_migrated_hashes_consistent(s, old_store, old_store.hashes);
}

/// A hash that has been taken over exists afterwards.
proof fn lemma_migration_keeps_hash(s: RepoState, old_store: OldView, h: OldHashView)
    ensures
        migrated_hash(s, old_store, h).0.hashes.hashes.contains(h.hash),
{
    let hash = h.hash;
    if !s.hashes.hashes.contains(hash) {
        let s1 = RepoState { hashes: s.hashes.create(hash), ..s };
        match h.main_identifier {
            None => {},
            Some(main) => {
                let s2 = RepoState { hashes: s1.hashes.relate_identifier(hash, main), ..s1 };
                lemma_migrate_aliases_frame(s2, hash, h.aliases);
                let s3 = migrate_aliases(s2, hash, h.aliases);
                let s4 = match h.motion_identifier {
                    Some(m) => RepoState {
                        hashes: s3.hashes.relate_motion_identifier(hash, m),
                        ..s3
                    },
                    None => s3,
                };
                match h.variants {
                    None => {},
                    Some(variants) => {
                        lemma_migrate_variants_frame(s4.hashes, hash, variants);
                    },
                }
            },
        }
    }
}

/// Takes over one hash of the old store. Says whether the migration of the
/// hash came to its end.
pub fn migrate_hash(repo: &mut Repo, old_store: &Old, h: &OldHash) -> (r: bool)
    ensures
        (final(repo)@, r) == migrated_hash(old(repo)@, old_store@, h@),
{
    if repo.hashes.create(h.hash.duplicate()).is_err() {
        return true;
    }
    let main = match &h.main_identifier {
        Some(m) => m,
        None => {
            return false;
        },
    };
    repo.hashes.relate_identifier(h.hash.duplicate(), main.duplicate());
    let ghost s2 = repo@;
    let ghost aliases = alias_views(h.aliases@);
    let mut i: usize = 0;
    while i < h.aliases.len()
        invariant
            i <= h.aliases@.len(),
            aliases == alias_views(h.aliases@),
            repo@ == migrate_aliases(s2, h.hash@, aliases.take(i as int)),
        decreases h.aliases@.len() - i,
    {
        let entry = &h.aliases[i];
        proof {
            assert(aliases.take(i + 1).drop_last() =~= aliases.take(i as int));
            assert(aliases.take(i + 1).last() == aliases[i as int]);
        }
        if repo.aliases.create(&entry.alias).is_ok() {
            repo.hashes.relate_alias(h.hash.duplicate(), &entry.alias);
            repo.aliases.relate_hash(&entry.alias, h.hash.duplicate());
            match &entry.delete_token {
                Some(token) => {
                    let _ = repo.aliases.relate_delete_token(&entry.alias, token);
                },
                None => {},
            }
        }
        i += 1;
    }
    assert(aliases.take(aliases.len() as int) =~= aliases);
    match &h.motion_identifier {
        Some(m) => {
            repo.hashes.relate_motion_identifier(h.hash.duplicate(), m.duplicate());
        },
        None => {},
    }
    let variants = match &h.variants {
        Some(v) => v,
        None => {
            return false;
        },
    };
    let ghost s4 = repo@;
    let ghost named = variant_views(variants@);
    let mut j: usize = 0;
    while j < variants.len()
        invariant
            j <= variants@.len(),
            named == variant_views(variants@),
            repo@ == (RepoState {
                hashes: migrate_variants(s4.hashes, h.hash@, named.take(j as int)),
                ..s4
            }),
        decreases variants@.len() - j,
    {
        proof {
            assert(named.take(j + 1).drop_last() =~= named.take(j as int));
            assert(named.take(j + 1).last() == named[j as int]);
        }
        repo.hashes.relate_variant_identifier(
            h.hash.duplicate(),
            variants[j].0.clone(),
            variants[j].1.duplicate(),
        );
        j += 1;
    }
    assert(named.take(named.len() as int) =~= named);
    let details = match &h.details {
        Some(d) => d,
        None => {
            return false;
        },
    };
    let ghost s5 = repo@;
    let ghost found = details_views(details@);
    let mut k: usize = 0;
    while k < details.len()
        invariant
            k <= details@.len(),
            found == details_views(details@),
            repo@ == (RepoState {
                identifiers: migrate_details(s5.identifiers, found.take(k as int)),
                ..s5
            }),
        decreases details@.len() - k,
    {
        proof {
            assert(found.take(k + 1).drop_last() =~= found.take(k as int));
            assert(found.take(k + 1).last() == found[k as int]);
        }
        repo.identifiers.relate_details(details[k].0.duplicate(), &details[k].1);
        k += 1;
    }
    assert(found.take(found.len() as int) =~= found);
    match &old_store.store_migration_progress {
        Some(v) => {
            repo.settings.set(store_migration_progress(), v.duplicate());
        },
        None => {},
    }
    match &old_store.generator_cursor {
        Some(v) => {
            repo.settings.set(generator_key_bytes(), v.duplicate());
        },
        None => {},
    }
    true
}

impl Repo {
    /// Whether the migration has been done.
    pub fn has_migrated(&self) -> (r: bool)
        ensures
            r == self@.has_migrated(),
    {
        self.settings.get(&repo_migration_o1()).is_some()
    }

    /// Marks the migration as done.
    pub fn mark_migrated(&mut self)
        ensures
            final(self)@ == old(self)@.mark_migrated(),
    {
        self.settings.set(repo_migration_o1(), "1".as_bytes_vec());
    }

    /// Migrates from a store of the old layout, unless that has been done
    /// before. A hash whose migration stops early does not stop the run; the
    /// number of such hashes is handed back.
    pub fn from_db(&mut self, old_store: &Old) -> (r: usize)
        ensures
            final(self)@ == migrated(old(self)@, old_store@),
            old(self)@.has_migrated() ==> r == 0,
            !old(self)@.has_migrated() ==> r == migrated_hashes(
                old(self)@,
                old_store@,
                old_store@.hashes,
            ).1,
    {
        if self.has_migrated() {
            return 0;
        }
        let ghost hashes = old_store@.hashes;
        let mut failed: usize = 0;
        let mut i: usize = 0;
        while i < old_store.hashes.len()
            invariant
                i <= old_store.hashes@.len(),
                hashes == old_store@.hashes,
                failed <= i,
                (self@, failed as int) == migrated_hashes(
                    old(self)@,
                    old_store@,
                    hashes.take(i as int),
                ),
            decreases old_store.hashes@.len() - i,
        {
            proof {
                assert(hashes.take(i + 1).drop_last() =~= hashes.take(i as int));
                assert(hashes.take(i + 1).last() == old_store.hashes@[i as int]@);
            }
            if !migrate_hash(self, old_store, &old_store.hashes[i]) {
                failed += 1;
            }
            i += 1;
        }
        assert(hashes.take(hashes.len() as int) =~= hashes);
        self.mark_migrated();
        failed
    }

    /// Migrates from the trees of a store of the old layout, unless that has
    /// been done before. The number of hashes whose migration stopped early
    /// is handed back.
    pub fn from_trees(&mut self, trees: &OldTrees) -> (r: usize)
        ensures
            final(self)@ == migrated(old(self)@, trees.old_store()),
            old(self)@.has_migrated() ==> r == 0,
            !old(self)@.has_migrated() ==> r == migrated_hashes(
                old(self)@,
                trees.old_store(),
                trees.old_store().hashes,
            ).1,
    {
        if self.has_migrated() {
            return 0;
        }
        let old_store = trees.read();
        self.from_db(&old_store)
    }
}

} // verus!
