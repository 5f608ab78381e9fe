//! Taking uploads in and deleting them again: the steps that keep the
//! relations of the repository in agreement with each other.

use vstd::prelude::*;
use crate::alias::{Alias, AliasView, DeleteToken};
use crate::details::Details;
use crate::error::UploadError;
use crate::ident::{is_random_uuid, IdView};
use crate::repo::alias_repo::AliasState;
use crate::repo::table::Key;
use crate::repo::{Repo, RepoState};

verus! {

impl RepoState {
    /// An alias is a member of a hash exactly when it refers to that hash,
    /// and only an alias that has been created refers to a hash or has a
    /// delete token.
    pub open spec fn consistent(self) -> bool {
        &&& forall|h: Seq<u8>, a: AliasView| #[trigger]
            self.hashes.aliases.contains((h, a)) <==> self.aliases.hashes.contains_key(a)
                && self.aliases.hashes[a] == h
        &&& forall|a: AliasView| #[trigger]
            self.aliases.hashes.contains_key(a) ==> self.aliases.aliases.contains(a)
        &&& forall|a: AliasView| #[trigger]
            self.aliases.delete_tokens.contains_key(a) ==> self.aliases.aliases.contains(a)
    }

    /// The state after an upload with the given hash has been stored at
    /// `identifier`: the first upload of a hash creates it and records where
    /// its bytes are, a later one changes nothing.
    pub open spec fn save_upload(self, hash: Seq<u8>, identifier: Seq<u8>) -> RepoState {
        if self.hashes.hashes.contains(hash) {
            self
        } else {
            RepoState { hashes: self.hashes.create(hash).relate_identifier(hash, identifier), ..self }
        }
    }

    /// The state after the new alias `alias` has been given to `hash`, with
    /// `token` as the capability to delete it.
    pub open spec fn add_alias(self, hash: Seq<u8>, alias: AliasView, token: IdView) -> RepoState {
        RepoState {
            hashes: self.hashes.relate_alias(hash, alias),
            aliases: AliasState {
                aliases: self.aliases.aliases.insert(alias),
                delete_tokens: if self.aliases.delete_tokens.contains_key(alias) {
                    self.aliases.delete_tokens
                } else {
                    self.aliases.delete_tokens.insert(alias, token)
                },
                hashes: self.aliases.hashes.insert(alias, hash),
            },
            ..self
        }
    }

    /// Whether an alias is on record that has a UUID of version 4 as its
    /// identifier and `extension` as its extension: only such an alias can
    /// stand in the way of a generated one.
    pub open spec fn generated_alias_taken(self, extension: Seq<char>) -> bool {
        exists|a: AliasView| #[trigger]
            self.aliases.aliases.contains(a) && a.extension == Some(extension) && (a.id matches IdView::Uuid(
                b,
            ) && is_random_uuid(b))
    }

    /// Why `alias` cannot be deleted with `token`, if it cannot: there is no
    /// token or no hash on record for it, or the token is a different one.
    pub open spec fn delete_failure(self, alias: AliasView, token: IdView) -> Option<UploadError> {
        if !self.aliases.delete_tokens.contains_key(alias) {
            Some(UploadError::MissingAlias)
        } else if self.aliases.delete_tokens[alias] != token {
            Some(UploadError::InvalidToken)
        } else if !self.aliases.hashes.contains_key(alias) {
            Some(UploadError::MissingAlias)
        } else {
            None
        }
    }

    /// The state after `alias` has been deleted: its token, its reference to
    /// its hash and its membership of that hash are gone together.
    pub open spec fn delete(self, alias: AliasView) -> RepoState {
        RepoState {
            hashes: self.hashes.remove_alias(self.aliases.hashes[alias], alias),
            aliases: self.aliases.cleanup(alias),
            ..self
        }
    }

    /// Where the blobs of `hash` are stored: its original, its motion preview
    /// and its variants.
    pub open spec fn blobs_of(self, hash: Seq<u8>) -> Set<Seq<u8>> {
        Set::new(
            |id: Seq<u8>|
                {
                    ||| self.hashes.identifiers.contains_key(hash) && self.hashes.identifiers[hash]
                        == id
                    ||| self.hashes.motion.contains_key(hash) && self.hashes.motion[hash] == id
                    ||| exists|v: Seq<char>| #[trigger]
                        self.hashes.variants.contains_key((hash, v)) && self.hashes.variants[(
                            hash,
                            v,
                        )] == id
                },
        )
    }

    /// The state after `hash` has been given up: nothing is recorded of it
    /// any more, nor of the details of its blobs.
    pub open spec fn purge(self, hash: Seq<u8>) -> RepoState {
        RepoState {
            identifiers: self.identifiers.remove_keys(self.blobs_of(hash)),
            hashes: self.hashes.cleanup(hash),
            ..self
        }
    }

    /// The state after the check that follows a deletion: a hash to which an
    /// alias still refers stays, one without aliases is given up.
    pub open spec fn collect(self, hash: Seq<u8>) -> RepoState {
        if self.hashes.has_aliases(hash) {
            self
        } else {
            self.purge(hash)
        }
    }
}

/// Deduplication. Two uploads of the same bytes under two different new
/// aliases leave both aliases referring to the one hash, whose original is
/// the blob of the first upload: the second upload records no blob of its
/// own.
pub proof fn lemma_dedup(
    s: RepoState,
    hash: Seq<u8>,
    first: (Seq<u8>, AliasView, IdView),
    second: (Seq<u8>, AliasView, IdView),
)
    requires
        !s.hashes.hashes.contains(hash),
        first.1 != second.1,
    ensures
        ({
            let s1 = s.save_upload(hash, first.0).add_alias(hash, first.1, first.2);
            let s2 = s1.save_upload(hash, second.0).add_alias(hash, second.1, second.2);
            &&& s1.save_upload(hash, second.0) == s1
            &&& s2.hashes.identifiers[hash] == first.0
            &&& s2.aliases.hashes[first.1] == hash
            &&& s2.aliases.hashes[second.1] == hash
            &&& s2.hashes.aliases.contains((hash, first.1))
            &&& s2.hashes.aliases.contains((hash, second.1))
        }),
{
}

/// The empty repository is consistent.
pub proof fn lemma_empty_consistent()
    ensures
        RepoState::empty().consistent(),
{
}

/// Recording an upload keeps the repository consistent.
pub proof fn lemma_save_upload_consistent(s: RepoState, hash: Seq<u8>, identifier: Seq<u8>)
    requires
        s.consistent(),
    ensures
        s.save_upload(hash, identifier).consistent(),
{
    let t = s.save_upload(hash, identifier);
    assert forall|h: Seq<u8>, a: AliasView| #[trigger]
        t.hashes.aliases.contains((h, a)) <==> t.aliases.hashes.contains_key(a)
            && t.aliases.hashes[a] == h by {
        assert(s.hashes.aliases.contains((h, a)) <==> s.aliases.hashes.contains_key(a)
            && s.aliases.hashes[a] == h);
    }
}

/// Giving a new alias to a hash keeps the repository consistent.
pub proof fn lemma_add_alias_consistent(
    s: RepoState,
    hash: Seq<u8>,
    alias: AliasView,
    token: IdView,
)
    requires
        s.consistent(),
        !s.aliases.aliases.contains(alias),
    ensures
        s.add_alias(hash, alias, token).consistent(),
{
    let t = s.add_alias(hash, alias, token);
    assert forall|h: Seq<u8>, a: AliasView| #[trigger]
        t.hashes.aliases.contains((h, a)) <==> t.aliases.hashes.contains_key(a)
            && t.aliases.hashes[a] == h by {
        if a != alias {
            assert(t.hashes.aliases.contains((h, a)) == s.hashes.aliases.contains((h, a)));
        } else {
            assert(s.hashes.aliases.contains((h, a)) == false);
        }
    }
}

/// Deleting an alias keeps the repository consistent.
pub proof fn lemma_delete_consistent(s: RepoState, alias: AliasView)
    requires
        s.consistent(),
    ensures
        s.delete(alias).consistent(),
{
    let t = s.delete(alias);
    assert forall|h: Seq<u8>, a: AliasView| #[trigger]
        t.hashes.aliases.contains((h, a)) <==> t.aliases.hashes.contains_key(a)
            && t.aliases.hashes[a] == h by {
        assert(s.hashes.aliases.contains((h, a)) <==> s.aliases.hashes.contains_key(a)
            && s.aliases.hashes[a] == h);
    }
}

/// The check that follows a deletion keeps the repository consistent: a
/// hash is given up only when no alias refers to it.
pub proof fn lemma_collect_consistent(s: RepoState, hash: Seq<u8>)
    requires
        s.consistent(),
    ensures
        s.collect(hash).consistent(),
{
    let t = s.collect(hash);
    assert forall|h: Seq<u8>, a: AliasView| #[trigger]
        t.hashes.aliases.contains((h, a)) <==> t.aliases.hashes.contains_key(a)
            && t.aliases.hashes[a] == h by {
        assert(s.hashes.aliases.contains((h, a)) <==> s.aliases.hashes.contains_key(a)
            && s.aliases.hashes[a] == h);
        if !s.hashes.has_aliases(hash) && h == hash {
            assert(!s.hashes.aliases.contains((hash, a)));
        }
    }
}

/// Reference-counted deletion. Let exactly the aliases `a1` and `a2` refer to
/// `hash`. Deleting `a1` removes what is recorded of `a1` and leaves the hash,
/// its blobs and `a2` as they were; deleting `a2` afterwards gives the hash up
/// with all its blobs.
pub proof fn lemma_reference_counted_deletion(
    s: RepoState,
    hash: Seq<u8>,
    a1: AliasView,
    a2: AliasView,
)
    requires
        s.consistent(),
        a1 != a2,
        forall|a: AliasView| s.hashes.aliases.contains((hash, a)) <==> a == a1 || a == a2,
    ensures
        ({
            let s1 = s.delete(a1).collect(hash);
            let s2 = s1.delete(a2).collect(hash);
            &&& s1.aliases.unknown(a1)
            &&& s1.hashes == s.hashes.remove_alias(hash, a1)
            &&& s1.identifiers == s.identifiers
            &&& s1.aliases.hashes.contains_key(a2) && s1.aliases.hashes[a2] == hash
            &&& s1.aliases.delete_tokens.contains_key(a2) == s.aliases.delete_tokens.contains_key(
                a2,
            )
            &&& s2.aliases.unknown(a2)
            &&& !s2.hashes.hashes.contains(hash)
            &&& !s2.hashes.identifiers.contains_key(hash)
            &&& !s2.hashes.motion.contains_key(hash)
            &&& forall|v: Seq<char>| !s2.hashes.variants.contains_key((hash, v))
            &&& forall|id: Seq<u8>| s.blobs_of(hash).contains(id) ==> !s2.identifiers.contains_key(id)
        }),
{
    assert(s.hashes.aliases.contains((hash, a1)));
    assert(s.hashes.aliases.contains((hash, a2)));
    let d1 = s.delete(a1);
    assert(d1.hashes.aliases.contains((hash, a2)));
    assert(d1.hashes.has_aliases(hash));
    let s1 = d1.collect(hash);
    assert(s1 == d1);
    let d2 = s1.delete(a2);
    assert(!d2.hashes.has_aliases(hash)) by {
        if d2.hashes.has_aliases(hash) {
            let a = choose|a: AliasView| d2.hashes.aliases.contains((hash, a));
            assert(s.hashes.aliases.contains((hash, a)));
        }
    }
    assert(d2.blobs_of(hash) =~= s.blobs_of(hash));
}

/// The orchestration of uploads and deletions over a repository.
pub struct UploadManager {
    repo: Repo,
}

impl View for UploadManager {
    type V = RepoState;

    closed spec fn view(&self) -> RepoState {
        self.repo@
    }
}

impl UploadManager {
    /// A manager over `repo`.
    pub fn new(repo: Repo) -> (r: Self)
        ensures
            r@ == repo@,
    {
        UploadManager { repo }
    }

    /// The repository, for reading.
    pub fn repo(&self) -> (r: &Repo)
        ensures
            r@ == self@,
    {
        &self.repo
    }

    /// A session for one upload.
    pub fn session(&self) -> (r: UploadManagerSession)
        ensures
            r.issued() is None,
            !r.finished(),
    {
        UploadManagerSession { alias: None, finished: false }
    }

    /// Gives the repository back.
    pub fn into_repo(self) -> (r: Repo)
        ensures
            r@ == self@,
    {
        self.repo
    }

    /// Records an upload with the given hash that has been stored at
    /// `identifier`. Says whether the hash is new. If it is not, nothing is
    /// recorded and the blob at `identifier` is a duplicate for the caller to
    /// remove from the store.
    pub fn save_upload(&mut self, identifier: Vec<u8>, hash: Vec<u8>) -> (r: bool)
        ensures
            r == !old(self)@.hashes.hashes.contains(hash@),
            final(self)@ == old(self)@.save_upload(hash@, identifier@),
    {
        let key = hash.duplicate();
        match self.repo.hashes.create(hash) {
            Ok(()) => {
                self.repo.hashes.relate_identifier(key, identifier);
                true
            },
            Err(_) => false,
        }
    }

    /// Gives the alias `alias` to `hash` and issues its delete token. An
    /// alias that exists is refused and nothing changes.
    pub fn add_existing_alias(&mut self, hash: &Vec<u8>, alias: &Alias) -> (r: Result<
        DeleteToken,
        UploadError,
    >)
        ensures
            r is Ok <==> !old(self)@.aliases.aliases.contains(alias@),
            r matches Ok(token) ==> token@ is Uuid && final(self)@ == old(self)@.add_alias(
                hash@,
                alias@,
                token@,
            ),
            r matches Err(e) ==> e == UploadError::DuplicateAlias && final(self)@ == old(self)@,
    {
        match self.repo.aliases.create(alias) {
            Ok(()) => {
                let token = DeleteToken::generate();
                let _ = self.repo.aliases.relate_delete_token(alias, &token);
                self.repo.aliases.relate_hash(alias, hash.duplicate());
                self.repo.hashes.relate_alias(hash.duplicate(), alias);
                Ok(token)
            },
            Err(_) => Err(UploadError::DuplicateAlias),
        }
    }

    /// Gives a freshly generated alias with the given extension to `hash`,
    /// trying up to `attempts` generated aliases until one is free. An alias
    /// is owed whenever an attempt is allowed and no generated alias with
    /// this extension is on record: the attempts run out only on aliases
    /// that are taken.
    pub fn add_alias(&mut self, hash: &Vec<u8>, extension: &str, attempts: usize) -> (r: Option<
        (Alias, DeleteToken),
    >)
        ensures
            match r {
                Some((alias, token)) => {
                    &&& attempts > 0
                    &&& alias@.id is Uuid
                    &&& alias@.id matches IdView::Uuid(b) && is_random_uuid(b)
                    &&& alias@.extension == Some(extension@)
                    &&& !old(self)@.aliases.aliases.contains(alias@)
                    &&& token@ is Uuid
                    &&& final(self)@ == old(self)@.add_alias(hash@, alias@, token@)
                },
                None => {
                    &&& final(self)@ == old(self)@
                    &&& attempts == 0 || old(self)@.generated_alias_taken(extension@)
                },
            },
            attempts == 0 ==> r is None,
            attempts > 0 && !old(self)@.generated_alias_taken(extension@) ==> r is Some,
    {
        let mut left = attempts;
        while left > 0
            invariant
                self@ == old(self)@,
                left <= attempts,
                left < attempts ==> old(self)@.generated_alias_taken(extension@),
            decreases left,
        {
            let alias = Alias::generate(extension.to_owned());
            match self.add_existing_alias(hash, &alias) {
                Ok(token) => {
                    return Some((alias, token));
                },
                Err(_) => {
                    assert(old(self)@.aliases.aliases.contains(alias@));
                    assert(old(self)@.generated_alias_taken(extension@));
                },
            }
            left -= 1;
        }
        None
    }

    /// The first phase of a deletion: takes `alias` out of the relations, if
    /// `token` is its delete token, and hands back the hash it referred to.
    /// A refused deletion changes nothing.
    pub fn unlink(&mut self, alias: &Alias, token: &DeleteToken) -> (r: Result<Vec<u8>, UploadError>)
        ensures
            match old(self)@.delete_failure(alias@, token@) {
                Some(e) => r == Err::<Vec<u8>, UploadError>(e) && final(self)@ == old(self)@,
                None => r matches Ok(h) && h@ == old(self)@.aliases.hashes[alias@] && final(self)@
                    == old(self)@.delete(alias@),
            },
    {
        let existing = match self.repo.aliases.delete_token(alias) {
            Some(t) => t,
            None => {
                return Err(UploadError::MissingAlias);
            },
        };
        if !existing.same(token) {
            return Err(UploadError::InvalidToken);
        }
        let hash = match self.repo.aliases.hash(alias) {
            Some(h) => h,
            None => {
                return Err(UploadError::MissingAlias);
            },
        };
        self.repo.aliases.cleanup(alias);
        self.repo.hashes.remove_alias(hash.duplicate(), alias);
        Ok(hash)
    }

    /// Deletes `alias`, if `token` is its delete token, and gives its hash up
    /// if no alias refers to it any more. Hands back where the blobs are
    /// stored that the caller is to remove: none while another alias refers
    /// to the hash. A refused deletion changes nothing.
    pub fn delete(&mut self, alias: &Alias, token: &DeleteToken) -> (r: Result<
        Vec<Vec<u8>>,
        UploadError,
    >)
        ensures
            match old(self)@.delete_failure(alias@, token@) {
                Some(e) => r == Err::<Vec<Vec<u8>>, UploadError>(e) && final(self)@ == old(self)@,
                None => {
                    let hash = old(self)@.aliases.hashes[alias@];
                    let unlinked = old(self)@.delete(alias@);
                    &&& final(self)@ == unlinked.collect(hash)
                    &&& r matches Ok(blobs)
                    &&& lists_blobs(blobs@, unlinked, hash)
                },
            },
    {
        match self.unlink(alias, token) {
            Ok(hash) => Ok(self.check_delete_files(&hash)),
            Err(e) => Err(e),
        }
    }

    /// Deletes `alias` on the authority of the caller, with the token on
    /// record.
    pub fn delete_without_token(&mut self, alias: &Alias) -> (r: Result<Vec<Vec<u8>>, UploadError>)
        ensures
            match r {
                Ok(blobs) => {
                    let hash = old(self)@.aliases.hashes[alias@];
                    let unlinked = old(self)@.delete(alias@);
                    &&& old(self)@.aliases.delete_tokens.contains_key(alias@)
                    &&& old(self)@.aliases.hashes.contains_key(alias@)
                    &&& final(self)@ == unlinked.collect(hash)
                    &&& lists_blobs(blobs@, unlinked, hash)
                },
                Err(e) => {
                    &&& e == UploadError::MissingAlias
                    &&& !(old(self)@.aliases.delete_tokens.contains_key(alias@)
                        && old(self)@.aliases.hashes.contains_key(alias@))
                    &&& final(self)@ == old(self)@
                },
            },
    {
        match self.repo.aliases.delete_token(alias) {
            Some(token) => self.delete(alias, &token),
            None => Err(UploadError::MissingAlias),
        }
    }

    /// The second phase of a deletion: gives `hash` up if no alias refers to
    /// it, and hands back where its blobs are stored. A hash with aliases is
    /// left as it is and no blob is handed back.
    pub fn check_delete_files(&mut self, hash: &Vec<u8>) -> (r: Vec<Vec<u8>>)
        ensures
            final(self)@ == old(self)@.collect(hash@),
            lists_blobs(r@, old(self)@, hash@),
    {
        if self.repo.hashes.aliases(hash).len() > 0 {
            return Vec::new();
        }
        self.cleanup_files(hash)
    }

    /// Gives `hash` up and hands back where its blobs are stored: its
    /// original, its variants and its motion preview.
    #[verifier::loop_isolation(false)]
    pub fn cleanup_files(&mut self, hash: &Vec<u8>) -> (r: Vec<Vec<u8>>)
        ensures
            final(self)@ == old(self)@.purge(hash@),
            forall|id: Seq<u8>|
                old(self)@.blobs_of(hash@).contains(id) <==> exists|i: int|
                    0 <= i < r@.len() && #[trigger] r@[i]@ == id,
    {
        let mut blobs: Vec<Vec<u8>> = Vec::new();
        match self.repo.hashes.identifier(hash) {
            Some(id) => {
                blobs.push(id);
            },
            None => {},
        }
        match self.repo.hashes.motion_identifier(hash) {
            Some(id) => {
                blobs.push(id);
            },
            None => {},
        }
        let ghost fixed = blobs@;
        let ghost s = old(self)@;
        assert(s.hashes.identifiers.contains_key(hash@) ==> fixed.len() > 0 && fixed[0]@
            == s.hashes.identifiers[hash@]);
        assert(s.hashes.motion.contains_key(hash@) ==> fixed.len() > 0 && fixed[fixed.len() - 1]@
            == s.hashes.motion[hash@]);
        assert(forall|j: int|
            0 <= j < fixed.len() ==> s.blobs_of(hash@).contains(#[trigger] fixed[j]@));
        let variants = self.repo.hashes.variants(hash);
        let mut i: usize = 0;
        while i < variants.len()
            invariant
                i <= variants@.len(),
                blobs@.len() == fixed.len() + i,
                forall|j: int| 0 <= j < fixed.len() ==> blobs@[j] == fixed[j],
                forall|j: int| 0 <= j < i ==> (#[trigger] blobs@[fixed.len() + j])@ == variants@[j].1@,
            decreases variants@.len() - i,
        {
            blobs.push(variants[i].1.duplicate());
            i += 1;
        }
        proof {
            assert forall|id: Seq<u8>|
                s.blobs_of(hash@).contains(id) <==> exists|i: int|
                    0 <= i < blobs@.len() && #[trigger] blobs@[i]@ == id by {
                if s.blobs_of(hash@).contains(id) {
                    if s.hashes.identifiers.contains_key(hash@) && s.hashes.identifiers[hash@] == id {
                        assert(blobs@[0]@ == id);
                    } else if s.hashes.motion.contains_key(hash@) && s.hashes.motion[hash@] == id {
                        assert(blobs@[fixed.len() - 1]@ == id);
                    } else {
                        let v = choose|v: Seq<char>| #[trigger]
                            s.hashes.variants.contains_key((hash@, v)) && s.hashes.variants[(
                                hash@,
                                v,
                            )] == id;
                        let j = choose|j: int|
                            0 <= j < variants@.len() && (#[trigger] variants@[j]).0@ == v;
                        assert(blobs@[fixed.len() + j]@ == id);
                    }
                }
                if exists|i: int| 0 <= i < blobs@.len() && #[trigger] blobs@[i]@ == id {
                    let k = choose|k: int| 0 <= k < blobs@.len() && #[trigger] blobs@[k]@ == id;
                    if k >= fixed.len() {
                        let j = k - fixed.len();
                        assert(blobs@[fixed.len() + j]@ == variants@[j].1@);
                        assert(s.hashes.variants.contains_key((hash@, variants@[j].0@)));
                    }
                }
            }
        }
        let mut k: usize = 0;
        while k < blobs.len()
            invariant
                k <= blobs@.len(),
                self.repo.hashes@ == old(self).repo.hashes@,
                self.repo.aliases@ == old(self).repo.aliases@,
                self.repo.settings@ == old(self).repo.settings@,
                forall|id: Seq<u8>|
                    self.repo.identifiers@.contains_key(id) <==> old(
                        self,
                    ).repo.identifiers@.contains_key(id) && !exists|j: int|
                        0 <= j < k && #[trigger] blobs@[j]@ == id,
                forall|id: Seq<u8>|
                    self.repo.identifiers@.contains_key(id) ==> self.repo.identifiers@[id] == old(
                        self,
                    ).repo.identifiers@[id],
            decreases blobs@.len() - k,
        {
            let ghost before = self.repo.identifiers@;
            self.repo.identifiers.cleanup(&blobs[k]);
            proof {
                assert forall|id: Seq<u8>|
                    self.repo.identifiers@.contains_key(id) <==> old(
                        self,
                    ).repo.identifiers@.contains_key(id) && !exists|j: int|
                        0 <= j < k + 1 && #[trigger] blobs@[j]@ == id by {
                    if id == blobs@[k as int]@ {
                    } else {
                        assert(self.repo.identifiers@.contains_key(id) == before.contains_key(id));
                        if exists|j: int| 0 <= j < k + 1 && #[trigger] blobs@[j]@ == id {
                            let j = choose|j: int| 0 <= j < k + 1 && #[trigger] blobs@[j]@ == id;
                            assert(j < k);
                        }
                    }
                }
            }
            k += 1;
        }
        self.repo.hashes.cleanup(hash);
        proof {
            let s = old(self)@;
            assert(self.repo.identifiers@ =~= s.identifiers.remove_keys(s.blobs_of(hash@)));
        }
        blobs
    }

    /// Where the original of the upload known as `alias` is stored.
    pub fn from_alias(&self, alias: &Alias) -> (r: Result<Vec<u8>, UploadError>)
        ensures
            match r {
                Ok(id) => {
                    &&& self@.aliases.hashes.contains_key(alias@)
                    &&& self@.hashes.identifiers.contains_key(self@.aliases.hashes[alias@])
                    &&& id@ == self@.hashes.identifiers[self@.aliases.hashes[alias@]]
                },
                Err(e) => if self@.aliases.hashes.contains_key(alias@) {
                    e == UploadError::MissingFile && !self@.hashes.identifiers.contains_key(
                        self@.aliases.hashes[alias@],
                    )
                } else {
                    e == UploadError::MissingAlias
                },
            },
    {
        let hash = match self.repo.aliases.hash(alias) {
            Some(h) => h,
            None => {
                return Err(UploadError::MissingAlias);
            },
        };
        match self.repo.hashes.identifier(&hash) {
            Some(id) => Ok(id),
            None => Err(UploadError::MissingFile),
        }
    }

    /// The aliases that refer to `hash`, as text.
    #[verifier::loop_isolation(false)]
    pub fn aliases_by_hash(&self, hash: &Vec<u8>) -> (r: Vec<String>)
        ensures
            lists_alias_texts(r@, self@, hash@),
    {
        let aliases = self.repo.hashes.aliases(hash);
        let mut out: Vec<String> = Vec::new();
        let mut i: usize = 0;
        while i < aliases.len()
            invariant
                i <= aliases@.len(),
                out@.len() == i,
                forall|j: int| 0 <= j < i ==> (#[trigger] out@[j])@ == aliases@[j]@.text(),
            decreases aliases@.len() - i,
        {
            out.push(aliases[i].to_string());
            i += 1;
        }
        proof {
            assert forall|a: AliasView| self@.hashes.aliases.contains((hash@, a)) implies exists|
                i: int,
            |
                0 <= i < out@.len() && #[trigger] out@[i]@ == a.text() by {
                let j = choose|j: int| 0 <= j < aliases@.len() && #[trigger] aliases@[j]@ == a;
                assert(out@[j]@ == a.text());
            }
            assert forall|i: int| 0 <= i < out@.len() implies is_alias_text(
                #[trigger] out@[i]@,
                self@,
                hash@,
            ) by {
                let a = aliases@[i]@;
                assert(aliases@[i]@ == a);
                assert(self@.hashes.aliases.contains((hash@, a)) && out@[i]@ == a.text());
            }
        }
        out
    }

    /// The aliases that refer to the same hash as `alias`, as text.
    pub fn aliases_by_alias(&self, alias: &Alias) -> (r: Result<Vec<String>, UploadError>)
        ensures
            r is Ok <==> self@.aliases.hashes.contains_key(alias@),
            r matches Err(e) ==> e == UploadError::MissingFilename,
            r matches Ok(names) ==> lists_alias_texts(names@, self@, self@.aliases.hashes[alias@]),
    {
        match self.repo.aliases.hash(alias) {
            Some(hash) => Ok(self.aliases_by_hash(&hash)),
            None => Err(UploadError::MissingFilename),
        }
    }

    /// Records that the variant of `hash` under `variant` is stored at
    /// `identifier`, so that it is found again and given up with the hash.
    pub fn store_variant(&mut self, hash: Vec<u8>, variant: String, identifier: Vec<u8>)
        ensures
            final(self)@ == (RepoState {
                hashes: old(self)@.hashes.relate_variant_identifier(hash@, variant@, identifier@),
                ..old(self)@
            }),
    {
        self.repo.hashes.relate_variant_identifier(hash, variant, identifier);
    }

    /// Records that the motion preview of `hash` is stored at `identifier`.
    pub fn store_motion(&mut self, hash: Vec<u8>, identifier: Vec<u8>)
        ensures
            final(self)@ == (RepoState {
                hashes: old(self)@.hashes.relate_motion_identifier(hash@, identifier@),
                ..old(self)@
            }),
    {
        self.repo.hashes.relate_motion_identifier(hash, identifier);
    }

    /// The details on record for the blob at `identifier`.
    pub fn variant_details(&self, identifier: &Vec<u8>) -> (r: Option<Details>)
        ensures
            match r {
                Some(d) => self@.identifiers.contains_key(identifier@) && self@.identifiers[identifier@]
                    == d@,
                None => !self@.identifiers.contains_key(identifier@),
            },
    {
        self.repo.identifiers.details(identifier)
    }

    /// Records the details of the blob at `identifier`.
    pub fn store_variant_details(&mut self, identifier: Vec<u8>, details: &Details)
        ensures
            final(self)@ == (RepoState {
                identifiers: old(self)@.identifiers.insert(identifier@, details@),
                ..old(self)@
            }),
    {
        self.repo.identifiers.relate_details(identifier, details);
    }
}

/// One upload on its way in. An upload that does not come to a good end
/// takes its alias with it when the session is closed.
pub struct UploadManagerSession {
    alias: Option<Alias>,
    finished: bool,
}

impl UploadManagerSession {
    /// The alias that the session has issued.
    pub closed spec fn issued(&self) -> Option<AliasView> {
        match self.alias {
            Some(a) => Some(a@),
            None => None,
        }
    }

    /// Whether the upload has come to a good end.
    pub closed spec fn finished(&self) -> bool {
        self.finished
    }

    /// The alias that the session has issued.
    pub fn alias(&self) -> (r: Option<&Alias>)
        ensures
            match r {
                Some(a) => self.issued() == Some(a@),
                None => self.issued() is None,
            },
    {
        self.alias.as_ref()
    }

    /// Records that the blob of the upload is stored at `identifier` and has
    /// the given hash, and issues an alias with the given extension, trying
    /// up to `attempts` generated aliases. Says whether the hash is new: if
    /// it is not, the blob at `identifier` is a duplicate for the caller to
    /// remove. An alias is owed whenever an attempt is allowed and no
    /// generated alias with this extension is on record. Where no alias
    /// could be issued, the upload is refused; a hash that it has created
    /// stays on record for the next upload of the bytes.
    pub fn upload(
        &mut self,
        manager: &mut UploadManager,
        identifier: Vec<u8>,
        hash: Vec<u8>,
        extension: &str,
        attempts: usize,
    ) -> (r: Result<bool, UploadError>)
        ensures
            final(self).finished() == old(self).finished(),
            attempts == 0 ==> r is Err,
            attempts > 0 && !old(manager)@.save_upload(hash@, identifier@).generated_alias_taken(
                extension@,
            ) ==> r is Ok,
            match r {
                Ok(is_new) => {
                    let saved = old(manager)@.save_upload(hash@, identifier@);
                    &&& is_new == !old(manager)@.hashes.hashes.contains(hash@)
                    &&& final(self).issued() matches Some(alias)
                    &&& alias.id is Uuid
                    &&& alias.extension == Some(extension@)
                    &&& !saved.aliases.aliases.contains(alias)
                    &&& exists|token: IdView|
                        final(manager)@ == saved.add_alias(hash@, alias, token)
                },
                Err(e) => {
                    &&& e == UploadError::DuplicateAlias
                    &&& final(self).issued() == old(self).issued()
                    &&& final(manager)@ == old(manager)@.save_upload(hash@, identifier@)
                },
            },
    {
        let is_new = manager.save_upload(identifier, hash.duplicate());
        match manager.add_alias(&hash, extension, attempts) {
            Some((alias, token)) => {
                assert(manager@ == old(manager)@.save_upload(hash@, identifier@).add_alias(
                    hash@,
                    alias@,
                    token@,
                ));
                self.alias = Some(alias);
                Ok(is_new)
            },
            None => Err(UploadError::DuplicateAlias),
        }
    }

    /// The delete token of the alias that the session has issued.
    pub fn delete_token(&self, manager: &UploadManager) -> (r: Result<DeleteToken, UploadError>)
        ensures
            match r {
                Ok(token) => self.issued() matches Some(alias)
                    && manager@.aliases.delete_tokens.contains_key(alias)
                    && manager@.aliases.delete_tokens[alias] == token@,
                Err(e) => e == UploadError::MissingAlias && !(self.issued() matches Some(alias)
                    && manager@.aliases.delete_tokens.contains_key(alias)),
            },
    {
        match &self.alias {
            Some(alias) => match manager.repo.aliases.delete_token(alias) {
                Some(token) => Ok(token),
                None => Err(UploadError::MissingAlias),
            },
            None => Err(UploadError::MissingAlias),
        }
    }

    /// Marks the upload as having come to a good end.
    pub fn succeed(&mut self)
        ensures
            final(self).finished(),
            final(self).issued() == old(self).issued(),
    {
        self.finished = true;
    }

    /// Closes the session. An upload that has come to a good end stays as it
    /// is. Of any other, the alias that was issued is deleted, and the blobs
    /// to remove are handed back as by a deletion.
    pub fn close(self, manager: &mut UploadManager) -> (r: Vec<Vec<u8>>)
        ensures
            match self.issued() {
                Some(alias) => if self.finished() || !(
                old(manager)@.aliases.delete_tokens.contains_key(alias)
                    && old(manager)@.aliases.hashes.contains_key(alias)) {
                    final(manager)@ == old(manager)@ && r@.len() == 0
                } else {
                    let hash = old(manager)@.aliases.hashes[alias];
                    let unlinked = old(manager)@.delete(alias);
                    final(manager)@ == unlinked.collect(hash) && lists_blobs(r@, unlinked, hash)
                },
                None => final(manager)@ == old(manager)@ && r@.len() == 0,
            },
    {
        if self.finished {
            return Vec::new();
        }
        match &self.alias {
            Some(alias) => match manager.delete_without_token(alias) {
                Ok(blobs) => blobs,
                Err(_) => Vec::new(),
            },
            None => Vec::new(),
        }
    }
}

/// `names` holds the text of every alias that refers to `hash` in state `s`,
/// and nothing else.
pub open spec fn lists_alias_texts(names: Seq<String>, s: RepoState, hash: Seq<u8>) -> bool {
    &&& forall|a: AliasView|
        s.hashes.aliases.contains((hash, a)) ==> exists|i: int|
            0 <= i < names.len() && #[trigger] names[i]@ == a.text()
    &&& forall|i: int| 0 <= i < names.len() ==> is_alias_text(#[trigger] names[i]@, s, hash)
}

/// `text` is the text of an alias that refers to `hash` in state `s`.
pub open spec fn is_alias_text(text: Seq<char>, s: RepoState, hash: Seq<u8>) -> bool {
    exists|a: AliasView| #[trigger] s.hashes.aliases.contains((hash, a)) && text == a.text()
}

/// `blobs` names the blobs that the check after a deletion hands back for
/// `hash` in state `s`: none while an alias refers to the hash, and all the
/// blobs of the hash otherwise.
pub open spec fn lists_blobs(blobs: Seq<Vec<u8>>, s: RepoState, hash: Seq<u8>) -> bool {
    if s.hashes.has_aliases(hash) {
        blobs.len() == 0
    } else {
        forall|id: Seq<u8>|
            s.blobs_of(hash).contains(id) <==> exists|i: int|
                0 <= i < blobs.len() && #[trigger] blobs[i]@ == id
    }
}

} // verus!
