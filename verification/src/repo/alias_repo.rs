//! What is recorded of each alias: whether it exists, the token that allows
//! its deletion, and the hash it refers to.

use vstd::prelude::*;
use crate::alias::{Alias, AliasView, DeleteToken};
use crate::ident::IdView;
use crate::repo::table::{Key, Table};
use crate::repo::AlreadyExists;

verus! {

/// The relations that hang on aliases.
pub struct AliasState {
    /// The aliases that have been created.
    pub aliases: Set<AliasView>,
    /// The token that allows an alias to be deleted.
    pub delete_tokens: Map<AliasView, IdView>,
    /// The hash that an alias refers to.
    pub hashes: Map<AliasView, Seq<u8>>,
}

impl AliasState {
    /// Nothing recorded.
    pub open spec fn empty() -> AliasState {
        AliasState { aliases: Set::empty(), delete_tokens: Map::empty(), hashes: Map::empty() }
    }

    /// The state after `alias` has been created.
    pub open spec fn create(self, alias: AliasView) -> AliasState {
        AliasState { aliases: self.aliases.insert(alias), ..self }
    }

    /// The state after the delete token of `alias` has been set.
    pub open spec fn relate_delete_token(self, alias: AliasView, token: IdView) -> AliasState {
        AliasState { delete_tokens: self.delete_tokens.insert(alias, token), ..self }
    }

    /// The state after `alias` has been made to refer to `hash`.
    pub open spec fn relate_hash(self, alias: AliasView, hash: Seq<u8>) -> AliasState {
        AliasState { hashes: self.hashes.insert(alias, hash), ..self }
    }

    /// The state after everything about `alias` has been forgotten.
    pub open spec fn cleanup(self, alias: AliasView) -> AliasState {
        AliasState {
            aliases: self.aliases.remove(alias),
            delete_tokens: self.delete_tokens.remove(alias),
            hashes: self.hashes.remove(alias),
        }
    }

    /// Nothing at all is recorded of `alias`.
    pub open spec fn unknown(self, alias: AliasView) -> bool {
        &&& !self.aliases.contains(alias)
        &&& !self.delete_tokens.contains_key(alias)
        &&& !self.hashes.contains_key(alias)
    }
}

/// Guarded creation. Once an alias has been created it is on record, so
/// that a second creation is refused and changes nothing; and creating an
/// alias touches no other relation.
pub proof fn lemma_create_is_guarded(s: AliasState, alias: AliasView)
    ensures
        s.create(alias).aliases.contains(alias),
        s.create(alias).create(alias) == s.create(alias),
        s.create(alias).delete_tokens == s.delete_tokens,
        s.create(alias).hashes == s.hashes,
{
    assert(s.aliases.insert(alias).insert(alias) =~= s.aliases.insert(alias));
}

/// The alias relations, held in memory.
pub struct AliasRepo {
    aliases: Table<Alias, ()>,
    delete_tokens: Table<Alias, DeleteToken>,
    hashes: Table<Alias, Vec<u8>>,
}

impl View for AliasRepo {
    type V = AliasState;

    closed spec fn view(&self) -> AliasState {
        AliasState {
            aliases: self.aliases@.dom(),
            delete_tokens: self.delete_tokens@,
            hashes: self.hashes@,
        }
    }
}

impl AliasRepo {
    /// A repository that records nothing.
    pub fn new() -> (r: Self)
        ensures
            r@ == AliasState::empty(),
    {
        let r = AliasRepo {
            aliases: Table::new(),
            delete_tokens: Table::new(),
            hashes: Table::new(),
        };
        assert(r.aliases@.dom() =~= Set::empty());
        r
    }

    /// Creates `alias`, unless it exists. A second creation is reported and
    /// changes nothing.
    pub fn create(&mut self, alias: &Alias) -> (r: Result<(), AlreadyExists>)
        ensures
            r is Ok <==> !old(self)@.aliases.contains(alias@),
            r is Ok ==> final(self)@ == old(self)@.create(alias@),
            r is Err ==> final(self)@ == old(self)@,
    {
        if self.aliases.insert_new(alias.duplicate(), ()) {
            assert(self.aliases@.dom() =~= old(self).aliases@.dom().insert(alias@));
            Ok(())
        } else {
            Err(AlreadyExists)
        }
    }

    /// Whether `alias` has been created.
    pub fn is_created(&self, alias: &Alias) -> (r: bool)
        ensures
            r == self@.aliases.contains(alias@),
    {
        self.aliases.contains_key(alias)
    }

    /// Sets the delete token of `alias`, unless it has one. A token that is
    /// set stays: a second attempt is reported and changes nothing.
    pub fn relate_delete_token(&mut self, alias: &Alias, delete_token: &DeleteToken) -> (r: Result<
        (),
        AlreadyExists,
    >)
        ensures
            r is Ok <==> !old(self)@.delete_tokens.contains_key(alias@),
            r is Ok ==> final(self)@ == old(self)@.relate_delete_token(alias@, delete_token@),
            r is Err ==> final(self)@ == old(self)@,
    {
        if self.delete_tokens.insert_new(alias.duplicate(), delete_token.duplicate()) {
            Ok(())
        } else {
            Err(AlreadyExists)
        }
    }

    /// The delete token of `alias`.
    pub fn delete_token(&self, alias: &Alias) -> (r: Option<DeleteToken>)
        ensures
            match r {
                Some(t) => self@.delete_tokens.contains_key(alias@) && self@.delete_tokens[alias@]
                    == t@,
                None => !self@.delete_tokens.contains_key(alias@),
            },
    {
        match self.delete_tokens.get(alias) {
            Some(t) => Some(t.duplicate()),
            None => None,
        }
    }

    /// Makes `alias` refer to `hash`.
    pub fn relate_hash(&mut self, alias: &Alias, hash: Vec<u8>)
        ensures
            final(self)@ == old(self)@.relate_hash(alias@, hash@),
    {
        self.hashes.insert(alias.duplicate(), hash);
    }

    /// The hash that `alias` refers to.
    pub fn hash(&self, alias: &Alias) -> (r: Option<Vec<u8>>)
        ensures
            match r {
                Some(h) => self@.hashes.contains_key(alias@) && self@.hashes[alias@] == h@,
                None => !self@.hashes.contains_key(alias@),
            },
    {
        match self.hashes.get(alias) {
            Some(h) => Some(h.duplicate()),
            None => None,
        }
    }

    /// Forgets everything about `alias`.
    pub fn cleanup(&mut self, alias: &Alias)
        ensures
            final(self)@ == old(self)@.cleanup(alias@),
    {
        self.aliases.remove(alias);
        self.delete_tokens.remove(alias);
        self.hashes.remove(alias);
        assert(self.aliases@.dom() =~= old(self).aliases@.dom().remove(alias@));
    }
}

} // verus!
