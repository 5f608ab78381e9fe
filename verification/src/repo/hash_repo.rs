//! What is recorded of each content hash: whether it exists, the aliases that
//! refer to it, and where its original, its variants and its motion preview
//! are stored.

use vstd::prelude::*;
use crate::alias::{Alias, AliasView};
use crate::repo::table::{keys_under, Key, Table};
use crate::repo::AlreadyExists;

verus! {

/// The relations that hang on hashes.
pub struct HashState {
    /// The hashes that have been created.
    pub hashes: Set<Seq<u8>>,
    /// Which alias refers to which hash.
    pub aliases: Set<(Seq<u8>, AliasView)>,
    /// Where the original bytes of a hash are stored.
    pub identifiers: Map<Seq<u8>, Seq<u8>>,
    /// Where the variant of a hash under a variant key is stored.
    pub variants: Map<(Seq<u8>, Seq<char>), Seq<u8>>,
    /// Where the motion preview of a hash is stored.
    pub motion: Map<Seq<u8>, Seq<u8>>,
}

impl HashState {
    /// Nothing recorded.
    pub open spec fn empty() -> HashState {
        HashState {
            hashes: Set::empty(),
            aliases: Set::empty(),
            identifiers: Map::empty(),
            variants: Map::empty(),
            motion: Map::empty(),
        }
    }

    /// The state after `hash` has been created.
    pub open spec fn create(self, hash: Seq<u8>) -> HashState {
        HashState { hashes: self.hashes.insert(hash), ..self }
    }

    /// The state after `alias` has been entered as a member of `hash`.
    pub open spec fn relate_alias(self, hash: Seq<u8>, alias: AliasView) -> HashState {
        HashState { aliases: self.aliases.insert((hash, alias)), ..self }
    }

    /// The state after `alias` has been struck from the members of `hash`.
    pub open spec fn remove_alias(self, hash: Seq<u8>, alias: AliasView) -> HashState {
        HashState { aliases: self.aliases.remove((hash, alias)), ..self }
    }

    /// The state after the original of `hash` has been recorded.
    pub open spec fn relate_identifier(self, hash: Seq<u8>, identifier: Seq<u8>) -> HashState {
        HashState { identifiers: self.identifiers.insert(hash, identifier), ..self }
    }

    /// The state after a variant of `hash` has been recorded.
    pub open spec fn relate_variant_identifier(
        self,
        hash: Seq<u8>,
        variant: Seq<char>,
        identifier: Seq<u8>,
    ) -> HashState {
        HashState { variants: self.variants.insert((hash, variant), identifier), ..self }
    }

    /// The state after the motion preview of `hash` has been recorded.
    pub open spec fn relate_motion_identifier(
        self,
        hash: Seq<u8>,
        identifier: Seq<u8>,
    ) -> HashState {
        HashState { motion: self.motion.insert(hash, identifier), ..self }
    }

    /// The state after everything about `hash` has been forgotten.
    pub open spec fn cleanup(self, hash: Seq<u8>) -> HashState {
        HashState {
            hashes: self.hashes.remove(hash),
            aliases: self.aliases.difference(keys_under(hash)),
            identifiers: self.identifiers.remove(hash),
            variants: self.variants.remove_keys(keys_under(hash)),
            motion: self.motion.remove(hash),
        }
    }

    /// Whether any alias still refers to `hash`.
    pub open spec fn has_aliases(self, hash: Seq<u8>) -> bool {
        exists|alias: AliasView| self.aliases.contains((hash, alias))
    }
}

/// Guarded creation. Once a hash has been created it is on record, so that
/// a second creation is refused and changes nothing; and creating a hash
/// touches no other relation.
pub proof fn lemma_create_is_guarded(s: HashState, hash: Seq<u8>)
    ensures
        s.create(hash).hashes.contains(hash),
        s.create(hash).create(hash) == s.create(hash),
        s.create(hash).aliases == s.aliases,
        s.create(hash).identifiers == s.identifiers,
        s.create(hash).variants == s.variants,
        s.create(hash).motion == s.motion,
{
    assert(s.hashes.insert(hash).insert(hash) =~= s.hashes.insert(hash));
}

/// The hash relations, held in memory.
pub struct HashRepo {
    hashes: Table<Vec<u8>, ()>,
    aliases: Table<(Vec<u8>, Alias), ()>,
    identifiers: Table<Vec<u8>, Vec<u8>>,
    variants: Table<(Vec<u8>, String), Vec<u8>>,
    motion: Table<Vec<u8>, Vec<u8>>,
}

impl View for HashRepo {
    type V = HashState;

    closed spec fn view(&self) -> HashState {
        HashState {
            hashes: self.hashes@.dom(),
            aliases: self.aliases@.dom(),
            identifiers: self.identifiers@,
            variants: self.variants@,
            motion: self.motion@,
        }
    }
}

impl HashRepo {
    /// A repository that records nothing.
    pub fn new() -> (r: Self)
        ensures
            r@ == HashState::empty(),
    {
        let r = HashRepo {
            hashes: Table::new(),
            aliases: Table::new(),
            identifiers: Table::new(),
            variants: Table::new(),
            motion: Table::new(),
        };
        assert(r.hashes@.dom() =~= Set::empty());
        assert(r.aliases@.dom() =~= Set::empty());
        r
    }

    /// Every hash that has been created, each once.
    pub fn hashes(&self) -> (r: Vec<Vec<u8>>)
        ensures
            forall|i: int, j: int| 0 <= i < j < r@.len() ==> r@[i]@ != r@[j]@,
            forall|h: Seq<u8>|
                self@.hashes.contains(h) <==> exists|i: int|
                    0 <= i < r@.len() && #[trigger] r@[i]@ == h,
    {
        let r = self.hashes.keys();
        proof {
            let order = self.hashes.key_order();
            assert forall|i: int, j: int| 0 <= i < j < r@.len() implies r@[i]@ != r@[j]@ by {
                assert(order[i] != order[j]);
            }
            assert forall|h: Seq<u8>|
                self@.hashes.contains(h) <==> exists|i: int|
                    0 <= i < r@.len() && #[trigger] r@[i]@ == h by {
                if self@.hashes.contains(h) {
                    assert(self.hashes@.contains_key(h));
                    assert(order.contains(h));
                    let i = choose|i: int| 0 <= i < order.len() && order[i] == h;
                    assert(r@[i]@ == h);
                }
                if exists|i: int| 0 <= i < r@.len() && #[trigger] r@[i]@ == h {
                    let i = choose|i: int| 0 <= i < r@.len() && #[trigger] r@[i]@ == h;
                    assert(order[i] == h);
                    assert(order.contains(h));
                    assert(self.hashes@.contains_key(h));
                }
            }
        }
        r
    }

    /// Creates `hash`, unless it exists. A second creation is reported and
    /// changes nothing.
    pub fn create(&mut self, hash: Vec<u8>) -> (r: Result<(), AlreadyExists>)
        ensures
            r is Ok <==> !old(self)@.hashes.contains(hash@),
            r is Ok ==> final(self)@ == old(self)@.create(hash@),
            r is Err ==> final(self)@ == old(self)@,
    {
        let ghost h = hash@;
        if self.hashes.insert_new(hash, ()) {
            assert(self.hashes@.dom() =~= old(self).hashes@.dom().insert(h));
            Ok(())
        } else {
            Err(AlreadyExists)
        }
    }

    /// Whether `hash` has been created.
    pub fn is_created(&self, hash: &Vec<u8>) -> (r: bool)
        ensures
            r == self@.hashes.contains(hash@),
    {
        self.hashes.contains_key(hash)
    }

    /// Enters `alias` as a member of `hash`.
    pub fn relate_alias(&mut self, hash: Vec<u8>, alias: &Alias)
        ensures
            final(self)@ == old(self)@.relate_alias(hash@, alias@),
    {
        let ghost key = (hash@, alias@);
        self.aliases.insert((hash, alias.duplicate()), ());
        assert(self.aliases@.dom() =~= old(self).aliases@.dom().insert(key));
    }

    /// Strikes `alias` from the members of `hash`.
    pub fn remove_alias(&mut self, hash: Vec<u8>, alias: &Alias)
        ensures
            final(self)@ == old(self)@.remove_alias(hash@, alias@),
    {
        let key = (hash, alias.duplicate());
        self.aliases.remove(&key);
        assert(self.aliases@.dom() =~= old(self).aliases@.dom().remove(key@));
    }

    /// The aliases that refer to `hash`, each once.
    pub fn aliases(&self, hash: &Vec<u8>) -> (r: Vec<Alias>)
        ensures
            forall|i: int, j: int| 0 <= i < j < r@.len() ==> r@[i]@ != r@[j]@,
            forall|a: AliasView|
                self@.aliases.contains((hash@, a)) <==> exists|i: int|
                    0 <= i < r@.len() && #[trigger] r@[i]@ == a,
            r@.len() > 0 <==> self@.has_aliases(hash@),
    {
        let r = self.aliases.seconds_of(hash);
        proof {
            if r@.len() > 0 {
                assert(self@.aliases.contains((hash@, r@[0]@)));
            }
        }
        r
    }

    /// Records where the original of `hash` is stored.
    pub fn relate_identifier(&mut self, hash: Vec<u8>, identifier: Vec<u8>)
        ensures
            final(self)@ == old(self)@.relate_identifier(hash@, identifier@),
    {
        self.identifiers.insert(hash, identifier);
    }

    /// Where the original of `hash` is stored.
    pub fn identifier(&self, hash: &Vec<u8>) -> (r: Option<Vec<u8>>)
        ensures
            match r {
                Some(id) => self@.identifiers.contains_key(hash@) && self@.identifiers[hash@]
                    == id@,
                None => !self@.identifiers.contains_key(hash@),
            },
    {
        match self.identifiers.get(hash) {
            Some(id) => Some(id.duplicate()),
            None => None,
        }
    }

    /// Records where the variant of `hash` under `variant` is stored.
    pub fn relate_variant_identifier(&mut self, hash: Vec<u8>, variant: String, identifier: Vec<u8>)
        ensures
            final(self)@ == old(self)@.relate_variant_identifier(hash@, variant@, identifier@),
    {
        self.variants.insert((hash, variant), identifier);
    }

    /// Where the variant of `hash` under `variant` is stored.
    pub fn variant_identifier(&self, hash: Vec<u8>, variant: String) -> (r: Option<Vec<u8>>)
        ensures
            match r {
                Some(id) => self@.variants.contains_key((hash@, variant@)) && self@.variants[(
                    hash@,
                    variant@,
                )] == id@,
                None => !self@.variants.contains_key((hash@, variant@)),
            },
    {
        let key = (hash, variant);
        match self.variants.get(&key) {
            Some(id) => Some(id.duplicate()),
            None => None,
        }
    }

    /// The variants of `hash`: each variant key once, with where it is stored.
    pub fn variants(&self, hash: &Vec<u8>) -> (r: Vec<(String, Vec<u8>)>)
        ensures
            forall|i: int, j: int| 0 <= i < j < r@.len() ==> r@[i].0@ != r@[j].0@,
            forall|i: int|
                0 <= i < r@.len() ==> self@.variants.contains_key((hash@, (#[trigger] r@[i]).0@))
                    && self@.variants[(hash@, r@[i].0@)] == r@[i].1@,
            forall|v: Seq<char>|
                self@.variants.contains_key((hash@, v)) <==> exists|i: int|
                    0 <= i < r@.len() && (#[trigger] r@[i]).0@ == v,
    {
        let names = self.variants.seconds_of(hash);
        let mut out: Vec<(String, Vec<u8>)> = Vec::new();
        let mut i: usize = 0;
        while i < names.len()
            invariant
                i <= names@.len(),
                out@.len() == i,
                forall|v: Seq<char>|
                    self.variants@.contains_key((hash@, v)) <==> exists|j: int|
                        0 <= j < names@.len() && #[trigger] names@[j]@ == v,
                forall|j: int|
                    0 <= j < i ==> (#[trigger] out@[j]).0@ == names@[j]@
                        && self.variants@.contains_key((hash@, names@[j]@)) && self.variants@[(
                        hash@,
                        names@[j]@,
                    )] == out@[j].1@,
            decreases names@.len() - i,
        {
            let key = (hash.duplicate(), names[i].duplicate());
            assert(self.variants@.contains_key((hash@, names@[i as int]@)));
            match self.variants.get(&key) {
                Some(id) => {
                    out.push((names[i].duplicate(), id.duplicate()));
                },
                None => {
                    assert(false);
                },
            }
            i += 1;
        }
        proof {
            assert forall|v: Seq<char>|
                self@.variants.contains_key((hash@, v)) <==> exists|i: int|
                    0 <= i < out@.len() && (#[trigger] out@[i]).0@ == v by {
                if self@.variants.contains_key((hash@, v)) {
                    let j = choose|j: int| 0 <= j < names@.len() && #[trigger] names@[j]@ == v;
                    assert(out@[j].0@ == v);
                }
                if exists|i: int| 0 <= i < out@.len() && (#[trigger] out@[i]).0@ == v {
                    let j = choose|j: int| 0 <= j < out@.len() && (#[trigger] out@[j]).0@ == v;
                    assert(names@[j]@ == v);
                }
            }
        }
        out
    }

    /// Records where the motion preview of `hash` is stored.
    pub fn relate_motion_identifier(&mut self, hash: Vec<u8>, identifier: Vec<u8>)
        ensures
            final(self)@ == old(self)@.relate_motion_identifier(hash@, identifier@),
    {
        self.motion.insert(hash, identifier);
    }

    /// Where the motion preview of `hash` is stored.
    pub fn motion_identifier(&self, hash: &Vec<u8>) -> (r: Option<Vec<u8>>)
        ensures
            match r {
                Some(id) => self@.motion.contains_key(hash@) && self@.motion[hash@] == id@,
                None => !self@.motion.contains_key(hash@),
            },
    {
        match self.motion.get(hash) {
            Some(id) => Some(id.duplicate()),
            None => None,
        }
    }

    /// Forgets everything about `hash`.
    pub fn cleanup(&mut self, hash: &Vec<u8>)
        ensures
            final(self)@ == old(self)@.cleanup(hash@),
    {
        self.hashes.remove(hash);
        self.aliases.remove_under(hash);
        self.identifiers.remove(hash);
        self.variants.remove_under(hash);
        self.motion.remove(hash);
        proof {
            assert(self.hashes@.dom() =~= old(self).hashes@.dom().remove(hash@));
            assert(self.aliases@.dom() =~= old(self).aliases@.dom().difference(
                keys_under(hash@),
            ));
        }
    }
}

} // verus!
