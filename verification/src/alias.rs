//! Aliases and delete tokens: the names under which an upload is known and the
//! capability that allows its removal, with their text and binary codecs.

use vstd::prelude::*;
use vstd::slice::{slice_subrange, slice_to_vec};
use vstd::string::*;
use vstd::utf8::*;
use crate::ident::{
    id_from_text, is_random_uuid, lemma_uuid_parse_text, lemma_uuid_text_has_no_dot,
    uuid_from_slice, uuid_text, IdView, MaybeUuid,
};
use crate::text::{
    find_char, first_char_index, lemma_encode_utf8_concat, lemma_encode_utf8_nonempty,
    lemma_first_char_index, lemma_first_char_index_unique, str_from_utf8, string_from_utf8_lossy,
    utf8_lossy,
};

verus! {

broadcast use vstd::array::group_array_axioms;

/// The mathematical value of an alias: its identifier and, where it has one,
/// its extension with the leading dot.
pub struct AliasView {
    pub id: IdView,
    pub extension: Option<Seq<char>>,
}

/// The characters of an optional extension.
pub open spec fn extension_text(extension: Option<Seq<char>>) -> Seq<char> {
    match extension {
        Some(e) => e,
        None => Seq::empty(),
    }
}

impl AliasView {
    /// The identifier is well formed, a name holds no dot, and an extension
    /// starts with one.
    pub open spec fn wf(self) -> bool {
        &&& self.id.wf()
        &&& (self.id matches IdView::Name(n) ==> first_char_index(n, '.') == n.len())
        &&& (self.extension matches Some(e) ==> e.len() > 0 && e[0] == '.')
    }

    /// The text form: the identifier's text followed by the extension.
    pub open spec fn text(self) -> Seq<char> {
        self.id.text() + extension_text(self.extension)
    }

    /// The binary form: the identifier's bytes followed by the extension in
    /// UTF-8.
    pub open spec fn bytes(self) -> Seq<u8> {
        self.id.bytes() + encode_utf8(extension_text(self.extension))
    }
}

/// The alias that a text stands for. The text is cut before its first dot:
/// what precedes is read as the identifier, the rest is the extension.
pub open spec fn alias_from_text(s: Seq<char>) -> AliasView {
    let i = first_char_index(s, '.');
    if i < s.len() {
        AliasView {
            id: id_from_text(s.subrange(0, i)),
            extension: Some(s.subrange(i, s.len() as int)),
        }
    } else {
        AliasView { id: id_from_text(s), extension: None }
    }
}

/// The alias that a byte string stands for. Valid UTF-8 is always read as
/// text. Only other input of at least sixteen bytes is read as a raw UUID
/// followed by an extension.
pub open spec fn alias_from_bytes(b: Seq<u8>) -> Option<AliasView> {
    if valid_utf8(b) {
        Some(alias_from_text(decode_utf8(b)))
    } else if b.len() >= 16 {
        Some(
            AliasView {
                id: IdView::Uuid(b.subrange(0, 16)),
                extension: if b.len() > 16 {
                    Some(utf8_lossy(b.subrange(16, b.len() as int)))
                } else {
                    None
                },
            },
        )
    } else {
        None
    }
}

/// The delete token that a byte string stands for. Valid UTF-8 is always read
/// as text. Only other input of exactly sixteen bytes is read as a raw UUID.
pub open spec fn token_from_bytes(b: Seq<u8>) -> Option<IdView> {
    if valid_utf8(b) {
        Some(id_from_text(decode_utf8(b)))
    } else if b.len() == 16 {
        Some(IdView::Uuid(b))
    } else {
        None
    }
}

/// The text of a well-formed identifier holds no dot.
pub proof fn lemma_id_text_has_no_dot(id: IdView)
    requires
        id.wf(),
        id matches IdView::Name(n) ==> first_char_index(n, '.') == n.len(),
    ensures
        first_char_index(id.text(), '.') == id.text().len(),
{
    match id {
        IdView::Uuid(b) => {
            lemma_uuid_text_has_no_dot(b);
            lemma_first_char_index_unique(uuid_text(b), '.', 36);
        },
        IdView::Name(n) => {},
    }
}

/// Reading the text of a well-formed identifier gives the identifier back.
pub proof fn lemma_id_text_round_trip(id: IdView)
    requires
        id.wf(),
    ensures
        id_from_text(id.text()) == id,
{
    match id {
        IdView::Uuid(b) => {
            lemma_uuid_parse_text(b);
        },
        IdView::Name(n) => {},
    }
}

/// Text codec round trip: decoding the text of a well-formed alias gives the
/// alias back, whether its identifier is a UUID or a name and whether or not
/// it has an extension.
pub proof fn lemma_alias_text_round_trip(a: AliasView)
    requires
        a.wf(),
    ensures
        alias_from_text(a.text()) == a,
{
    let t = a.id.text();
    lemma_id_text_has_no_dot(a.id);
    lemma_id_text_round_trip(a.id);
    lemma_first_char_index(t, '.');
    match a.extension {
        Some(e) => {
            let s = t + e;
            assert forall|i: int| 0 <= i < t.len() implies s[i] != '.' by {
                assert(s[i] == t[i]);
            }
            assert(s[t.len() as int] == e[0]);
            lemma_first_char_index_unique(s, '.', t.len() as int);
            assert(s.subrange(0, t.len() as int) =~= t);
            assert(s.subrange(t.len() as int, s.len() as int) =~= e);
        },
        None => {
            assert(t + Seq::<char>::empty() =~= t);
        },
    }
}

/// Two well-formed aliases with the same text are the same alias: a UUID and
/// a name never share a text.
pub proof fn lemma_alias_text_injective(a: AliasView, b: AliasView)
    requires
        a.wf(),
        b.wf(),
        a.text() == b.text(),
    ensures
        a == b,
{
    lemma_alias_text_round_trip(a);
    lemma_alias_text_round_trip(b);
}

/// Binary codec round trip for a name alias: its bytes are its text in
/// UTF-8, and decoding them gives the alias back.
pub proof fn lemma_name_alias_bytes_round_trip(a: AliasView)
    requires
        a.wf(),
        a.id is Name,
    ensures
        a.bytes() == encode_utf8(a.text()),
        alias_from_bytes(a.bytes()) == Some(a),
{
    broadcast use vstd::utf8::group_utf8_lib;

    lemma_encode_utf8_concat(a.id.text(), extension_text(a.extension));
    lemma_alias_text_round_trip(a);
}

/// Binary codec round trip for a UUID alias whose bytes are not valid UTF-8:
/// decoding them gives the alias back. Bytes that happen to be valid UTF-8
/// are read as text instead.
pub proof fn lemma_uuid_alias_bytes_round_trip(a: AliasView)
    requires
        a.wf(),
        a.id is Uuid,
        !valid_utf8(a.bytes()),
    ensures
        alias_from_bytes(a.bytes()) == Some(a),
{
    broadcast use vstd::utf8::group_utf8_lib;

    let u = a.id->Uuid_0;
    let e = extension_text(a.extension);
    let b = a.bytes();
    assert(b.subrange(0, 16) =~= u);
    assert(b.subrange(16, b.len() as int) =~= encode_utf8(e));
    match a.extension {
        Some(x) => {
            lemma_encode_utf8_nonempty(x);
        },
        None => {},
    }
}

/// Binary codec round trip for a delete token: decoding the bytes of a
/// well-formed token gives the token back, but for a UUID whose bytes happen
/// to be valid UTF-8, which are read as text instead.
pub proof fn lemma_token_bytes_round_trip(id: IdView)
    requires
        id.wf(),
        id is Uuid ==> !valid_utf8(id.bytes()),
    ensures
        token_from_bytes(id.bytes()) == Some(id),
{
    broadcast use vstd::utf8::group_utf8_lib;

    lemma_id_text_round_trip(id);
}

/// Cuts a text before its first dot.
pub fn split_at_dot(s: &str) -> (r: Option<(&str, &str)>)
    ensures
        match r {
            Some((start, end)) => {
                let i = first_char_index(s@, '.');
                &&& i < s@.len()
                &&& start@ == s@.subrange(0, i)
                &&& end@ == s@.subrange(i, s@.len() as int)
            },
            None => first_char_index(s@, '.') == s@.len(),
        },
{
    match find_char(s, '.') {
        Some(i) => {
            let n = s.unicode_len();
            Some((s.substring_char(0, i), s.substring_char(i, n)))
        },
        None => None,
    }
}

/// The name under which an upload is known to its users.
#[derive(Clone, Debug, PartialEq, Eq, PartialOrd, Ord, Hash)]
pub struct Alias {
    pub id: MaybeUuid,
    pub extension: Option<String>,
}

impl View for Alias {
    type V = AliasView;

    open spec fn view(&self) -> AliasView {
        AliasView {
            id: self.id@,
            extension: match self.extension {
                Some(e) => Some(e@),
                None => None,
            },
        }
    }
}

impl Alias {
    /// A new alias with a freshly drawn UUID of version 4 and the given
    /// extension.
    pub fn generate(extension: String) -> (r: Self)
        ensures
            r@.id is Uuid,
            r@.id.wf(),
            r@.id matches IdView::Uuid(b) && is_random_uuid(b),
            r@.extension == Some(extension@),
    {
        Alias { id: MaybeUuid::generate(), extension: Some(extension) }
    }

    /// Reads an alias from its text form.
    pub fn from_existing(alias: &str) -> (r: Self)
        ensures
            r@ == alias_from_text(alias@),
            r@.wf(),
    {
        proof {
            lemma_first_char_index(alias@, '.');
        }
        match split_at_dot(alias) {
            Some((start, end)) => {
                proof {
                    lemma_first_char_index_unique(start@, '.', start@.len() as int);
                }
                Alias { id: MaybeUuid::from_str(start), extension: Some(end.to_owned()) }
            },
            None => Alias { id: MaybeUuid::from_str(alias), extension: None },
        }
    }

    /// The extension, with its leading dot.
    pub fn extension(&self) -> (r: Option<&str>)
        ensures
            match r {
                Some(e) => self@.extension == Some(e@),
                None => self@.extension is None,
            },
    {
        match &self.extension {
            Some(e) => Some(e.as_str()),
            None => None,
        }
    }

    /// The text form. Decoding it gives a well-formed alias back.
    pub fn to_string(&self) -> (r: String)
        ensures
            r@ == self@.text(),
            self@.wf() ==> alias_from_text(r@) == self@,
    {
        proof {
            if self@.wf() {
                lemma_alias_text_round_trip(self@);
            }
        }
        let id = self.id.to_string();
        match &self.extension {
            Some(e) => id.concat(e.as_str()),
            None => {
                assert(id@ + Seq::<char>::empty() =~= id@);
                id
            },
        }
    }

    /// The binary form. Decoding it gives a well-formed alias back, unless
    /// the alias is a UUID whose bytes happen to be valid UTF-8.
    pub fn to_bytes(&self) -> (r: Vec<u8>)
        ensures
            r@ == self@.bytes(),
            self@.wf() && (self@.id is Uuid ==> !valid_utf8(r@)) ==> alias_from_bytes(r@) == Some(
                self@,
            ),
    {
        proof {
            if self@.wf() {
                if self@.id is Uuid {
                    if !valid_utf8(self@.bytes()) {
                        lemma_uuid_alias_bytes_round_trip(self@);
                    }
                } else {
                    lemma_name_alias_bytes_round_trip(self@);
                }
            }
        }
        let mut v = slice_to_vec(self.id.as_bytes());
        match &self.extension {
            Some(e) => {
                let ghost before = v@;
                v.extend_from_slice(e.as_str().as_bytes());
                assert(v@ =~= before + encode_utf8(e@));
            },
            None => {
                assert(encode_utf8(Seq::<char>::empty()) =~= Seq::<u8>::empty());
                assert(v@ + Seq::<u8>::empty() =~= v@);
            },
        }
        v
    }

    /// Reads an alias from its binary form. Bytes that are valid UTF-8 are
    /// read as the text form.
    pub fn from_slice(bytes: &[u8]) -> (r: Option<Self>)
        ensures
            match r {
                Some(a) => alias_from_bytes(bytes@) == Some(a@),
                None => alias_from_bytes(bytes@) is None,
            },
            valid_utf8(bytes@) ==> r is Some && r->Some_0@.wf(),
            r is Some <==> valid_utf8(bytes@) || bytes@.len() >= 16,
    {
        match str_from_utf8(bytes) {
            Some(s) => Some(Self::from_existing(s)),
            None => {
                if bytes.len() >= 16 {
                    match uuid_from_slice(slice_subrange(bytes, 0, 16)) {
                        Some(id) => {
                            let extension = if bytes.len() > 16 {
                                Some(
                                    string_from_utf8_lossy(
                                        slice_subrange(bytes, 16, bytes.len()),
                                    ),
                                )
                            } else {
                                None
                            };
                            Some(Alias { id: MaybeUuid::Uuid(id), extension })
                        },
                        None => None,
                    }
                } else {
                    None
                }
            },
        }
    }

    /// An independent copy.
    pub fn duplicate(&self) -> (r: Self)
        ensures
            r@ == self@,
    {
        Alias {
            id: self.id.duplicate(),
            extension: match &self.extension {
                Some(e) => Some(e.clone()),
                None => None,
            },
        }
    }

    /// Whether two aliases are the same value: the same identifier in the
    /// same representation, and the same extension.
    pub fn same(&self, other: &Self) -> (r: bool)
        ensures
            r == (self@ == other@),
    {
        if !self.id.same(&other.id) {
            return false;
        }
        match &self.extension {
            Some(a) => match &other.extension {
                Some(b) => a.eq(b),
                None => false,
            },
            None => other.extension.is_none(),
        }
    }
}

/// The capability that allows an alias to be deleted.
#[derive(Clone, Debug, PartialEq, Eq, PartialOrd, Ord, Hash)]
pub struct DeleteToken {
    pub id: MaybeUuid,
}

impl View for DeleteToken {
    type V = IdView;

    open spec fn view(&self) -> IdView {
        self.id@
    }
}

impl DeleteToken {
    /// Reads a token from its text form.
    pub fn from_existing(existing: &str) -> (r: Self)
        ensures
            r@ == id_from_text(existing@),
            r@.wf(),
    {
        DeleteToken { id: MaybeUuid::from_str(existing) }
    }

    /// A new token with a freshly drawn UUID of version 4: never a name, and
    /// random in all the bits that the version leaves free.
    pub fn generate() -> (r: Self)
        ensures
            r@ is Uuid,
            r@.wf(),
            r@ matches IdView::Uuid(b) && is_random_uuid(b),
    {
        DeleteToken { id: MaybeUuid::generate() }
    }

    /// The text form. Decoding it gives a well-formed token back.
    pub fn to_string(&self) -> (r: String)
        ensures
            r@ == self@.text(),
            self@.wf() ==> id_from_text(r@) == self@,
    {
        self.id.to_string()
    }

    /// The binary form. Decoding it gives a well-formed token back, unless
    /// the token is a UUID whose bytes happen to be valid UTF-8.
    pub fn to_bytes(&self) -> (r: Vec<u8>)
        ensures
            r@ == self@.bytes(),
            self@.wf() && (self@ is Uuid ==> !valid_utf8(r@)) ==> token_from_bytes(r@) == Some(
                self@,
            ),
    {
        proof {
            if self@.wf() && (self@ is Uuid ==> !valid_utf8(self@.bytes())) {
                lemma_token_bytes_round_trip(self@);
            }
        }
        slice_to_vec(self.id.as_bytes())
    }

    /// Reads a token from its binary form. Bytes that are valid UTF-8 are
    /// read as the text form.
    pub fn from_slice(bytes: &[u8]) -> (r: Option<Self>)
        ensures
            match r {
                Some(t) => token_from_bytes(bytes@) == Some(t@),
                None => token_from_bytes(bytes@) is None,
            },
            r matches Some(t) ==> t@.wf(),
            r is Some <==> valid_utf8(bytes@) || bytes@.len() == 16,
    {
        match str_from_utf8(bytes) {
            Some(s) => Some(DeleteToken::from_existing(s)),
            None => {
                if bytes.len() == 16 {
                    match uuid_from_slice(bytes) {
                        Some(id) => Some(DeleteToken { id: MaybeUuid::Uuid(id) }),
                        None => None,
                    }
                } else {
                    None
                }
            },
        }
    }

    /// An independent copy.
    pub fn duplicate(&self) -> (r: Self)
        ensures
            r@ == self@,
    {
        DeleteToken { id: self.id.duplicate() }
    }

    /// Whether two tokens are the same value.
    pub fn same(&self, other: &Self) -> (r: bool)
        ensures
            r == (self@ == other@),
    {
        self.id.same(&other.id)
    }
}

} // verus!
