//! The identifier at the heart of an alias or a delete token: either a UUID,
//! held as its sixteen bytes, or a free-form name that is not the text of any
//! UUID.

use vstd::prelude::*;
use vstd::string::*;
use vstd::utf8::*;
use crate::bytes::bytes_eq;

verus! {

broadcast use vstd::array::group_array_axioms;

/// The lower-case hexadecimal digit for a value below sixteen.
pub open spec fn hex_digit(n: int) -> char {
    if n == 0 {
        '0'
    } else if n == 1 {
        '1'
    } else if n == 2 {
        '2'
    } else if n == 3 {
        '3'
    } else if n == 4 {
        '4'
    } else if n == 5 {
        '5'
    } else if n == 6 {
        '6'
    } else if n == 7 {
        '7'
    } else if n == 8 {
        '8'
    } else if n == 9 {
        '9'
    } else if n == 10 {
        'a'
    } else if n == 11 {
        'b'
    } else if n == 12 {
        'c'
    } else if n == 13 {
        'd'
    } else if n == 14 {
        'e'
    } else {
        'f'
    }
}

/// The `k`-th of the thirty-two half-bytes of `b`, high half first.
pub open spec fn nibble(b: Seq<u8>, k: int) -> int {
    if k % 2 == 0 {
        b[k / 2] as int / 16
    } else {
        b[k / 2] as int % 16
    }
}

/// Which half-byte stands at position `i` of the hyphenated text.
pub open spec fn hex_position(i: int) -> int {
    if i < 8 {
        i
    } else if i < 13 {
        i - 1
    } else if i < 18 {
        i - 2
    } else if i < 23 {
        i - 3
    } else {
        i - 4
    }
}

/// The canonical text of a UUID: thirty-two lower-case hexadecimal digits in
/// groups of 8, 4, 4, 4 and 12, separated by hyphens.
pub open spec fn uuid_text(b: Seq<u8>) -> Seq<char> {
    Seq::new(
        36,
        |i: int|
            if i == 8 || i == 13 || i == 18 || i == 23 {
                '-'
            } else {
                hex_digit(nibble(b, hex_position(i)))
            },
    )
}

/// The canonical text of a UUID holds no dot.
pub proof fn lemma_uuid_text_has_no_dot(b: Seq<u8>)
    ensures
        uuid_text(b).len() == 36,
        forall|i: int| 0 <= i < 36 ==> uuid_text(b)[i] != '.',
{
}

/// Where the `k`-th half-byte stands in the hyphenated text.
pub open spec fn text_position(k: int) -> int {
    if k < 8 {
        k
    } else if k < 12 {
        k + 1
    } else if k < 16 {
        k + 2
    } else if k < 20 {
        k + 3
    } else {
        k + 4
    }
}

/// Distinct values below sixteen have distinct digits.
pub proof fn lemma_hex_digit_injective(x: int, y: int)
    requires
        0 <= x < 16,
        0 <= y < 16,
        hex_digit(x) == hex_digit(y),
    ensures
        x == y,
{
}

/// The two digits that spell byte `j` in the canonical text.
pub proof fn lemma_uuid_text_byte(b: Seq<u8>, j: int)
    requires
        b.len() == 16,
        0 <= j < 16,
    ensures
        uuid_text(b)[text_position(2 * j)] == hex_digit(b[j] as int / 16),
        uuid_text(b)[text_position(2 * j + 1)] == hex_digit(b[j] as int % 16),
{
    assert(hex_position(text_position(2 * j)) == 2 * j);
    assert(hex_position(text_position(2 * j + 1)) == 2 * j + 1);
}

/// The canonical text determines the UUID.
pub proof fn lemma_uuid_text_injective(a: Seq<u8>, b: Seq<u8>)
    requires
        a.len() == 16,
        b.len() == 16,
        uuid_text(a) == uuid_text(b),
    ensures
        a == b,
{
    assert forall|j: int| 0 <= j < 16 implies a[j] == b[j] by {
        lemma_uuid_text_byte(a, j);
        lemma_uuid_text_byte(b, j);
        lemma_hex_digit_injective(a[j] as int / 16, b[j] as int / 16);
        lemma_hex_digit_injective(a[j] as int % 16, b[j] as int % 16);
    }
    assert(a =~= b);
}

/// What `Uuid::parse_str` makes of a text that is not the canonical text of
/// a UUID but has the length of one of the accepted notations: the bytes of
/// the UUID it spells in that notation, or nothing.
pub uninterp spec fn uuid_parse_other(s: Seq<char>) -> Option<Seq<u8>>;

/// Whether `s` is the canonical text of some UUID.
pub open spec fn is_uuid_text(s: Seq<char>) -> bool {
    exists|b: Seq<u8>| b.len() == 16 && uuid_text(b) == s
}

/// Whether a text has the length of one of the notations of a UUID: 32, 36,
/// 38 or 45 bytes in UTF-8.
pub open spec fn has_uuid_length(s: Seq<char>) -> bool {
    let n = encode_utf8(s).len();
    n == 32 || n == 36 || n == 38 || n == 45
}

/// What `Uuid::parse_str` makes of a text. The canonical text of a UUID
/// reads back as that UUID. A text of any length but those of the accepted
/// notations reads as nothing. The result on any other text is named by
/// `uuid_parse_other`.
pub open spec fn uuid_parse(s: Seq<char>) -> Option<Seq<u8>> {
    if is_uuid_text(s) {
        Some(choose|b: Seq<u8>| b.len() == 16 && uuid_text(b) == s)
    } else if !has_uuid_length(s) {
        None
    } else {
        uuid_parse_other(s)
    }
}

/// A text that has not the length of any notation of a UUID is a name.
pub proof fn lemma_other_lengths_are_names(s: Seq<char>)
    requires
        s.len() != 36,
        !has_uuid_length(s),
    ensures
        id_from_text(s) == IdView::Name(s),
        id_from_text(s).wf(),
{
    if is_uuid_text(s) {
        let b = choose|b: Seq<u8>| b.len() == 16 && uuid_text(b) == s;
        assert(uuid_text(b).len() == 36);
    }
}

/// Parsing the canonical text of a UUID gives the UUID back.
pub proof fn lemma_uuid_parse_text(b: Seq<u8>)
    requires
        b.len() == 16,
    ensures
        uuid_parse(uuid_text(b)) == Some(b),
{
    let s = uuid_text(b);
    assert(is_uuid_text(s));
    let c = choose|c: Seq<u8>| c.len() == 16 && uuid_text(c) == s;
    lemma_uuid_text_injective(c, b);
}

/// The mathematical value of an identifier.
pub enum IdView {
    Uuid(Seq<u8>),
    Name(Seq<char>),
}

impl IdView {
    /// A UUID has sixteen bytes; a name is a text that does not read as a UUID.
    pub open spec fn wf(self) -> bool {
        match self {
            IdView::Uuid(b) => b.len() == 16,
            IdView::Name(n) => uuid_parse(n) is None,
        }
    }

    /// The text form: the canonical text of a UUID, or the name itself.
    pub open spec fn text(self) -> Seq<char> {
        match self {
            IdView::Uuid(b) => uuid_text(b),
            IdView::Name(n) => n,
        }
    }

    /// The binary form: the raw bytes of a UUID, or the name in UTF-8.
    pub open spec fn bytes(self) -> Seq<u8> {
        match self {
            IdView::Uuid(b) => b,
            IdView::Name(n) => encode_utf8(n),
        }
    }
}

/// The identifier that a text stands for: the UUID it spells, else the text
/// itself as a name.
pub open spec fn id_from_text(s: Seq<char>) -> IdView {
    match uuid_parse(s) {
        Some(b) => IdView::Uuid(b),
        None => IdView::Name(s),
    }
}

/// `Uuid::parse_str`, with the UUID handed back as its bytes. The result is
/// the one that `uuid_parse` gives for the text: the UUID itself for a
/// canonical text, nothing for a text of a length that no notation has, and
/// what `uuid_parse_other` names for any other.
#[verifier::external_body]
pub(crate) fn uuid_parse_str(s: &str) -> (r: Option<[u8; 16]>)
    ensures
        match r {
            Some(b) => uuid_parse(s@) == Some(b@),
            None => uuid_parse(s@) is None,
        },
        !has_uuid_length(s@) ==> r is None,
        has_uuid_length(s@) && !is_uuid_text(s@) ==> match r {
            Some(b) => uuid_parse_other(s@) == Some(b@),
            None => uuid_parse_other(s@) is None,
        },
{
    match uuid::Uuid::parse_str(s) {
        Ok(u) => Some(u.into_bytes()),
        Err(_) => None,
    }
}

/// `Uuid`'s `Display`: the lower-case hyphenated text of the UUID with the
/// given bytes.
#[verifier::external_body]
pub(crate) fn uuid_to_string(b: &[u8; 16]) -> (r: String)
    ensures
        r@ == uuid_text(b@),
{
    uuid::Uuid::from_bytes(*b).to_string()
}

/// `Uuid::from_slice`: succeeds exactly on sixteen bytes, which it keeps.
#[verifier::external_body]
pub(crate) fn uuid_from_slice(b: &[u8]) -> (r: Option<[u8; 16]>)
    ensures
        r is Some <==> b@.len() == 16,
        r matches Some(u) ==> u@ == b@,
{
    match uuid::Uuid::from_slice(b) {
        Ok(u) => Some(u.into_bytes()),
        Err(_) => None,
    }
}

/// The bytes of a UUID of version 4 in the variant of the standard: sixteen
/// bytes, of which the seventh holds the version in its high half and the
/// ninth starts with the bits one and zero. The other bits are free.
pub open spec fn is_random_uuid(b: Seq<u8>) -> bool {
    b.len() == 16 && b[6] as int / 16 == 4 && b[8] as int / 64 == 2
}

/// `Uuid::new_v4`: the bytes of a freshly drawn random UUID. Whatever is
/// drawn, the version is 4 and the variant is that of the standard; nothing
/// is promised of the other bits.
#[verifier::external_body]
pub(crate) fn uuid_new_v4() -> (r: [u8; 16])
    ensures
        is_random_uuid(r@),
{
    uuid::Uuid::new_v4().into_bytes()
}

/// The canonical text of a freshly drawn random UUID.
pub fn random_uuid_text() -> (r: String)
    ensures
        is_uuid_text(r@),
{
    let bytes = uuid_new_v4();
    let text = uuid_to_string(&bytes);
    assert(bytes@.len() == 16 && uuid_text(bytes@) == text@);
    text
}

/// A UUID, or a name that is not one.
#[derive(Clone, Debug, PartialEq, Eq, PartialOrd, Ord, Hash)]
pub enum MaybeUuid {
    Uuid([u8; 16]),
    Name(String),
}

impl View for MaybeUuid {
    type V = IdView;

    open spec fn view(&self) -> IdView {
        match self {
            MaybeUuid::Uuid(b) => IdView::Uuid(b@),
            MaybeUuid::Name(n) => IdView::Name(n@),
        }
    }
}

impl MaybeUuid {
    /// Reads a text as a UUID where it spells one, and keeps it as a name
    /// otherwise.
    pub fn from_str(s: &str) -> (r: Self)
        ensures
            r@ == id_from_text(s@),
            r@.wf(),
    {
        match uuid_parse_str(s) {
            Some(b) => MaybeUuid::Uuid(b),
            None => MaybeUuid::Name(s.to_owned()),
        }
    }

    /// A freshly drawn random UUID: a UUID of version 4, never a name.
    pub fn generate() -> (r: Self)
        ensures
            r@ is Uuid,
            r@.wf(),
            r@ matches IdView::Uuid(b) && is_random_uuid(b),
    {
        MaybeUuid::Uuid(uuid_new_v4())
    }

    /// The binary form.
    pub fn as_bytes(&self) -> (r: &[u8])
        ensures
            r@ == self@.bytes(),
    {
        match self {
            MaybeUuid::Uuid(b) => b.as_slice(),
            MaybeUuid::Name(n) => n.as_str().as_bytes(),
        }
    }

    /// The text form. Reading the text back gives the identifier again.
    pub fn to_string(&self) -> (r: String)
        ensures
            r@ == self@.text(),
            self@.wf() ==> id_from_text(r@) == self@,
    {
        match self {
            MaybeUuid::Uuid(b) => {
                proof {
                    lemma_uuid_parse_text(b@);
                }
                uuid_to_string(b)
            },
            MaybeUuid::Name(n) => n.clone(),
        }
    }

    /// An independent copy.
    pub fn duplicate(&self) -> (r: Self)
        ensures
            r@ == self@,
    {
        match self {
            MaybeUuid::Uuid(b) => MaybeUuid::Uuid(*b),
            MaybeUuid::Name(n) => MaybeUuid::Name(n.clone()),
        }
    }

    /// Whether two identifiers are the same value: a UUID equals only a UUID
    /// with the same bytes, a name only a name with the same text.
    pub fn same(&self, other: &Self) -> (r: bool)
        ensures
            r == (self@ == other@),
    {
        match self {
            MaybeUuid::Uuid(a) => match other {
                MaybeUuid::Uuid(b) => bytes_eq(a.as_slice(), b.as_slice()),
                MaybeUuid::Name(_) => false,
            },
            MaybeUuid::Name(a) => match other {
                MaybeUuid::Uuid(_) => false,
                MaybeUuid::Name(b) => a.eq(b),
            },
        }
    }
}

} // verus!
