//! The locator of a blob in the file store: its path below the store's root,
//! as text with `/` between the directories.

use vstd::prelude::*;
use vstd::string::*;
use vstd::utf8::*;
use crate::error::FileError;
use crate::scan::{after_first, before_first, chars_are, chars_of, split_once};
use crate::store::Identifier;
use crate::text::{lemma_first_char_index, str_from_utf8, string_of};

verus! {

/// The path of a blob below the root of the file store.
#[derive(Clone, Debug, PartialEq, Eq)]
pub struct FileId(pub String);

impl View for FileId {
    type V = Seq<char>;

    open spec fn view(&self) -> Seq<char> {
        self.0@
    }
}

/// A part of a path that names something: not empty and not `.`.
pub open spec fn names_something(part: Seq<char>) -> bool {
    part.len() > 0 && part != seq!['.']
}

/// Two relative paths, one below the other.
pub open spec fn joined(a: Seq<char>, b: Seq<char>) -> Seq<char> {
    if a.len() > 0 && b.len() > 0 {
        a + seq!['/'] + b
    } else {
        a + b
    }
}

/// A relative path in its plain form: its parts that name something, with
/// one `/` between them.
pub open spec fn plain_path(s: Seq<char>) -> Seq<char>
    decreases s.len(),
{
    let part = before_first(s, '/');
    let rest = match after_first(s, '/') {
        Some(r) => plain_path(r),
        None => Seq::empty(),
    };
    if names_something(part) {
        joined(part, rest)
    } else {
        rest
    }
}

/// The path to which a path from before the migration is moved: a path whose
/// first part is `files` loses that part and is put into its plain form; any
/// other path has no counterpart.
pub open spec fn normalized_for_migration(s: Seq<char>) -> Option<Seq<char>> {
    if before_first(s, '/') == "files"@ {
        Some(
            match after_first(s, '/') {
                Some(r) => plain_path(r),
                None => Seq::empty(),
            },
        )
    } else {
        None
    }
}

/// Putting one path below two others does not depend on the grouping.
proof fn lemma_joined_assoc(a: Seq<char>, b: Seq<char>, c: Seq<char>)
    ensures
        joined(joined(a, b), c) == joined(a, joined(b, c)),
{
    assert(joined(joined(a, b), c) =~= joined(a, joined(b, c)));
}

impl FileId {
    /// The path as text.
    pub fn string_repr(&self) -> (r: String)
        ensures
            r@ == self@,
    {
        self.0.clone()
    }

    /// The path to which this path from before the migration is moved.
    pub fn normalize_for_migration(&self) -> (r: Option<Self>)
        ensures
            match r {
                Some(id) => normalized_for_migration(self@) == Some(id@),
                None => normalized_for_migration(self@) is None,
            },
    {
        let cs = chars_of(self.0.as_str());
        let (first, tail) = split_once(cs.as_slice(), '/');
        if !chars_are(first, "files") {
            return None;
        }
        let mut out: Vec<char> = Vec::new();
        let mut rest: &[char] = match tail {
            Some(r) => r,
            None => {
                return Some(FileId(String::new()));
            },
        };
        let ghost goal = plain_path(rest@);
        let mut more = true;
        while more
            invariant
                more ==> goal == joined(out@, plain_path(rest@)),
                !more ==> goal == out@,
            decreases
                    if more {
                        rest@.len() + 1
                    } else {
                        0
                    },
        {
            proof {
                lemma_first_char_index(rest@, '/');
            }
            let ghost before = out@;
            let (part, next) = split_once(rest, '/');
            let single = part.len() == 1 && part[0] == '.';
            assert(single == (part@ == seq!['.'])) by {
                if single {
                    assert(part@ =~= seq!['.']);
                }
            }
            if part.len() > 0 && !single {
                if out.len() > 0 {
                    out.push('/');
                }
                out.extend_from_slice(part);
                assert(out@ =~= joined(before, part@));
            }
            proof {
                let tail_plain = match after_first(rest@, '/') {
                    Some(r) => plain_path(r),
                    None => Seq::empty(),
                };
                if names_something(part@) {
                    lemma_joined_assoc(before, part@, tail_plain);
                }
                assert(joined(out@, Seq::<char>::empty()) =~= out@);
            }
            match next {
                Some(r) => {
                    rest = r;
                },
                None => {
                    more = false;
                },
            }
        }
        Some(FileId(string_of(out.as_slice())))
    }
}

impl Identifier for FileId {
    open spec fn encoding(v: Seq<char>) -> Seq<u8> {
        encode_utf8(v)
    }

    open spec fn decoding(bytes: Seq<u8>) -> Option<Seq<char>> {
        if valid_utf8(bytes) {
            Some(decode_utf8(bytes))
        } else {
            None
        }
    }

    proof fn lemma_round_trip(v: Seq<char>) {
        broadcast use vstd::utf8::group_utf8_lib;

    }

    fn to_bytes(&self) -> (r: Vec<u8>) {
        self.0.as_str().as_bytes_vec()
    }

    fn from_bytes(bytes: Vec<u8>) -> (r: Result<Self, FileError>) {
        match str_from_utf8(bytes.as_slice()) {
            Some(s) => Ok(FileId(s.to_owned())),
            None => Err(FileError::IdError),
        }
    }
}

} // verus!
