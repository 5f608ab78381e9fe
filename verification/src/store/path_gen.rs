//! The generator of directory paths for new blobs. Its cursor is a counter
//! that is written to the settings whenever a path is handed out, so that a
//! restart goes on where the last run stopped.

use vstd::prelude::*;
use crate::error::FileError;
use crate::scan::digit_char;

verus! {

/// The largest value of one position of a cursor.
pub const MAX_SEGMENT: u16 = 999;

/// A cursor as `Path::from_vec` accepts it: empty, or with the depth
/// in its first position (one less than the number of positions) and every
/// position at most 999.
pub open spec fn valid_cursor(c: Seq<u16>) -> bool {
    c.len() == 0 || (c.len() - 1 == c[0] && forall|i: int|
        0 <= i < c.len() ==> #[trigger] c[i] <= MAX_SEGMENT)
}

/// Counting up from position `i` towards the front: the first position
/// below 999 is raised by one and where that happened is reported, and every
/// position passed on the way is set back to zero. Where no position is
/// below 999, position zero is reported.
pub open spec fn count_up(c: Seq<u16>, i: int) -> (Seq<u16>, int)
    decreases i + 1,
{
    if i < 0 || i >= c.len() {
        (c, 0)
    } else if c[i] < MAX_SEGMENT {
        (c.update(i, (c[i] + 1) as u16), i)
    } else {
        count_up(c.update(i, 0), i - 1)
    }
}

/// The cursor that follows `c`: counted up from its last position, and one
/// level deeper whenever the count reached the first position.
pub open spec fn next_cursor(c: Seq<u16>) -> Seq<u16> {
    let (counted, at) = count_up(c, c.len() - 1);
    if at == 0 {
        counted.push(0)
    } else {
        counted
    }
}

/// The two bytes of each position, high byte first.
pub open spec fn cursor_bytes(c: Seq<u16>) -> Seq<u8> {
    Seq::new(
        2 * c.len(),
        |i: int|
            if i % 2 == 0 {
                (c[i / 2] / 256) as u8
            } else {
                (c[i / 2] % 256) as u8
            },
    )
}

/// The positions that a byte string spells, two bytes each, high byte first.
pub open spec fn cursor_of_bytes(b: Seq<u8>) -> Seq<u16> {
    Seq::new(b.len() / 2, |i: int| (b[2 * i] * 256 + b[2 * i + 1]) as u16)
}

/// Bytes that spell a valid cursor: an even number of them, whose positions
/// form one.
pub open spec fn spells_cursor(b: Seq<u8>) -> bool {
    b.len() % 2 == 0 && valid_cursor(cursor_of_bytes(b))
}

/// The name of the directory for one position: its value in three decimal
/// digits.
pub open spec fn segment_name(n: u16) -> Seq<char> {
    seq![digit_char(n as int / 100), digit_char(n as int / 10 % 10), digit_char(n as int % 10)]
}

/// `names` are the directory names of the positions of `c`.
pub open spec fn names_cursor(names: Seq<String>, c: Seq<u16>) -> bool {
    names.len() == c.len() && forall|i: int|
        0 <= i < c.len() ==> (#[trigger] names[i])@ == segment_name(c[i])
}

/// `Path::from_be_bytes` and `Path::into_inner`: the positions that the
/// bytes spell, where their number is even and the positions form a valid
/// cursor.
#[verifier::external_body]
fn path_from_be_bytes(bytes: Vec<u8>) -> (r: Option<Vec<u16>>)
    ensures
        match r {
            Some(c) => spells_cursor(bytes@) && c@ == cursor_of_bytes(bytes@),
            None => !spells_cursor(bytes@),
        },
{
    match storage_path_generator::Path::from_be_bytes(bytes) {
        Ok(path) => Some(path.into_inner()),
        Err(_) => None,
    }
}

/// `Path::from_vec`, `Generator::from_existing`, `Generator::next` and
/// `Path::into_inner`: the cursor that follows a valid cursor.
#[verifier::external_body]
fn generator_next(cursor: Vec<u16>) -> (r: Option<Vec<u16>>)
    ensures
        match r {
            Some(c) => valid_cursor(cursor@) && c@ == next_cursor(cursor@),
            None => !valid_cursor(cursor@),
        },
{
    match storage_path_generator::Path::from_vec(cursor) {
        Ok(path) => Some(storage_path_generator::Generator::from_existing(path).next().into_inner()),
        Err(_) => None,
    }
}

/// `Path::from_vec` and `Path::to_be_bytes`: the bytes of a valid cursor.
#[verifier::external_body]
fn path_to_be_bytes(cursor: Vec<u16>) -> (r: Option<Vec<u8>>)
    ensures
        match r {
            Some(b) => valid_cursor(cursor@) && b@ == cursor_bytes(cursor@),
            None => !valid_cursor(cursor@),
        },
{
    match storage_path_generator::Path::from_vec(cursor) {
        Ok(path) => Some(path.to_be_bytes()),
        Err(_) => None,
    }
}

/// `Path::from_vec` and `Path::to_strings`: the directory names of a valid
/// cursor.
#[verifier::external_body]
fn path_to_strings(cursor: Vec<u16>) -> (r: Option<Vec<String>>)
    ensures
        match r {
            Some(names) => valid_cursor(cursor@) && names_cursor(names@, cursor@),
            None => !valid_cursor(cursor@),
        },
{
    match storage_path_generator::Path::from_vec(cursor) {
        Ok(path) => Some(path.to_strings()),
        Err(_) => None,
    }
}

/// Counting up keeps the length, keeps every position within bounds, leaves
/// the positions before the reported one alone, and raises the reported
/// position unless every position was at its maximum.
proof fn lemma_count_up(c: Seq<u16>, i: int)
    requires
        -1 <= i < c.len(),
        forall|k: int| 0 <= k < c.len() ==> #[trigger] c[k] <= MAX_SEGMENT,
    ensures
        ({
            let (d, at) = count_up(c, i);
            &&& d.len() == c.len()
            &&& 0 <= at <= i || (at == 0 && i == -1)
            &&& forall|k: int| 0 <= k < d.len() ==> #[trigger] d[k] <= MAX_SEGMENT
            &&& forall|k: int| 0 <= k < at ==> d[k] == c[k]
            &&& forall|k: int| i < k < c.len() ==> d[k] == c[k]
            &&& (exists|k: int| 0 <= k <= i && c[k] < MAX_SEGMENT) ==> c[at] < MAX_SEGMENT && d[at]
                == c[at] + 1
            &&& (forall|k: int| 0 <= k <= i ==> c[k] == MAX_SEGMENT) ==> at == 0 && forall|k: int|
                0 <= k <= i ==> d[k] == 0
        }),
    decreases i + 1,
{
    if i >= 0 && c[i] >= MAX_SEGMENT {
        let e = c.update(i, 0);
        lemma_count_up(e, i - 1);
        let (d, at) = count_up(e, i - 1);
        if exists|k: int| 0 <= k <= i && c[k] < MAX_SEGMENT {
            let k = choose|k: int| 0 <= k <= i && c[k] < MAX_SEGMENT;
            assert(e[k] == c[k]);
            assert(e[at] == c[at]);
        }
        if forall|k: int| 0 <= k <= i ==> c[k] == MAX_SEGMENT {
            assert forall|k: int| 0 <= k <= i - 1 implies e[k] == MAX_SEGMENT by {
                assert(e[k] == c[k]);
            }
        }
    }
}

/// One cursor comes before another: it is shorter, or of the same length
/// and smaller at the first position where the two differ.
pub open spec fn cursor_before(a: Seq<u16>, b: Seq<u16>) -> bool {
    a.len() < b.len() || (a.len() == b.len() && exists|i: int|
        0 <= i < a.len() && a[i] < b[i] && forall|k: int| 0 <= k < i ==> a[k] == b[k])
}

/// A cursor that has not run through all its values at the greatest depth.
pub open spec fn can_advance(c: Seq<u16>) -> bool {
    c.len() <= MAX_SEGMENT || exists|k: int| 0 <= k < c.len() && c[k] < MAX_SEGMENT
}

/// The cursor that follows a valid cursor is valid and comes after it, so
/// that no path is handed out twice.
pub proof fn lemma_next_cursor_advances(c: Seq<u16>)
    requires
        valid_cursor(c),
        can_advance(c),
    ensures
        valid_cursor(next_cursor(c)),
        cursor_before(c, next_cursor(c)),
{
    if c.len() == 0 {
        assert(next_cursor(c) =~= seq![0u16]);
    } else {
        lemma_count_up(c, c.len() - 1);
        let (d, at) = count_up(c, c.len() - 1);
        assert(exists|k: int| 0 <= k <= c.len() - 1 && c[k] < MAX_SEGMENT) by {
            if c.len() <= MAX_SEGMENT {
                assert(c[0] < MAX_SEGMENT);
            } else {
                let k = choose|k: int| 0 <= k < c.len() && c[k] < MAX_SEGMENT;
                assert(0 <= k <= c.len() - 1 && c[k] < MAX_SEGMENT);
            }
        }
        if at == 0 {
            let n = d.push(0);
            assert(n[0] == d[0]);
            assert forall|i: int| 0 <= i < n.len() implies #[trigger] n[i] <= MAX_SEGMENT by {
                if i < d.len() {
                    assert(n[i] == d[i]);
                }
            }
        } else {
            assert(d[0] == c[0]);
            assert(c[at] < d[at]);
        }
    }
}

/// Coming before is transitive: a path handed out later comes after every
/// path handed out earlier.
pub proof fn lemma_cursor_before_transitive(a: Seq<u16>, b: Seq<u16>, c: Seq<u16>)
    requires
        cursor_before(a, b),
        cursor_before(b, c),
    ensures
        cursor_before(a, c),
        a != c,
{
    if a.len() == b.len() && b.len() == c.len() {
        let i = choose|i: int|
            0 <= i < a.len() && a[i] < b[i] && forall|k: int| 0 <= k < i ==> a[k] == b[k];
        let j = choose|j: int|
            0 <= j < b.len() && b[j] < c[j] && forall|k: int| 0 <= k < j ==> b[k] == c[k];
        let m = if i < j {
            i
        } else {
            j
        };
        assert(a[m] < c[m]);
        assert(forall|k: int| 0 <= k < m ==> a[k] == c[k]);
    }
}

/// The generator of directory paths.
pub struct PathGen {
    cursor: Vec<u16>,
}

impl View for PathGen {
    type V = Seq<u16>;

    closed spec fn view(&self) -> Seq<u16> {
        self.cursor@
    }
}

impl PathGen {
    #[verifier::type_invariant]
    spec fn inv(&self) -> bool {
        valid_cursor(self.cursor@)
    }

    /// A generator that has handed out nothing.
    pub fn new() -> (r: Self)
        ensures
            r@ == Seq::<u16>::empty(),
    {
        PathGen { cursor: Vec::new() }
    }

    /// The generator that goes on from the cursor that `bytes` spell. Bytes
    /// of odd number, or that spell no valid cursor, are refused.
    pub fn from_be_bytes(bytes: Vec<u8>) -> (r: Result<Self, FileError>)
        ensures
            r is Ok <==> spells_cursor(bytes@),
            r matches Ok(g) ==> g@ == cursor_of_bytes(bytes@),
            r matches Err(e) ==> e == FileError::PathGenerator,
    {
        match path_from_be_bytes(bytes) {
            Some(cursor) => Ok(PathGen { cursor }),
            None => Err(FileError::PathGenerator),
        }
    }

    /// Moves on to the next cursor and hands back its bytes, which are to be
    /// written to the settings, and the names of its directories, outermost
    /// first. A generator that has run through all its values hands out
    /// nothing and stays where it is.
    pub fn next(&mut self) -> (r: Option<(Vec<u8>, Vec<String>)>)
        ensures
            valid_cursor(old(self)@),
            r is Some <==> valid_cursor(next_cursor(old(self)@)),
            can_advance(old(self)@) ==> r is Some,
            r matches Some((bytes, names)) ==> {
                &&& final(self)@ == next_cursor(old(self)@)
                &&& cursor_before(old(self)@, final(self)@)
                &&& bytes@ == cursor_bytes(final(self)@)
                &&& names_cursor(names@, final(self)@)
            },
            r is None ==> final(self)@ == old(self)@,
    {
        proof {
            use_type_invariant(&*self);
            if can_advance(self@) {
                lemma_next_cursor_advances(self@);
            }
        }
        let next = match generator_next(self.cursor.clone()) {
            Some(n) => n,
            None => {
                return None;
            },
        };
        let bytes = match path_to_be_bytes(next.clone()) {
            Some(b) => b,
            None => {
                return None;
            },
        };
        let names = match path_to_strings(next.clone()) {
            Some(n) => n,
            None => {
                return None;
            },
        };
        proof {
            lemma_next_after_valid(old(self)@);
        }
        self.cursor = next;
        Some((bytes, names))
    }

    /// The bytes of the cursor, as they are written to the settings.
    pub fn to_be_bytes(&self) -> (r: Vec<u8>)
        ensures
            r@ == cursor_bytes(self@),
    {
        proof {
            use_type_invariant(self);
        }
        match path_to_be_bytes(self.cursor.clone()) {
            Some(b) => b,
            None => Vec::new(),
        }
    }
}

/// Where the cursor that follows a valid cursor is valid too, it comes after
/// the cursor it follows.
proof fn lemma_next_after_valid(c: Seq<u16>)
    requires
        valid_cursor(c),
        valid_cursor(next_cursor(c)),
    ensures
        cursor_before(c, next_cursor(c)),
{
    if can_advance(c) {
        lemma_next_cursor_advances(c);
    } else {
        lemma_count_up(c, c.len() - 1);
        let (d, at) = count_up(c, c.len() - 1);
        assert(forall|k: int| 0 <= k <= c.len() - 1 ==> c[k] == MAX_SEGMENT);
        let n = next_cursor(c);
        assert(n[0] == d[0]);
        assert(n.len() == c.len() + 1);
        assert(false);
    }
}

} // verus!
