//! The file store: where below its root each blob lies, and which
//! directories are given up when a blob is removed.

use vstd::prelude::*;
use vstd::slice::slice_subrange;
use vstd::string::*;
use crate::error::FileError;
use crate::ident::{is_uuid_text, random_uuid_text};
use crate::scan::{chars_eq, chars_of};
use crate::store::file_id::FileId;
use crate::store::path_gen::{
    can_advance, cursor_before, cursor_bytes, cursor_of_bytes, names_cursor, next_cursor,
    spells_cursor, valid_cursor, PathGen,
};
use crate::text::string_of;

verus! {

/// The path `b` as seen from the directory `a`: `b` itself where it starts
/// at the root of the filesystem or `a` is empty, and `b` below `a`
/// otherwise.
pub open spec fn path_join(a: Seq<char>, b: Seq<char>) -> Seq<char> {
    if b.len() > 0 && b[0] == '/' {
        b
    } else if a.len() == 0 {
        b
    } else if a.last() == '/' {
        a + b
    } else {
        a + seq!['/'] + b
    }
}

/// The directory reached from `root` through the directories `names`.
pub open spec fn path_through(root: Seq<char>, names: Seq<String>) -> Seq<char>
    decreases names.len(),
{
    if names.len() == 0 {
        root
    } else {
        path_join(path_through(root, names.drop_last()), names.last()@)
    }
}

/// What is left of `path` when the directory `root` is taken off its front,
/// if `path` lies in `root`.
pub open spec fn strip_root(root: Seq<char>, path: Seq<char>) -> Option<Seq<char>> {
    if root.len() == 0 {
        Some(path)
    } else if path == root {
        Some(Seq::empty())
    } else if path.len() > root.len() && path.subrange(0, root.len() as int) == root {
        if root.last() == '/' {
            Some(path.skip(root.len() as int))
        } else if path[root.len() as int] == '/' {
            Some(path.skip(root.len() as int + 1))
        } else {
            None
        }
    } else {
        None
    }
}

/// Taking the root off the path of a blob gives the path of the blob below
/// the root.
pub proof fn lemma_strip_root_of_join(root: Seq<char>, id: Seq<char>)
    requires
        id.len() == 0 || id[0] != '/',
    ensures
        strip_root(root, path_join(root, id)) == Some(id),
{
    let path = path_join(root, id);
    if root.len() > 0 {
        if root.last() == '/' {
            if id.len() > 0 {
                assert(path.subrange(0, root.len() as int) =~= root);
                assert(path.skip(root.len() as int) =~= id);
            } else {
                assert(path =~= root);
            }
        } else {
            assert(path.subrange(0, root.len() as int) =~= root);
            assert(path[root.len() as int] == '/');
            assert(path.skip(root.len() as int + 1) =~= id);
        }
    }
}

/// Index of the last `/` in `s`, or -1 when there is none.
pub open spec fn last_slash(s: Seq<char>) -> int
    decreases s.len(),
{
    if s.len() == 0 {
        -1
    } else if s.last() == '/' {
        s.len() - 1
    } else {
        last_slash(s.drop_last())
    }
}

/// The directory in which `path` lies: what stands before its last `/`, the
/// root of the filesystem for a path directly below it, and the empty path
/// for a single name. The empty path and the root lie in nothing.
pub open spec fn parent_of(path: Seq<char>) -> Option<Seq<char>> {
    let i = last_slash(path);
    if path.len() == 0 || path == seq!['/'] {
        None
    } else if i < 0 {
        Some(Seq::empty())
    } else if i == 0 {
        Some(seq!['/'])
    } else {
        Some(path.subrange(0, i))
    }
}

/// Whether `dir` lies in `root` and is not `root` itself.
pub open spec fn strictly_below(root: Seq<char>, dir: Seq<char>) -> bool {
    strip_root(root, dir) matches Some(rest) && rest.len() > 0
}

/// The directories that are given up after the blob at `path` has been
/// removed, innermost first: the directories in which the blob lay, as far
/// as they lie in the root of the store and are not the root itself. For a
/// path that does not lie in the root there are none.
pub open spec fn parents_below(root: Seq<char>, path: Seq<char>) -> Seq<Seq<char>>
    decreases path.len(),
{
    match parent_of(path) {
        Some(parent) => if strictly_below(root, parent) && parent.len() < path.len() {
            seq![parent] + parents_below(root, parent)
        } else {
            Seq::empty()
        },
        None => Seq::empty(),
    }
}

/// Every directory that is given up lies in the root of the store and is not
/// the root itself.
pub proof fn lemma_parents_lie_below_root(root: Seq<char>, path: Seq<char>)
    ensures
        forall|i: int|
            0 <= i < parents_below(root, path).len() ==> strictly_below(
                root,
                #[trigger] parents_below(root, path)[i],
            ),
    decreases path.len(),
{
    match parent_of(path) {
        Some(parent) => {
            if strictly_below(root, parent) && parent.len() < path.len() {
                lemma_parents_lie_below_root(root, parent);
                let rest = parents_below(root, parent);
                let all = parents_below(root, path);
                assert forall|i: int| 0 <= i < all.len() implies strictly_below(
                    root,
                    #[trigger] all[i],
                ) by {
                    if i > 0 {
                        assert(all[i] == rest[i - 1]);
                    }
                }
            }
        },
        None => {},
    }
}

/// The last slash is in range and is a slash, and no slash follows it.
proof fn lemma_last_slash(s: Seq<char>)
    ensures
        -1 <= last_slash(s) < s.len(),
        last_slash(s) >= 0 ==> s[last_slash(s)] == '/',
        forall|k: int| last_slash(s) < k < s.len() ==> s[k] != '/',
    decreases s.len(),
{
    if s.len() > 0 && s.last() != '/' {
        lemma_last_slash(s.drop_last());
        assert forall|k: int| last_slash(s) < k < s.len() implies s[k] != '/' by {
            if k < s.len() - 1 {
                assert(s.drop_last()[k] == s[k]);
            }
        }
    }
}

/// A position that holds a slash with none behind it is the last slash.
proof fn lemma_last_slash_unique(s: Seq<char>, i: int)
    requires
        -1 <= i < s.len(),
        i >= 0 ==> s[i] == '/',
        forall|k: int| i < k < s.len() ==> s[k] != '/',
    ensures
        last_slash(s) == i,
{
    lemma_last_slash(s);
    let j = last_slash(s);
    if j > i {
        assert(s[j] == '/');
    }
    if j < i {
        assert(s[i] == '/');
    }
}

/// The directory in which `path` lies.
fn parent(path: &[char]) -> (r: Option<&[char]>)
    ensures
        match r {
            Some(p) => parent_of(path@) == Some(p@) && p@.len() <= path@.len(),
            None => parent_of(path@) is None,
        },
{
    if path.len() == 0 || (path.len() == 1 && path[0] == '/') {
        assert(path@.len() == 1 && path@[0] == '/' ==> path@ =~= seq!['/']);
        return None;
    }
    assert(path@ != seq!['/']) by {
        if path@ == seq!['/'] {
            assert(path@.len() == 1);
            assert(path@[0] == '/');
        }
    }
    let mut i: usize = path.len();
    while i > 0 && path[i - 1] != '/'
        invariant
            i <= path@.len(),
            forall|k: int| i <= k < path@.len() ==> path@[k] != '/',
        decreases i,
    {
        i -= 1;
    }
    proof {
        lemma_last_slash_unique(path@, i - 1);
    }
    if i == 0 {
        Some(slice_subrange(path, 0, 0))
    } else if i == 1 {
        let p = slice_subrange(path, 0, 1);
        assert(p@ =~= seq!['/']);
        Some(p)
    } else {
        Some(slice_subrange(path, 0, i - 1))
    }
}

/// What is left of `path` when the directory `root` is taken off its front.
fn strip<'a>(root: &[char], path: &'a [char]) -> (r: Option<&'a [char]>)
    ensures
        match r {
            Some(rest) => strip_root(root@, path@) == Some(rest@),
            None => strip_root(root@, path@) is None,
        },
{
    if root.len() == 0 {
        let rest = slice_subrange(path, 0, path.len());
        assert(rest@ =~= path@);
        return Some(rest);
    }
    if chars_eq(path, root) {
        return Some(slice_subrange(path, 0, 0));
    }
    if path.len() <= root.len() || !chars_eq(slice_subrange(path, 0, root.len()), root) {
        return None;
    }
    let start = if root[root.len() - 1] == '/' {
        root.len()
    } else if path[root.len()] == '/' {
        root.len() + 1
    } else {
        return None;
    };
    Some(slice_subrange(path, start, path.len()))
}

/// Appends `b` to `a` as `path_join` says.
fn push_path(a: &mut Vec<char>, b: &[char])
    ensures
        final(a)@ == path_join(old(a)@, b@),
{
    if b.len() > 0 && b[0] == '/' {
        a.clear();
    } else if a.len() > 0 && a[a.len() - 1] != '/' {
        a.push('/');
    }
    let ghost before = a@;
    a.extend_from_slice(b);
    assert(a@ =~= before + b@);
}

/// A name for a temporary file: the text of a fresh random UUID, followed by
/// the extension that is asked for or by `.tmp`.
pub fn tmp_file_name(extension: Option<&str>) -> (r: String)
    ensures
        exists|id: Seq<char>| is_uuid_text(id) && r@ == id + match extension {
            Some(e) => e@,
            None => ".tmp"@,
        },
{
    let id = random_uuid_text();
    let ghost text = id@;
    let r = match extension {
        Some(e) => id.concat(e),
        None => id.concat(".tmp"),
    };
    assert(is_uuid_text(text) && r@ == text + match extension {
        Some(e) => e@,
        None => ".tmp"@,
    });
    r
}

/// A store of blobs in files below a root directory.
pub struct FileStore {
    path_gen: PathGen,
    root_dir: String,
}

impl FileStore {
    /// The root directory.
    pub closed spec fn root(&self) -> Seq<char> {
        self.root_dir@
    }

    /// The cursor of the path generator.
    pub closed spec fn cursor(&self) -> Seq<u16> {
        self.path_gen@
    }

    /// The store below `root_dir` whose path generator goes on from the
    /// cursor found among the settings, or starts afresh where none was
    /// found. A cursor that is malformed is refused.
    pub fn build(root_dir: String, cursor: Option<Vec<u8>>) -> (r: Result<Self, FileError>)
        ensures
            r is Ok <==> (cursor matches Some(b) ==> spells_cursor(b@)),
            r matches Ok(store) ==> store.root() == root_dir@ && store.cursor() == match cursor {
                Some(b) => cursor_of_bytes(b@),
                None => Seq::empty(),
            },
            r matches Err(e) ==> e == FileError::PathGenerator,
    {
        let path_gen = match cursor {
            Some(bytes) => match PathGen::from_be_bytes(bytes) {
                Ok(g) => g,
                Err(e) => {
                    return Err(e);
                },
            },
            None => PathGen::new(),
        };
        Ok(FileStore { path_gen, root_dir })
    }

    /// The next directory for a new blob, with the bytes of the cursor that
    /// are to be written to the settings before the directory is used. The
    /// directory lies below the root and differs from every directory
    /// handed out before.
    pub fn next_directory(&mut self) -> (r: Option<(Vec<u8>, String)>)
        ensures
            final(self).root() == old(self).root(),
            can_advance(old(self).cursor()) ==> r is Some,
            r matches Some((bytes, dir)) ==> {
                &&& final(self).cursor() == next_cursor(old(self).cursor())
                &&& cursor_before(old(self).cursor(), final(self).cursor())
                &&& bytes@ == cursor_bytes(final(self).cursor())
                &&& exists|names: Seq<String>|
                    names_cursor(names, final(self).cursor()) && dir@ == path_through(
                        old(self).root(),
                        names,
                    )
            },
            r is None ==> final(self).cursor() == old(self).cursor(),
    {
        let (bytes, names) = match self.path_gen.next() {
            Some(p) => p,
            None => {
                return None;
            },
        };
        let mut target = chars_of(self.root_dir.as_str());
        let mut i: usize = 0;
        while i < names.len()
            invariant
                i <= names@.len(),
                target@ == path_through(self.root_dir@, names@.take(i as int)),
            decreases names@.len() - i,
        {
            let part = chars_of(names[i].as_str());
            push_path(&mut target, part.as_slice());
            proof {
                assert(names@.take(i + 1).drop_last() =~= names@.take(i as int));
                assert(names@.take(i + 1).last() == names@[i as int]);
            }
            i += 1;
        }
        assert(names@.take(names@.len() as int) =~= names@);
        Some((bytes, string_of(target.as_slice())))
    }

    /// The path of a new blob in the next directory. The blob is named by
    /// the text of a freshly drawn random UUID.
    pub fn next_file(&mut self) -> (r: Option<(Vec<u8>, String)>)
        ensures
            final(self).root() == old(self).root(),
            can_advance(old(self).cursor()) ==> r is Some,
            r matches Some((bytes, path)) ==> {
                &&& final(self).cursor() == next_cursor(old(self).cursor())
                &&& cursor_before(old(self).cursor(), final(self).cursor())
                &&& bytes@ == cursor_bytes(final(self).cursor())
                &&& exists|names: Seq<String>, filename: Seq<char>|
                    names_cursor(names, final(self).cursor()) && is_uuid_text(filename) && path@
                        == path_join(path_through(old(self).root(), names), filename)
            },
            r is None ==> final(self).cursor() == old(self).cursor(),
    {
        match self.next_directory() {
            Some((bytes, dir)) => {
                let filename = random_uuid_text();
                let mut path = chars_of(dir.as_str());
                let name = chars_of(filename.as_str());
                push_path(&mut path, name.as_slice());
                Some((bytes, string_of(path.as_slice())))
            },
            None => None,
        }
    }

    /// The locator of the blob at `path`, which must lie below the root.
    pub fn file_id_from_path(&self, path: &str) -> (r: Result<FileId, FileError>)
        ensures
            match strip_root(self.root(), path@) {
                Some(id) => r matches Ok(f) && f@ == id,
                None => r == Err::<FileId, FileError>(FileError::PrefixError),
            },
    {
        let root = chars_of(self.root_dir.as_str());
        let p = chars_of(path);
        match strip(root.as_slice(), p.as_slice()) {
            Some(rest) => Ok(FileId(string_of(rest))),
            None => Err(FileError::PrefixError),
        }
    }

    /// The path of the blob with the locator `file_id`.
    pub fn path_from_file_id(&self, file_id: &FileId) -> (r: String)
        ensures
            r@ == path_join(self.root(), file_id@),
    {
        let mut path = chars_of(self.root_dir.as_str());
        let id = chars_of(file_id.0.as_str());
        push_path(&mut path, id.as_slice());
        string_of(path.as_slice())
    }

    /// The directories to give up after the blob at `path` has been removed,
    /// innermost first. The caller removes them in this order and stops at
    /// the first that cannot be removed. Each of them lies in the root of the
    /// store and none is the root: the root stays, however it is written.
    pub fn parents_to_remove(&self, path: &str) -> (r: Vec<String>)
        ensures
            r@.len() == parents_below(self.root(), path@).len(),
            forall|i: int|
                0 <= i < r@.len() ==> (#[trigger] r@[i])@ == parents_below(self.root(), path@)[i],
            forall|i: int| 0 <= i < r@.len() ==> strictly_below(self.root(), (#[trigger] r@[i])@),
    {
        let root = chars_of(self.root_dir.as_str());
        let start = chars_of(path);
        let mut out: Vec<String> = Vec::new();
        let mut current: &[char] = start.as_slice();
        let ghost goal = parents_below(self.root(), path@);
        let ghost mut done: Seq<Seq<char>> = Seq::empty();
        let mut more = true;
        while more
            invariant
                root@ == self.root(),
                more ==> goal == done + parents_below(root@, current@),
                !more ==> goal == done,
                out@.len() == done.len(),
                forall|i: int| 0 <= i < out@.len() ==> (#[trigger] out@[i])@ == done[i],
            decreases
                    if more {
                        current@.len() + 1
                    } else {
                        0
                    },
        {
            let next = match parent(current) {
                Some(p) => match strip(root.as_slice(), p) {
                    Some(rest) => if rest.len() > 0 && p.len() < current.len() {
                        Some(p)
                    } else {
                        None
                    },
                    None => None,
                },
                None => None,
            };
            match next {
                Some(p) => {
                    out.push(string_of(p));
                    proof {
                        assert(done + (seq![p@] + parents_below(root@, p@)) =~= done.push(p@)
                            + parents_below(root@, p@));
                        done = done.push(p@);
                    }
                    current = p;
                },
                None => {
                    more = false;
                    assert(done + Seq::<Seq<char>>::empty() =~= done);
                },
            }
        }
        proof {
            lemma_parents_lie_below_root(self.root(), path@);
        }
        out
    }
}

/// The part of a blob of `total` bytes that is read when the read starts
/// `from_start` bytes into the blob and is to yield at most `len` bytes:
/// where it starts and where it ends. A read that starts behind the end
/// yields nothing, and no read goes past the end.
pub open spec fn range_of(from_start: Option<u64>, len: Option<u64>, total: u64) -> (u64, u64) {
    let start = match from_start {
        Some(s) => if s < total {
            s
        } else {
            total
        },
        None => 0,
    };
    let end = match len {
        Some(n) => if start + n < total {
            (start + n) as u64
        } else {
            total
        },
        None => total,
    };
    (start, end)
}

/// The part of a blob of `total` bytes that a read yields.
pub fn stream_range(from_start: Option<u64>, len: Option<u64>, total: u64) -> (r: (u64, u64))
    ensures
        r == range_of(from_start, len, total),
        r.0 <= r.1 <= total,
{
    let start = match from_start {
        Some(s) => if s < total {
            s
        } else {
            total
        },
        None => 0,
    };
    let end = match len {
        Some(n) => match start.checked_add(n) {
            Some(e) => if e < total {
                e
            } else {
                total
            },
            None => total,
        },
        None => total,
    };
    (start, end)
}

/// Whether a file may be written, from what a look at its path found.
#[derive(Clone, Copy, Debug, PartialEq, Eq, Structural)]
pub enum Found {
    /// Nothing is there.
    Nothing,
    /// Something is there.
    Something,
    /// The look itself failed.
    Failure,
}

/// What to do with a blob after the look at its path.
#[derive(Clone, Copy, Debug, PartialEq, Eq, Structural)]
pub enum WriteDecision {
    /// Write the blob.
    Write,
    /// Fail because a file is there.
    FailExists,
    /// Fail with the error of the look.
    FailIo,
}

/// Decides whether a blob is written, be it from a stream or from a buffer.
/// A blob is written only where nothing is there. A file that is there is
/// never written over and never taken for the blob: the save fails.
pub fn write_decision(found: Found) -> (r: WriteDecision)
    ensures
        r == match found {
            Found::Nothing => WriteDecision::Write,
            Found::Something => WriteDecision::FailExists,
            Found::Failure => WriteDecision::FailIo,
        },
{
    match found {
        Found::Nothing => WriteDecision::Write,
        Found::Something => WriteDecision::FailExists,
        Found::Failure => WriteDecision::FailIo,
    }
}

/// The outcome of a save, from what the look at the path found and from how
/// the write went, where there was one. A collision and a failed look are
/// errors; after a write that failed the partly written blob is to be
/// removed before the error is handed on.
#[derive(Clone, Copy, Debug, PartialEq, Eq, Structural)]
pub enum SaveOutcome {
    /// The blob is stored.
    Saved,
    /// The save fails because a file is there; nothing was written.
    Exists,
    /// The save fails with the error of the look; nothing was written.
    LookFailed,
    /// The save fails with the error of the write; what was written is to be
    /// removed.
    RemoveAndFail,
}

/// Decides how a save ends. `written` says how the write went and counts
/// only where the blob was to be written.
pub fn save_outcome(found: Found, written: bool) -> (r: SaveOutcome)
    ensures
        r == match found {
            Found::Nothing => if written {
                SaveOutcome::Saved
            } else {
                SaveOutcome::RemoveAndFail
            },
            Found::Something => SaveOutcome::Exists,
            Found::Failure => SaveOutcome::LookFailed,
        },
        r == SaveOutcome::Saved <==> found == Found::Nothing && written,
{
    match write_decision(found) {
        WriteDecision::Write => if written {
            SaveOutcome::Saved
        } else {
            SaveOutcome::RemoveAndFail
        },
        WriteDecision::FailExists => SaveOutcome::Exists,
        WriteDecision::FailIo => SaveOutcome::LookFailed,
    }
}

} // verus!
