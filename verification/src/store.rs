//! The file store: scoped paths under a root directory, the store's
//! semantics over an in-memory image, and the chunking of file contents
//! into fixed-size pieces for transfer.
//!
//! Paths are root-relative, POSIX style; any path with a `..` component
//! is refused. A chunk holds [`crate::CHUNK_SIZE`] bytes except the last
//! chunk of a file, which may be shorter; an empty file has no chunks.

use vstd::prelude::*;
use vstd::string::StrSliceExecFns;
use crate::chars::str_eq;
use crate::ids::{sha_hex_of, sha256_hex};
use crate::CHUNK_SIZE;

verus! {

/// Why a store operation was refused.
#[derive(Debug, Clone, Copy, PartialEq, Eq, Structural)]
pub enum StoreError {
    /// The relative path would escape the root directory.
    PathEscape,
    /// The file does not exist; a create must precede writes and reads.
    NotFound,
}

/// What creating a file did.
#[derive(Debug, Clone, Copy, PartialEq, Eq, Structural)]
pub enum CreateOutcome {
    /// The file was created empty, truncating any previous contents.
    Created,
    /// The file already existed with the expected digest; nothing was
    /// done.
    SkippedSameHash,
}

/// A `..` path component, which would climb out of the root.
pub open spec fn spec_path_escapes(p: Seq<char>) -> bool {
    exists|i: int|
        0 <= i && i + 2 <= p.len() && #[trigger] p[i] == '.' && p[i + 1] == '.' && (i == 0 || p[i
            - 1] == '/') && (i + 2 == p.len() || p[i + 2] == '/')
}

/// A usable root-relative path: non-empty, not absolute, and never
/// leaving the root.
pub open spec fn is_safe_rel_path(p: Seq<char>) -> bool {
    p.len() > 0 && p[0] != '/' && !spec_path_escapes(p)
}

/// Executable check for [`is_safe_rel_path`].
pub fn check_rel_path(p: &str) -> (r: bool)
    ensures
        r == is_safe_rel_path(p@),
{
    let n = p.unicode_len();
    if n == 0 {
        return false;
    }
    if p.get_char(0) == '/' {
        return false;
    }
    let mut i: usize = 0;
    while i < n - 1
        invariant
            n >= 1,
            n == p@.len(),
            i <= n,
            forall|k: int|
                0 <= k && k < i && k + 2 <= n ==> !(#[trigger] p@[k] == '.' && p@[k + 1] == '.' && (
                k == 0 || p@[k - 1] == '/') && (k + 2 == n || p@[k + 2] == '/')),
        decreases n - i,
    {
        if p.get_char(i) == '.' && p.get_char(i + 1) == '.' && (i == 0 || p.get_char(i - 1) == '/')
            && (i + 2 == n || p.get_char(i + 2) == '/') {
            proof {
                assert(spec_path_escapes(p@));
            }
            return false;
        }
        i = i + 1;
    }
    proof {
        assert(!spec_path_escapes(p@)) by {
            if spec_path_escapes(p@) {
                let k = choose|k: int|
                    0 <= k && k + 2 <= p@.len() && #[trigger] p@[k] == '.' && p@[k + 1] == '.' && (
                    k == 0 || p@[k - 1] == '/') && (k + 2 == p@.len() || p@[k + 2] == '/');
                assert(k < i);
            }
        }
    }
    true
}

/// Scopes all store paths to one root directory.
#[derive(Debug)]
pub struct FileHandler {
    root: String,
}

impl View for FileHandler {
    type V = Seq<char>;

    closed spec fn view(&self) -> Seq<char> {
        self.root@
    }
}

impl FileHandler {
    pub fn new(root: String) -> (r: Self)
        ensures
            r@ == root@,
    {
        FileHandler { root }
    }

    /// The absolute path of a relative one, or a refusal when the
    /// relative path would escape the root.
    pub fn full_path(&self, rel: &str) -> (r: Result<String, StoreError>)
        ensures
            match r {
                Ok(p) => is_safe_rel_path(rel@) && p@ == self@ + "/"@ + rel@,
                Err(e) => e == StoreError::PathEscape && !is_safe_rel_path(rel@),
            },
    {
        if !check_rel_path(rel) {
            return Err(StoreError::PathEscape);
        }
        let mut v = crate::chars::chars_of(self.root.as_str());
        crate::chars::append_str(&mut v, "/");
        crate::chars::append_str(&mut v, rel);
        Ok(crate::chars::string_from_chars(v.as_slice()))
    }
}

/// The contents of the store's files: the first pair whose path matches,
/// if any.
pub open spec fn lookup(files: Seq<(String, Vec<u8>)>, p: Seq<char>) -> Option<Seq<u8>>
    decreases files.len(),
{
    if files.len() == 0 {
        None
    } else if files[0].0@ == p {
        Some(files[0].1@)
    } else {
        lookup(files.skip(1), p)
    }
}

/// Whether a folder is recorded.
pub open spec fn has_folder(folders: Seq<String>, p: Seq<char>) -> bool {
    exists|i: int| 0 <= i < folders.len() && folders[i]@ == p
}

/// Paths in the file list are distinct and contents stay below the
/// digest limit.
pub open spec fn files_wf(files: Seq<(String, Vec<u8>)>) -> bool {
    &&& forall|i: int, j: int|
        0 <= i < j < files.len() ==> (#[trigger] files[i]).0@ != (#[trigger] files[j]).0@
    &&& forall|i: int| 0 <= i < files.len() ==> (#[trigger] files[i]).1@.len() < 0x2000000000000000
}

proof fn lemma_lookup_skip_one(files: Seq<(String, Vec<u8>)>, p: Seq<char>)
    requires
        files.len() > 0,
        files[0].0@ != p,
    ensures
        lookup(files, p) == lookup(files.skip(1), p),
{
}

/// A found index pins the lookup.
proof fn lemma_lookup_at(files: Seq<(String, Vec<u8>)>, i: int)
    requires
        files_wf(files),
        0 <= i < files.len(),
    ensures
        lookup(files, files[i].0@) == Some(files[i].1@),
    decreases i,
{
    if i > 0 {
        assert(files[0].0@ != files[i].0@);
        lemma_lookup_skip_one(files, files[i].0@);
        assert(files.skip(1)[i - 1] == files[i]);
        assert(files_wf(files.skip(1))) by {
            assert(forall|a: int, b: int|
                0 <= a < b < files.skip(1).len() ==> (#[trigger] files.skip(1)[a]).0@ != (
                #[trigger] files.skip(1)[b]).0@) by {
                assert(forall|a: int|
                    0 <= a < files.skip(1).len() ==> #[trigger] files.skip(1)[a] == files[a + 1]);
            }
            assert(forall|a: int|
                0 <= a < files.skip(1).len() ==> (#[trigger] files.skip(1)[a]).1@.len()
                    < 0x2000000000000000) by {
                assert(forall|a: int|
                    0 <= a < files.skip(1).len() ==> #[trigger] files.skip(1)[a] == files[a + 1]);
            }
        }
        lemma_lookup_at(files.skip(1), i - 1);
    }
}

/// No matching index means an empty lookup.
proof fn lemma_lookup_none(files: Seq<(String, Vec<u8>)>, p: Seq<char>)
    requires
        forall|i: int| 0 <= i < files.len() ==> (#[trigger] files[i]).0@ != p,
    ensures
        lookup(files, p) is None,
    decreases files.len(),
{
    if files.len() > 0 {
        assert(forall|i: int|
            0 <= i < files.skip(1).len() ==> #[trigger] files.skip(1)[i] == files[i + 1]);
        lemma_lookup_none(files.skip(1), p);
    }
}

/// Appending a fresh path adds exactly one binding.
proof fn lemma_lookup_push(files: Seq<(String, Vec<u8>)>, pair: (String, Vec<u8>), q: Seq<char>)
    requires
        lookup(files, pair.0@) is None,
    ensures
        lookup(files.push(pair), q) == if q == pair.0@ {
            Some(pair.1@)
        } else {
            lookup(files, q)
        },
    decreases files.len(),
{
    if files.len() == 0 {
        assert(files.push(pair).len() == 1);
        assert(files.push(pair)[0] == pair);
        assert(files.push(pair).skip(1) =~= Seq::<(String, Vec<u8>)>::empty());
        if q == pair.0@ {
            assert(lookup(files.push(pair), q) == Some(pair.1@));
        } else {
            assert(lookup(Seq::<(String, Vec<u8>)>::empty(), q) is None);
            assert(lookup(files.push(pair), q) is None);
        }
    } else {
        assert(files.push(pair)[0] == files[0]);
        if files[0].0@ == q {
            assert(q != pair.0@);
            assert(lookup(files.push(pair), q) == Some(files[0].1@));
        } else {
            assert(files.push(pair).skip(1) =~= files.skip(1).push(pair));
            lemma_lookup_push(files.skip(1), pair, q);
        }
    }
}

/// Removing an entry removes exactly its binding.
proof fn lemma_lookup_remove(files: Seq<(String, Vec<u8>)>, i: int, q: Seq<char>)
    requires
        files_wf(files),
        0 <= i < files.len(),
    ensures
        lookup(files.remove(i), q) == if q == files[i].0@ {
            None
        } else {
            lookup(files, q)
        },
    decreases files.len(),
{
    assert(forall|a: int|
        0 <= a < files.skip(1).len() ==> #[trigger] files.skip(1)[a] == files[a + 1]);
    assert(files_wf(files.skip(1)));
    if i == 0 {
        assert(files.remove(0) =~= files.skip(1));
        if q == files[0].0@ {
            assert(forall|a: int|
                0 <= a < files.skip(1).len() ==> (#[trigger] files.skip(1)[a]).0@ != q);
            lemma_lookup_none(files.skip(1), q);
        }
    } else {
        let rem = files.remove(i);
        assert(rem[0] == files[0]);
        assert(rem.skip(1) =~= files.skip(1).remove(i - 1));
        if files[0].0@ == q {
        } else {
            lemma_lookup_remove(files.skip(1), i - 1, q);
        }
    }
}

/// All zero bytes.
pub open spec fn zeros(n: nat) -> Seq<u8> {
    Seq::new(n, |i: int| 0u8)
}

/// The contents of a file after writing `d` at offset `off`: bytes
/// before the offset are kept, a gap beyond the end is filled with
/// zeros, and bytes after the written span are kept.
pub open spec fn spec_write_at(c: Seq<u8>, off: nat, d: Seq<u8>) -> Seq<u8> {
    if off <= c.len() {
        c.take(off as int) + d + (if c.len() > off + d.len() {
            c.skip((off + d.len()) as int)
        } else {
            Seq::<u8>::empty()
        })
    } else {
        c + zeros((off - c.len()) as nat) + d
    }
}

/// The bytes read from offset `off`, at most `count` of them; empty at
/// or past the end of the file.
pub open spec fn spec_read_at(c: Seq<u8>, off: nat, count: nat) -> Seq<u8> {
    if off >= c.len() {
        Seq::<u8>::empty()
    } else if off + count <= c.len() {
        c.subrange(off as int, (off + count) as int)
    } else {
        c.subrange(off as int, c.len() as int)
    }
}

/// An in-memory image of the managed directory: the verified semantics
/// of the store that the node's filesystem side realizes.
#[derive(Debug)]
pub struct FileStore {
    files: Vec<(String, Vec<u8>)>,
    folders: Vec<String>,
}

impl FileStore {
    pub closed spec fn wf(&self) -> bool {
        files_wf(self.files@)
    }

    /// The contents of the file at `p`, if present.
    pub closed spec fn file_at(&self, p: Seq<char>) -> Option<Seq<u8>> {
        lookup(self.files@, p)
    }

    /// Whether the folder at `p` was created.
    pub closed spec fn folder_at(&self, p: Seq<char>) -> bool {
        has_folder(self.folders@, p)
    }

    pub fn new() -> (r: Self)
        ensures
            r.wf(),
            forall|p: Seq<char>| r.file_at(p) is None,
            forall|p: Seq<char>| !r.folder_at(p),
    {
        FileStore { files: Vec::new(), folders: Vec::new() }
    }

    /// The index of the file at `path`, if present.
    fn find_file(&self, path: &str) -> (r: Option<usize>)
        requires
            self.wf(),
        ensures
            match r {
                Some(i) => i < self.files@.len() && self.files@[i as int].0@ == path@
                    && self.file_at(path@) == Some(self.files@[i as int].1@),
                None => self.file_at(path@) is None,
            },
    {
        let mut i: usize = 0;
        while i < self.files.len()
            invariant
                self.wf(),
                i <= self.files@.len(),
                forall|k: int| 0 <= k < i ==> (#[trigger] self.files@[k]).0@ != path@,
            decreases self.files@.len() - i,
        {
            if str_eq(self.files[i].0.as_str(), path) {
                proof {
                    lemma_lookup_at(self.files@, i as int);
                }
                return Some(i);
            }
            i = i + 1;
        }
        proof {
            lemma_lookup_none(self.files@, path@);
        }
        None
    }

    /// Creates the file at `path` empty, unless it already exists with
    /// contents whose digest is exactly `sha`, in which case nothing is
    /// done. A skipped creation therefore guarantees that the stored
    /// bytes hash to the announced digest.
    pub fn create_file(&mut self, path: &str, sha: &str) -> (r: Result<CreateOutcome, StoreError>)
        requires
            old(self).wf(),
        ensures
            final(self).wf(),
            match r {
                Ok(CreateOutcome::SkippedSameHash) => {
                    &&& is_safe_rel_path(path@)
                    &&& old(self).file_at(path@) is Some
                    &&& sha_hex_of(old(self).file_at(path@).unwrap()) == sha@
                    &&& *final(self) == *old(self)
                },
                Ok(CreateOutcome::Created) => {
                    &&& is_safe_rel_path(path@)
                    &&& !(old(self).file_at(path@) is Some && sha_hex_of(
                        old(self).file_at(path@).unwrap(),
                    ) == sha@)
                    &&& final(self).file_at(path@) == Some(Seq::<u8>::empty())
                    &&& forall|q: Seq<char>|
                        q != path@ ==> final(self).file_at(q) == old(self).file_at(q)
                    &&& forall|q: Seq<char>| final(self).folder_at(q) == old(self).folder_at(q)
                },
                Err(e) => {
                    &&& e == StoreError::PathEscape
                    &&& !is_safe_rel_path(path@)
                    &&& *final(self) == *old(self)
                },
            },
    {
        if !check_rel_path(path) {
            return Err(StoreError::PathEscape);
        }
        match self.find_file(path) {
            Some(i) => {
                let existing = sha256_hex(self.files[i].1.as_slice());
                if str_eq(existing.as_str(), sha) {
                    return Ok(CreateOutcome::SkippedSameHash);
                }
                let ghost pre = self.files@;
                let _ = self.files.remove(i);
                proof {
                    assert forall|q: Seq<char>| lookup(self.files@, q) == (if q == pre[i as int].0@ {
                        None::<Seq<u8>>
                    } else {
                        lookup(pre, q)
                    }) by {
                        lemma_lookup_remove(pre, i as int, q);
                    }
                    assert(files_wf(self.files@)) by {
                        assert(forall|a: int|
                            0 <= a < self.files@.len() ==> #[trigger] self.files@[a] == if a
                                < i as int {
                                pre[a]
                            } else {
                                pre[a + 1]
                            });
                    }
                }
                self.push_empty(path);
                Ok(CreateOutcome::Created)
            },
            None => {
                self.push_empty(path);
                Ok(CreateOutcome::Created)
            },
        }
    }

    /// Appends an empty file for a path that is not present.
    fn push_empty(&mut self, path: &str)
        requires
            old(self).wf(),
            old(self).file_at(path@) is None,
        ensures
            final(self).wf(),
            final(self).file_at(path@) == Some(Seq::<u8>::empty()),
            forall|q: Seq<char>| q != path@ ==> final(self).file_at(q) == old(self).file_at(q),
            final(self).folders@ == old(self).folders@,
    {
        let ghost pre = self.files@;
        let pair = (String::from_str(path), Vec::<u8>::new());
        proof {
            assert(pair.1@ =~= Seq::<u8>::empty());
        }
        self.files.push(pair);
        proof {
            assert forall|q: Seq<char>| lookup(self.files@, q) == (if q == path@ {
                Some(Seq::<u8>::empty())
            } else {
                lookup(pre, q)
            }) by {
                lemma_lookup_push(pre, pair, q);
            }
            assert(files_wf(self.files@)) by {
                assert(forall|a: int|
                    0 <= a < pre.len() ==> #[trigger] self.files@[a] == pre[a]);
                assert(self.files@[pre.len() as int] == pair);
                assert forall|a: int, b: int|
                    0 <= a < b < self.files@.len() implies (#[trigger] self.files@[a]).0@ != (
                #[trigger] self.files@[b]).0@ by {
                    if b == pre.len() as int {
                        lemma_lookup_at(pre, a);
                    }
                }
            }
        }
    }

    /// Records the folder at `path`; creating it again does nothing.
    pub fn create_folder(&mut self, path: &str) -> (r: Result<(), StoreError>)
        requires
            old(self).wf(),
        ensures
            final(self).wf(),
            match r {
                Ok(()) => {
                    &&& is_safe_rel_path(path@)
                    &&& final(self).folder_at(path@)
                    &&& forall|q: Seq<char>|
                        q != path@ ==> final(self).folder_at(q) == old(self).folder_at(q)
                    &&& forall|q: Seq<char>| final(self).file_at(q) == old(self).file_at(q)
                },
                Err(e) => {
                    &&& e == StoreError::PathEscape
                    &&& !is_safe_rel_path(path@)
                    &&& *final(self) == *old(self)
                },
            },
    {
        if !check_rel_path(path) {
            return Err(StoreError::PathEscape);
        }
        let mut i: usize = 0;
        while i < self.folders.len()
            invariant
                *self == *old(self),
                old(self).wf(),
                is_safe_rel_path(path@),
                i <= self.folders@.len(),
                forall|k: int| 0 <= k < i ==> (#[trigger] self.folders@[k])@ != path@,
            decreases self.folders@.len() - i,
        {
            if str_eq(self.folders[i].as_str(), path) {
                proof {
                    assert(has_folder(self.folders@, path@)) by {
                        assert(self.folders@[i as int]@ == path@);
                    }
                }
                return Ok(());
            }
            i = i + 1;
        }
        let ghost pre = self.folders@;
        self.folders.push(String::from_str(path));
        proof {
            assert(self.folders@[pre.len() as int]@ == path@);
            assert(has_folder(self.folders@, path@));
            assert forall|q: Seq<char>| q != path@ implies has_folder(self.folders@, q)
                == has_folder(pre, q) by {
                assert(forall|a: int| 0 <= a < pre.len() ==> #[trigger] self.folders@[a] == pre[a]);
                if has_folder(pre, q) {
                    let w = choose|w: int| 0 <= w < pre.len() && pre[w]@ == q;
                    assert(self.folders@[w]@ == q);
                }
                if has_folder(self.folders@, q) {
                    let w = choose|w: int|
                        0 <= w < self.folders@.len() && self.folders@[w]@ == q;
                    if w < pre.len() {
                        assert(pre[w]@ == q);
                    }
                }
            }
        }
        Ok(())
    }

    /// Writes `data` at `offset` into the existing file at `path`.
    pub fn write_random(&mut self, path: &str, offset: u64, data: &[u8]) -> (r: Result<
        (),
        StoreError,
    >)
        requires
            old(self).wf(),
            offset + data@.len() < 0x2000000000000000,
            offset + data@.len() <= usize::MAX,
        ensures
            final(self).wf(),
            match r {
                Ok(()) => {
                    &&& is_safe_rel_path(path@)
                    &&& old(self).file_at(path@) is Some
                    &&& final(self).file_at(path@) == Some(
                        spec_write_at(old(self).file_at(path@).unwrap(), offset as nat, data@),
                    )
                    &&& forall|q: Seq<char>|
                        q != path@ ==> final(self).file_at(q) == old(self).file_at(q)
                    &&& forall|q: Seq<char>| final(self).folder_at(q) == old(self).folder_at(q)
                },
                Err(StoreError::PathEscape) => !is_safe_rel_path(path@) && *final(self) == *old(
                    self,
                ),
                Err(StoreError::NotFound) => is_safe_rel_path(path@) && old(self).file_at(path@)
                    is None && *final(self) == *old(self),
            },
    {
        if !check_rel_path(path) {
            return Err(StoreError::PathEscape);
        }
        match self.find_file(path) {
            None => Err(StoreError::NotFound),
            Some(i) => {
                let new_contents = write_at(&self.files[i].1, offset, data);
                let ghost pre = self.files@;
                let _ = self.files.remove(i);
                proof {
                    assert forall|q: Seq<char>| lookup(self.files@, q) == (if q == pre[i as int].0@ {
                        None::<Seq<u8>>
                    } else {
                        lookup(pre, q)
                    }) by {
                        lemma_lookup_remove(pre, i as int, q);
                    }
                    assert(files_wf(self.files@)) by {
                        assert(forall|a: int|
                            0 <= a < self.files@.len() ==> #[trigger] self.files@[a] == if a
                                < i as int {
                                pre[a]
                            } else {
                                pre[a + 1]
                            });
                    }
                }
                let ghost mid = self.files@;
                let pair = (String::from_str(path), new_contents);
                self.files.push(pair);
                proof {
                    assert forall|q: Seq<char>| lookup(self.files@, q) == (if q == path@ {
                        Some(pair.1@)
                    } else {
                        lookup(mid, q)
                    }) by {
                        lemma_lookup_push(mid, pair, q);
                    }
                    assert(files_wf(self.files@)) by {
                        assert(forall|a: int|
                            0 <= a < mid.len() ==> #[trigger] self.files@[a] == mid[a]);
                        assert(self.files@[mid.len() as int] == pair);
                        assert forall|a: int, b: int|
                            0 <= a < b < self.files@.len() implies (#[trigger] self.files@[a]).0@
                            != (#[trigger] self.files@[b]).0@ by {
                            if b == mid.len() as int {
                                lemma_lookup_at(mid, a);
                            }
                        }
                        assert(spec_write_at(pre[i as int].1@, offset as nat, data@).len()
                            < 0x2000000000000000);
                    }
                }
                Ok(())
            },
        }
    }

    /// Reads up to `count` bytes at `offset` from the file at `path`;
    /// an empty result means the offset is at or past the end.
    pub fn read_random(&self, path: &str, offset: u64, count: usize) -> (r: Result<
        Vec<u8>,
        StoreError,
    >)
        requires
            self.wf(),
        ensures
            match r {
                Ok(v) => {
                    &&& is_safe_rel_path(path@)
                    &&& self.file_at(path@) is Some
                    &&& v@ == spec_read_at(self.file_at(path@).unwrap(), offset as nat, count as nat)
                },
                Err(StoreError::PathEscape) => !is_safe_rel_path(path@),
                Err(StoreError::NotFound) => is_safe_rel_path(path@) && self.file_at(path@)
                    is None,
            },
    {
        if !check_rel_path(path) {
            return Err(StoreError::PathEscape);
        }
        match self.find_file(path) {
            None => Err(StoreError::NotFound),
            Some(i) => Ok(read_at(&self.files[i].1, offset, count)),
        }
    }

    /// The digest of the file at `path`, or nothing when it is absent
    /// or the path is unusable.
    pub fn sha(&self, path: &str) -> (r: Option<String>)
        requires
            self.wf(),
        ensures
            match r {
                Some(h) => {
                    &&& is_safe_rel_path(path@)
                    &&& self.file_at(path@) is Some
                    &&& h@ == sha_hex_of(self.file_at(path@).unwrap())
                },
                None => !is_safe_rel_path(path@) || self.file_at(path@) is None,
            },
    {
        if !check_rel_path(path) {
            return None;
        }
        match self.find_file(path) {
            None => None,
            Some(i) => {
                proof {
                    assert(self.files@[i as int].1@.len() < 0x2000000000000000);
                }
                Some(sha256_hex(self.files[i].1.as_slice()))
            },
        }
    }
}

/// The bytes of chunk `k` of a file: a full chunk, or whatever remains
/// for the last one.
pub open spec fn spec_chunk_at(c: Seq<u8>, k: int) -> Seq<u8> {
    if CHUNK_SIZE as int * (k + 1) <= c.len() {
        c.subrange(CHUNK_SIZE as int * k, CHUNK_SIZE as int * (k + 1))
    } else {
        c.subrange(CHUNK_SIZE as int * k, c.len() as int)
    }
}

/// Splits file contents into chunks, each paired with its byte offset.
pub fn chunk_file(contents: &Vec<u8>) -> (chunks: Vec<(u64, Vec<u8>)>)
    ensures
        chunks@.len() == crate::spec_chunk_count(contents@.len()),
        forall|k: int|
            0 <= k < chunks@.len() ==> (#[trigger] chunks@[k]).0 == (CHUNK_SIZE as int * k) as u64
                && chunks@[k].1@ == spec_chunk_at(contents@, k),
{
    let mut chunks: Vec<(u64, Vec<u8>)> = Vec::new();
    let n = contents.len();
    let mut pos: usize = 0;
    while pos < n
        invariant
            n == contents@.len(),
            pos <= n,
            pos == CHUNK_SIZE as int * chunks@.len() || (pos == n && chunks@.len()
                == crate::spec_chunk_count(n as nat)),
            forall|k: int|
                0 <= k < chunks@.len() ==> (#[trigger] chunks@[k]).0 == (CHUNK_SIZE as int
                    * k) as u64 && chunks@[k].1@ == spec_chunk_at(contents@, k),
        decreases n - pos,
    {
        let remaining = n - pos;
        let data = read_at(contents, pos as u64, CHUNK_SIZE);
        let ghost klen = chunks@.len();
        proof {
            assert(pos == CHUNK_SIZE as int * klen);
            assert(data@ == spec_chunk_at(contents@, klen as int));
        }
        chunks.push((pos as u64, data));
        if remaining <= CHUNK_SIZE {
            proof {
                assert(chunks@.len() == klen + 1);
                assert(CHUNK_SIZE as int * klen < n <= CHUNK_SIZE as int * (klen + 1));
                assert((n - 1) as int / (CHUNK_SIZE as int) == klen) by (nonlinear_arith)
                    requires
                        CHUNK_SIZE as int == 256,
                        CHUNK_SIZE as int * klen < n <= CHUNK_SIZE as int * (klen + 1),
                        0 <= klen,
                ;
            }
            pos = n;
        } else {
            pos = pos + CHUNK_SIZE;
            proof {
                assert(pos == CHUNK_SIZE as int * (klen + 1));
            }
        }
    }
    proof {
        if pos == CHUNK_SIZE as int * chunks@.len() && !(pos == n && chunks@.len()
            == crate::spec_chunk_count(n as nat)) {
            assert(pos == n);
            let m = chunks@.len();
            if n == 0 {
                assert(m == 0);
            } else {
                assert((n - 1) as int / (CHUNK_SIZE as int) == m - 1) by (nonlinear_arith)
                    requires
                        CHUNK_SIZE as int == 256,
                        n == CHUNK_SIZE as int * m,
                        n > 0,
                        0 <= m,
                ;
            }
        }
    }
    chunks
}

/// The first `k` chunks of a file, laid end to end.
pub open spec fn spec_chunks_concat(c: Seq<u8>, k: nat) -> Seq<u8>
    decreases k,
{
    if k == 0 {
        Seq::<u8>::empty()
    } else {
        spec_chunks_concat(c, (k - 1) as nat) + spec_chunk_at(c, k - 1)
    }
}

/// The file rebuilt by writing its chunks, in order, into an empty file.
pub open spec fn spec_rebuild(c: Seq<u8>, k: nat) -> Seq<u8>
    decreases k,
{
    if k == 0 {
        Seq::<u8>::empty()
    } else {
        spec_write_at(
            spec_rebuild(c, (k - 1) as nat),
            (CHUNK_SIZE * (k - 1)) as nat,
            spec_chunk_at(c, k - 1),
        )
    }
}

proof fn lemma_chunk_prefix(c: Seq<u8>, k: nat)
    requires
        k <= crate::spec_chunk_count(c.len()),
    ensures
        spec_chunks_concat(c, k) == c.take(
            if CHUNK_SIZE as int * k <= c.len() {
                CHUNK_SIZE as int * k
            } else {
                c.len() as int
            },
        ),
        spec_rebuild(c, k) == spec_chunks_concat(c, k),
    decreases k,
{
    let n = c.len() as int;
    if k == 0 {
        assert(spec_chunks_concat(c, 0) =~= c.take(0));
    } else {
        lemma_chunk_prefix(c, (k - 1) as nat);
        assert(CHUNK_SIZE as int * (k - 1) < n) by (nonlinear_arith)
            requires
                CHUNK_SIZE as int == 256,
                n > 0 ==> k <= (n - 1) / 256 + 1,
                n >= 0,
                1 <= k,
                k <= crate::spec_chunk_count(c.len()),
                crate::spec_chunk_count(c.len()) == if n == 0 {
                    0int
                } else {
                    (n - 1) / 256 + 1
                },
        ;
        let lo = CHUNK_SIZE as int * (k - 1);
        let hi = if CHUNK_SIZE as int * k <= n {
            CHUNK_SIZE as int * k
        } else {
            n
        };
        assert(CHUNK_SIZE as int * k == lo + 256) by (nonlinear_arith)
            requires
                CHUNK_SIZE as int == 256,
                lo == CHUNK_SIZE as int * (k - 1),
                k >= 1,
        ;
        let prev = spec_chunks_concat(c, (k - 1) as nat);
        assert(prev == c.take(lo));
        assert(prev.len() == lo);
        assert(spec_chunk_at(c, k - 1) == c.subrange(lo, hi));
        assert(prev + c.subrange(lo, hi) =~= c.take(hi));
        // the rebuild writes exactly at the end of what is already there
        let reb = spec_rebuild(c, (k - 1) as nat);
        assert(reb == prev);
        assert(spec_write_at(reb, (CHUNK_SIZE * (k - 1)) as nat, spec_chunk_at(c, k - 1)) == reb
            + spec_chunk_at(c, k - 1)) by {
            assert((CHUNK_SIZE * (k - 1)) as nat == reb.len());
            assert(reb.take(reb.len() as int) =~= reb);
            assert(reb + spec_chunk_at(c, k - 1) + Seq::<u8>::empty() =~= reb + spec_chunk_at(
                c,
                k - 1,
            ));
        }
    }
}

/// The chunk offsets of a file form the sequence 0, 256, 512, … with no
/// gaps and no overlaps: chunk `k` spans exactly the bytes from 256·k up
/// to the start of chunk `k+1` (or the end of the file), and the chunks
/// laid end to end are exactly the file.
pub proof fn lemma_chunks_tile(c: Seq<u8>)
    ensures
        forall|k: int|
            0 <= k < crate::spec_chunk_count(c.len()) ==> (#[trigger] spec_chunk_at(c, k)).len()
                == if CHUNK_SIZE as int * (k + 1) <= c.len() {
                CHUNK_SIZE as int
            } else {
                c.len() - CHUNK_SIZE as int * k
            },
        spec_chunks_concat(c, crate::spec_chunk_count(c.len())) == c,
{
    let n = c.len() as int;
    let count = crate::spec_chunk_count(c.len());
    assert forall|k: int| 0 <= k < count implies (#[trigger] spec_chunk_at(c, k)).len() == if
    CHUNK_SIZE as int * (k + 1) <= c.len() {
        CHUNK_SIZE as int
    } else {
        c.len() - CHUNK_SIZE as int * k
    } by {
        assert(CHUNK_SIZE as int * k < n) by (nonlinear_arith)
            requires
                CHUNK_SIZE as int == 256,
                0 <= k,
                n > 0,
                k < (n - 1) / 256 + 1,
        ;
    }
    lemma_chunk_prefix(c, count);
    assert(CHUNK_SIZE as int * count >= n) by (nonlinear_arith)
        requires
            CHUNK_SIZE as int == 256,
            n >= 0,
            count == if n == 0 {
                0int
            } else {
                (n - 1) / 256 + 1
            },
    ;
    assert(c.take(n) =~= c);
}

/// Writing a file of any length via its chunks into a fresh empty file,
/// then reading it back, yields the original bytes; the digest of the
/// rebuilt file is therefore the digest of the original.
pub proof fn lemma_chunk_write_round_trip(c: Seq<u8>)
    ensures
        spec_rebuild(c, crate::spec_chunk_count(c.len())) == c,
        sha_hex_of(spec_rebuild(c, crate::spec_chunk_count(c.len()))) == sha_hex_of(c),
        forall|k: int|
            0 <= k < crate::spec_chunk_count(c.len()) ==> #[trigger] spec_read_at(
                c,
                (CHUNK_SIZE as int * k) as nat,
                CHUNK_SIZE as nat,
            ) == spec_chunk_at(c, k),
{
    let n = c.len() as int;
    let count = crate::spec_chunk_count(c.len());
    lemma_chunk_prefix(c, count);
    lemma_chunks_tile(c);
    assert forall|k: int| 0 <= k < count implies #[trigger] spec_read_at(
        c,
        (CHUNK_SIZE as int * k) as nat,
        CHUNK_SIZE as nat,
    ) == spec_chunk_at(c, k) by {
        assert(CHUNK_SIZE as int * k < n) by (nonlinear_arith)
            requires
                CHUNK_SIZE as int == 256,
                0 <= k,
                n > 0,
                k < (n - 1) / 256 + 1,
        ;
        assert(CHUNK_SIZE as int * (k + 1) == CHUNK_SIZE as int * k + 256) by (nonlinear_arith)
            requires
                CHUNK_SIZE as int == 256,
        ;
    }
}

/// Executable twin of [`spec_write_at`].
fn write_at(c: &Vec<u8>, offset: u64, data: &[u8]) -> (out: Vec<u8>)
    requires
        offset + data@.len() <= usize::MAX,
    ensures
        out@ == spec_write_at(c@, offset as nat, data@),
{
    let off = offset as usize;
    let n = c.len();
    let keep = if off < n {
        off
    } else {
        n
    };
    let mut out: Vec<u8> = Vec::new();
    let mut i: usize = 0;
    while i < keep
        invariant
            i <= keep,
            keep <= n,
            n == c@.len(),
            out@ == c@.subrange(0, i as int),
        decreases keep - i,
    {
        out.push(c[i]);
        proof {
            assert(out@ =~= c@.subrange(0, i + 1));
        }
        i = i + 1;
    }
    while i < off
        invariant
            keep <= i <= off || (i == keep && keep <= off),
            keep <= n,
            n == c@.len(),
            keep == if off < n {
                off as int
            } else {
                n as int
            },
            out@ == c@.subrange(0, keep as int) + zeros((i - keep) as nat),
        decreases off - i,
    {
        out.push(0);
        proof {
            assert(out@ =~= c@.subrange(0, keep as int) + zeros((i + 1 - keep) as nat));
        }
        i = i + 1;
    }
    let mut j: usize = 0;
    let ghost base = out@;
    while j < data.len()
        invariant
            j <= data@.len(),
            out@ == base + data@.subrange(0, j as int),
        decreases data@.len() - j,
    {
        out.push(data[j]);
        proof {
            assert(out@ =~= base + data@.subrange(0, j + 1));
        }
        j = j + 1;
    }
    proof {
        assert(out@ =~= base + data@) by {
            assert(data@.subrange(0, data@.len() as int) =~= data@);
        }
    }
    if off + data.len() < n {
        let mut k: usize = off + data.len();
        let ghost base2 = out@;
        while k < n
            invariant
                off + data@.len() <= k <= n,
                n == c@.len(),
                out@ == base2 + c@.subrange((off + data@.len()) as int, k as int),
            decreases n - k,
        {
            out.push(c[k]);
            proof {
                assert(out@ =~= base2 + c@.subrange((off + data@.len()) as int, k + 1));
            }
            k = k + 1;
        }
    }
    proof {
        assert(out@ =~= spec_write_at(c@, offset as nat, data@));
    }
    out
}

/// Executable twin of [`spec_read_at`].
fn read_at(c: &Vec<u8>, offset: u64, count: usize) -> (out: Vec<u8>)
    ensures
        out@ == spec_read_at(c@, offset as nat, count as nat),
{
    let n = c.len();
    if offset >= n as u64 {
        let out: Vec<u8> = Vec::new();
        proof {
            assert(out@ =~= spec_read_at(c@, offset as nat, count as nat));
        }
        return out;
    }
    let off = offset as usize;
    let end = if count <= n - off {
        off + count
    } else {
        n
    };
    let mut out: Vec<u8> = Vec::new();
    let mut i: usize = off;
    while i < end
        invariant
            off <= i <= end <= n,
            n == c@.len(),
            out@ == c@.subrange(off as int, i as int),
        decreases end - i,
    {
        out.push(c[i]);
        proof {
            assert(out@ =~= c@.subrange(off as int, i + 1));
        }
        i = i + 1;
    }
    proof {
        assert(out@ =~= spec_read_at(c@, offset as nat, count as nat));
    }
    out
}

} // verus!
