//! The storage abstraction: key validation, the expected on-disk layout, and
//! the capability interface that every backend implements.
//!
//! The state a backend manages is modelled by two maps. The *vault* maps each
//! stored key to the bytes of its stored entry, the file at
//! `<root>/<key>/.env`. The *world* maps each path outside the vault that the
//! operations touch (Save's source, Link's destination) to the filesystem
//! node found there.

use vstd::prelude::*;

use crate::error::ErrorKind;
use crate::error::KpvError;
use crate::text::str_eq;
use crate::text::views_of;

verus! {

/// Whether a character counts as alphanumeric for key validation.
///
/// Relies on `char::is_alphanumeric` from std: the result depends on the
/// character alone (its Unicode `Alphabetic` and `Number` categories).
pub uninterp spec fn char_alphanumeric(c: char) -> bool;

/// Relies on `char::is_alphanumeric`: true exactly for Unicode alphanumeric
/// characters, a function of the character alone.
#[verifier::external_body]
fn is_char_alphanumeric(c: char) -> (r: bool)
    ensures
        r == char_alphanumeric(c),
{
    c.is_alphanumeric()
}

/// A character a key may contain: alphanumeric or a hyphen.
pub open spec fn valid_key_char(c: char) -> bool {
    char_alphanumeric(c) || c == '-'
}

/// A valid key: non-empty, every character alphanumeric or a hyphen.
///
/// Such a string also reads as exactly one plain path component: path
/// separators, `.` and `..` all need characters that are neither
/// alphanumeric nor hyphens, so none of them can appear in a valid key.
pub open spec fn valid_key(s: Seq<char>) -> bool {
    s.len() > 0 && forall|i: int| 0 <= i < s.len() ==> valid_key_char(#[trigger] s[i])
}

/// The directory that holds a key's stored entry: `<root>/<key>`.
pub open spec fn key_dir_path(root: Seq<char>, key: Seq<char>) -> Seq<char> {
    root + seq!['/'] + key
}

/// The stored-entry path for a key: `<root>/<key>/.env`.
pub open spec fn entry_path(root: Seq<char>, key: Seq<char>) -> Seq<char> {
    root + seq!['/'] + key + seq!['/', '.', 'e', 'n', 'v']
}

/// Whether a path has the shape of a stored-entry path under `root`:
/// `<root>/<key>/.env` with a non-empty key.
pub open spec fn is_entry_path(root: Seq<char>, path: Seq<char>) -> bool {
    &&& path.len() >= root.len() + 7
    &&& path.subrange(0, root.len() as int) == root
    &&& path[root.len() as int] == '/'
    &&& path.subrange(path.len() - 5, path.len() as int) == seq!['/', '.', 'e', 'n', 'v']
}

/// The key a stored-entry path names: what stands between `<root>/` and
/// `/.env`.
pub open spec fn entry_key_of(root: Seq<char>, path: Seq<char>) -> Seq<char> {
    path.subrange(root.len() as int + 1, path.len() as int - 5)
}

/// Building a stored-entry path and taking it apart again are inverses.
pub proof fn lemma_entry_path_round_trip(root: Seq<char>, key: Seq<char>)
    requires
        key.len() > 0,
    ensures
        is_entry_path(root, entry_path(root, key)),
        entry_key_of(root, entry_path(root, key)) == key,
{
    let p = entry_path(root, key);
    assert(p.len() == root.len() + 1 + key.len() + 5);
    assert(p.subrange(0, root.len() as int) =~= root);
    assert(p[root.len() as int] == '/');
    assert(p.subrange(p.len() - 5, p.len() as int) =~= seq!['/', '.', 'e', 'n', 'v']);
    assert(entry_key_of(root, p) =~= key);
}

/// What a path outside the vault holds: a regular file with its bytes, a
/// directory, or a symbolic link with its target path.
pub enum FsNode {
    File(Seq<u8>),
    Dir,
    Symlink(Seq<char>),
}

/// Whether `key` is valid and has a stored entry in `vault` — what
/// check-exists reports, and the precondition Link checks first.
pub open spec fn key_known(vault: Map<Seq<char>, Seq<u8>>, key: Seq<char>) -> bool {
    valid_key(key) && vault.contains_key(key)
}

/// The bytes a read at `path` observes: a regular file's own bytes, or the
/// stored entry's bytes through a symbolic link onto it.
pub open spec fn read_through(
    root: Seq<char>,
    vault: Map<Seq<char>, Seq<u8>>,
    world: Map<Seq<char>, FsNode>,
    path: Seq<char>,
) -> Option<Seq<u8>> {
    if !world.contains_key(path) {
        None
    } else {
        match world[path] {
            FsNode::File(b) => Some(b),
            FsNode::Dir => None,
            FsNode::Symlink(t) => if is_entry_path(root, t) && vault.contains_key(
                entry_key_of(root, t),
            ) {
                Some(vault[entry_key_of(root, t)])
            } else {
                None
            },
        }
    }
}

/// The capability interface every storage backend implements.
///
/// A backend's state is its `vault` (key to stored bytes), the `world` of
/// outside paths it touches, and its fixed `root` directory. A backend whose
/// operations can never hit an underlying I/O failure — such as the
/// in-memory backend — says so through `infallible`, which strengthens the
/// success promises below; a backend over real I/O reports such failures as
/// errors instead, and only the failure-shape clauses bind it.
pub trait Storage: Sized {
    /// The vault: each stored key mapped to the bytes of its stored entry.
    spec fn vault(&self) -> Map<Seq<char>, Seq<u8>>;

    /// The world outside the vault: each touched path mapped to its node.
    spec fn world(&self) -> Map<Seq<char>, FsNode>;

    /// The storage root directory.
    spec fn root(&self) -> Seq<char>;

    /// Whether the backend's operations are free of underlying I/O failures.
    spec fn infallible(&self) -> bool;

    /// Persist the file at `source_path` as the stored entry for `key`,
    /// overwriting any prior entry. Fails on an invalid key before touching
    /// any state.
    fn save_env(&mut self, key: &str, source_path: &str) -> (r: Result<(), KpvError>)
        ensures
            final(self).root() == old(self).root(),
            final(self).infallible() == old(self).infallible(),
            final(self).world() == old(self).world(),
            !valid_key(key@) ==> r matches Err(KpvError::Io(ErrorKind::InvalidInput)),
            r is Ok ==> valid_key(key@) && old(self).world().contains_key(source_path@)
                && (old(self).world()[source_path@] matches FsNode::File(b)
                && final(self).vault() == old(self).vault().insert(key@, b)),
            r is Err ==> final(self).vault() == old(self).vault(),
            old(self).infallible() && valid_key(key@) && old(self).world().contains_key(
                source_path@,
            ) && old(self).world()[source_path@] is File ==> r is Ok,
    ;

    /// Create a symbolic link at `dest_path` pointing at the stored-entry
    /// path for `key`. An occupied destination is a distinct already-exists
    /// failure; the stored data is never changed.
    fn link_env(&mut self, key: &str, dest_path: &str) -> (r: Result<(), KpvError>)
        ensures
            final(self).root() == old(self).root(),
            final(self).infallible() == old(self).infallible(),
            final(self).vault() == old(self).vault(),
            !valid_key(key@) ==> r matches Err(KpvError::Io(ErrorKind::InvalidInput)),
            valid_key(key@) && old(self).world().contains_key(dest_path@) ==> r matches Err(
                KpvError::EnvAlreadyExists,
            ),
            r is Ok ==> valid_key(key@) && !old(self).world().contains_key(dest_path@)
                && final(self).world() == old(self).world().insert(
                dest_path@,
                FsNode::Symlink(entry_path(old(self).root(), key@)),
            ),
            r is Err ==> final(self).world() == old(self).world(),
            old(self).infallible() && valid_key(key@) && !old(self).world().contains_key(
                dest_path@,
            ) ==> r is Ok,
    ;

    /// Enumerate the stored keys, in no particular order; an empty vault
    /// yields an empty sequence, not an error.
    fn list_keys(&self) -> (r: Result<Vec<String>, KpvError>)
        ensures
            r matches Ok(keys) ==> {
                &&& views_of(keys@).to_set() == self.vault().dom()
                &&& views_of(keys@).no_duplicates()
            },
            self.infallible() ==> r is Ok,
    ;

    /// The expected stored-entry path for `key`; pure, non-failing, and
    /// without key validation.
    fn get_key_env_path(&self, key: &str) -> (r: String)
        ensures
            r@ == entry_path(self.root(), key@),
    ;

    /// Whether `key` is valid and has a stored entry; false for an invalid
    /// key, with no error raised.
    fn check_key_exists(&self, key: &str) -> (r: bool)
        ensures
            r == key_known(self.vault(), key@),
    ;

    /// Remove the key's entry and directory. Deleting an absent key
    /// succeeds; deleting an invalid key fails validation.
    fn delete_env(&mut self, key: &str) -> (r: Result<(), KpvError>)
        ensures
            final(self).root() == old(self).root(),
            final(self).infallible() == old(self).infallible(),
            final(self).world() == old(self).world(),
            !valid_key(key@) ==> r matches Err(KpvError::Io(ErrorKind::InvalidInput)),
            r is Ok ==> valid_key(key@) && final(self).vault() == old(self).vault().remove(key@),
            r is Err ==> final(self).vault() == old(self).vault(),
            old(self).infallible() && valid_key(key@) ==> r is Ok,
    ;

    /// Whether `path` holds a regular file (what Save's source probe sees).
    fn path_is_file(&self, path: &str) -> (r: bool)
        ensures
            r == (self.world().contains_key(path@) && self.world()[path@] is File),
    ;

    /// Whether any entry occupies `path`, symbolic links not followed (what
    /// Link's destination probe sees).
    fn path_exists(&self, path: &str) -> (r: bool)
        ensures
            r == self.world().contains_key(path@),
    ;
}

/// The filesystem-backed storage layout, rooted at a fixed base directory.
///
/// This type owns every path computation and the key validation that the
/// filesystem backend performs; the I/O itself stays with the embedding
/// program, which consults these methods for where to read and write.
#[derive(Debug, Clone)]
pub struct FilesystemStorage {
    root_path: String,
}

impl FilesystemStorage {
    /// The storage root directory.
    pub closed spec fn root(&self) -> Seq<char> {
        self.root_path@
    }

    /// A storage layout rooted at the given directory.
    pub fn new(root_path: String) -> (r: Self)
        ensures
            r.root() == root_path@,
    {
        FilesystemStorage { root_path }
    }

    /// The default layout under a home directory: `<home>/.config/kpv`.
    pub fn from_home(home: &str) -> (r: Self)
        ensures
            r.root() == home@ + "/.config/kpv"@,
    {
        let mut root = home.to_owned();
        root.append("/.config/kpv");
        FilesystemStorage { root_path: root }
    }

    /// The storage root directory, as a path string.
    pub fn root_path(&self) -> (r: &str)
        ensures
            r@ == self.root(),
    {
        self.root_path.as_str()
    }

    /// Whether a key string is valid: non-empty, and every character
    /// alphanumeric or a hyphen.
    pub fn is_key_valid(key: &str) -> (r: bool)
        ensures
            r == valid_key(key@),
    {
        let n = key.unicode_len();
        if n == 0 {
            return false;
        }
        let mut i: usize = 0;
        while i < n
            invariant
                n == key@.len(),
                i <= n,
                forall|j: int| 0 <= j < i ==> valid_key_char(#[trigger] key@[j]),
            decreases n - i,
        {
            let c = key.get_char(i);
            if !(is_char_alphanumeric(c) || c == '-') {
                assert(!valid_key_char(key@[i as int]));
                return false;
            }
            i += 1;
        }
        true
    }

    /// Accept a valid key, or reject an invalid one with an invalid-input
    /// I/O error.
    pub fn ensure_valid_key(&self, key: &str) -> (r: Result<(), KpvError>)
        ensures
            r is Ok <==> valid_key(key@),
            r is Err ==> r matches Err(KpvError::Io(ErrorKind::InvalidInput)),
    {
        if Self::is_key_valid(key) {
            Ok(())
        } else {
            Err(KpvError::Io(ErrorKind::InvalidInput))
        }
    }

    /// The directory that holds a key's stored entry: `<root>/<key>`.
    pub fn key_dir(&self, key: &str) -> (r: String)
        ensures
            r@ == key_dir_path(self.root(), key@),
    {
        let mut s = self.root_path.clone();
        s.append("/");
        s.append(key);
        proof {
            reveal_strlit("/");
            assert(s@ =~= key_dir_path(self.root(), key@));
        }
        s
    }

    /// The stored-entry path for a key: `<root>/<key>/.env`.
    pub fn key_env_path(&self, key: &str) -> (r: String)
        ensures
            r@ == entry_path(self.root(), key@),
    {
        let mut s = self.key_dir(key);
        s.append("/.env");
        proof {
            reveal_strlit("/.env");
            assert(s@ =~= entry_path(self.root(), key@));
        }
        s
    }

    /// The expected stored-entry path for a key; pure and non-failing, and
    /// does not validate the key.
    pub fn get_key_env_path(&self, key: &str) -> (r: String)
        ensures
            r@ == entry_path(self.root(), key@),
    {
        self.key_env_path(key)
    }

    /// Split a stored-entry path under this root into the key it names, when
    /// it has that shape.
    pub fn parse_entry_key(&self, path: &str) -> (r: Option<String>)
        ensures
            match r {
                Some(k) => is_entry_path(self.root(), path@) && k@ == entry_key_of(
                    self.root(),
                    path@,
                ),
                None => !is_entry_path(self.root(), path@),
            },
    {
        proof {
            reveal_strlit("/.env");
            assert("/.env"@ =~= seq!['/', '.', 'e', 'n', 'v']);
        }
        let root_len = self.root_path.as_str().unicode_len();
        let path_len = path.unicode_len();
        if path_len < 7 || path_len - 7 < root_len {
            return None;
        }
        let prefix = path.substring_char(0, root_len);
        if !str_eq(prefix, self.root_path.as_str()) {
            return None;
        }
        if path.get_char(root_len) != '/' {
            return None;
        }
        let suffix = path.substring_char(path_len - 5, path_len);
        if !str_eq(suffix, "/.env") {
            return None;
        }
        let key = path.substring_char(root_len + 1, path_len - 5);
        Some(key.to_owned())
    }
}

} // verus!
