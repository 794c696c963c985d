//! The in-memory storage backend: a semantic model of the filesystem backend
//! that the command layer is verified against and that tests run against.

use vstd::prelude::*;

use crate::error::ErrorKind;
use crate::error::KpvError;
use crate::storage::FilesystemStorage;
use crate::storage::FsNode;
use crate::storage::Storage;
use crate::storage::entry_path;
use crate::storage::read_through;
use crate::storage::valid_key;
use crate::text::str_eq;

verus! {

/// An in-memory filesystem node.
pub enum MemNode {
    File(Vec<u8>),
    Dir,
    Symlink(String),
}

impl View for MemNode {
    type V = FsNode;

    open spec fn view(&self) -> FsNode {
        match self {
            MemNode::File(b) => FsNode::File(b@),
            MemNode::Dir => FsNode::Dir,
            MemNode::Symlink(t) => FsNode::Symlink(t@),
        }
    }
}

/// The map an association list denotes.
pub open spec fn assoc_view<V: View>(s: Seq<(String, V)>) -> Map<Seq<char>, V::V>
    decreases s.len(),
{
    if s.len() == 0 {
        Map::empty()
    } else {
        assoc_view(s.drop_last()).insert(s.last().0@, s.last().1@)
    }
}

/// No two pairs of an association list share a key.
pub open spec fn distinct_keys<V>(s: Seq<(String, V)>) -> bool {
    forall|i: int, j: int| 0 <= i < j < s.len() ==> s[i].0@ != s[j].0@
}

proof fn lemma_assoc_contains<V: View>(s: Seq<(String, V)>, k: Seq<char>)
    ensures
        assoc_view(s).contains_key(k) <==> exists|i: int| 0 <= i < s.len() && s[i].0@ == k,
    decreases s.len(),
{
    if s.len() > 0 {
        lemma_assoc_contains(s.drop_last(), k);
        if s.last().0@ == k {
            assert(s[s.len() - 1].0@ == k);
        } else if exists|i: int| 0 <= i < s.len() && s[i].0@ == k {
            let i = choose|i: int| 0 <= i < s.len() && s[i].0@ == k;
            assert(s.drop_last()[i].0@ == k);
        }
    }
}

proof fn lemma_assoc_index<V: View>(s: Seq<(String, V)>, k: Seq<char>, i: int)
    requires
        distinct_keys(s),
        0 <= i < s.len(),
        s[i].0@ == k,
    ensures
        assoc_view(s).contains_key(k),
        assoc_view(s)[k] == s[i].1@,
    decreases s.len(),
{
    if i < s.len() - 1 {
        assert(s.last().0@ != k);
        lemma_assoc_index(s.drop_last(), k, i);
    }
}

proof fn lemma_assoc_push<V: View>(s: Seq<(String, V)>, p: (String, V))
    ensures
        assoc_view(s.push(p)) == assoc_view(s).insert(p.0@, p.1@),
{
    assert(s.push(p).drop_last() =~= s);
    assert(s.push(p).last() == p);
}

proof fn lemma_assoc_remove<V: View>(s: Seq<(String, V)>, i: int)
    requires
        distinct_keys(s),
        0 <= i < s.len(),
    ensures
        assoc_view(s.remove(i)) == assoc_view(s).remove(s[i].0@),
    decreases s.len(),
{
    let k = s[i].0@;
    if i == s.len() - 1 {
        assert(s.remove(i) =~= s.drop_last());
        lemma_assoc_contains(s.drop_last(), k);
        assert(forall|j: int| 0 <= j < s.len() - 1 ==> s.drop_last()[j].0@ != k);
        assert(assoc_view(s).remove(k) =~= assoc_view(s.drop_last()));
    } else {
        assert(s.remove(i).drop_last() =~= s.drop_last().remove(i));
        assert(s.remove(i).last() == s.last());
        assert(distinct_keys(s.drop_last()));
        lemma_assoc_remove(s.drop_last(), i);
        assert(s.last().0@ != k);
        assert(assoc_view(s.drop_last().remove(i)).insert(s.last().0@, s.last().1@) =~= assoc_view(
            s,
        ).remove(k));
    }
}

proof fn lemma_assoc_dom<V: View>(s: Seq<(String, V)>)
    requires
        distinct_keys(s),
    ensures
        s.map_values(|p: (String, V)| p.0@).to_set() == assoc_view(s).dom(),
        s.map_values(|p: (String, V)| p.0@).no_duplicates(),
{
    let names = s.map_values(|p: (String, V)| p.0@);
    assert forall|k: Seq<char>|
        names.to_set().contains(k) == assoc_view(s).dom().contains(k) by {
        lemma_assoc_contains(s, k);
        if names.to_set().contains(k) {
            let i = choose|i: int| 0 <= i < names.len() && names[i] == k;
            assert(s[i].0@ == k);
        }
        if assoc_view(s).contains_key(k) {
            let i = choose|i: int| 0 <= i < s.len() && s[i].0@ == k;
            assert(names[i] == k);
        }
    }
    assert(names.to_set() =~= assoc_view(s).dom());
}

proof fn lemma_distinct_remove<V>(s: Seq<(String, V)>, i: int)
    requires
        distinct_keys(s),
        0 <= i < s.len(),
    ensures
        distinct_keys(s.remove(i)),
        forall|j: int| 0 <= j < s.remove(i).len() ==> s.remove(i)[j].0@ != s[i].0@,
{
    s.remove_ensures(i);
    let t = s.remove(i);
    assert forall|a: int, b: int| 0 <= a < b < t.len() implies t[a].0@ != t[b].0@ by {
        if b < i {
        } else if a < i {
            assert(t[b] == s[b + 1]);
        } else {
            assert(t[a] == s[a + 1]);
            assert(t[b] == s[b + 1]);
        }
    }
    assert forall|j: int| 0 <= j < t.len() implies t[j].0@ != s[i].0@ by {
        if j < i {
        } else {
            assert(t[j] == s[j + 1]);
        }
    }
}

/// The position of a key in an association list, if any.
fn find_index<V>(v: &Vec<(String, V)>, key: &str) -> (r: Option<usize>)
    ensures
        match r {
            Some(i) => i < v@.len() && v@[i as int].0@ == key@,
            None => forall|j: int| 0 <= j < v@.len() ==> v@[j].0@ != key@,
        },
{
    let mut i: usize = 0;
    while i < v.len()
        invariant
            i <= v@.len(),
            forall|j: int| 0 <= j < i ==> v@[j].0@ != key@,
        decreases v@.len() - i,
    {
        if str_eq(v[i].0.as_str(), key) {
            return Some(i);
        }
        i += 1;
    }
    None
}

/// A storage backend held entirely in memory.
///
/// It models both the vault (stored keys and their bytes) and the outside
/// world of paths the operations touch, so the complete behaviour of every
/// operation — validation, the error chosen for each failure, and the state
/// change on success — runs and is checked without any I/O.
pub struct MemoryStorage {
    layout: FilesystemStorage,
    entries: Vec<(String, Vec<u8>)>,
    outside: Vec<(String, MemNode)>,
    failing: bool,
}

impl MemoryStorage {
    #[verifier::type_invariant]
    spec fn wf(&self) -> bool {
        distinct_keys(self.entries@) && distinct_keys(self.outside@)
    }

    /// An empty backend rooted at the given directory.
    pub fn new(root_path: String) -> (r: Self)
        ensures
            r.vault() == Map::<Seq<char>, Seq<u8>>::empty(),
            r.world() == Map::<Seq<char>, FsNode>::empty(),
            r.root() == root_path@,
            r.infallible(),
    {
        MemoryStorage {
            layout: FilesystemStorage::new(root_path),
            entries: Vec::new(),
            outside: Vec::new(),
            failing: false,
        }
    }

    /// Put the backend into a failing state: from here on, every operation
    /// that can fail reports an underlying I/O failure, as a backend over
    /// real I/O might.
    pub fn set_failing(&mut self)
        ensures
            !final(self).infallible(),
            final(self).vault() == old(self).vault(),
            final(self).world() == old(self).world(),
            final(self).root() == old(self).root(),
    {
        proof {
            use_type_invariant(&*self);
        }
        self.failing = true;
    }

    /// Place `node` at an outside path, replacing whatever was there.
    fn outside_insert(&mut self, path: &str, node: MemNode)
        ensures
            final(self).world() == old(self).world().insert(path@, node@),
            final(self).vault() == old(self).vault(),
            final(self).root() == old(self).root(),
            final(self).infallible() == old(self).infallible(),
    {
        proof {
            use_type_invariant(&*self);
        }
        let ghost old_world = self.world();
        let mut outside: Vec<(String, MemNode)> = Vec::new();
        core::mem::swap(&mut outside, &mut self.outside);
        let ghost pre = outside@;
        if let Some(i) = find_index(&outside, path) {
            proof {
                lemma_assoc_remove(pre, i as int);
                lemma_distinct_remove(pre, i as int);
            }
            outside.remove(i);
        }
        let ghost mid = outside@;
        outside.push((path.to_owned(), node));
        proof {
            lemma_assoc_push(mid, (outside@.last().0, outside@.last().1));
            assert(outside@.drop_last() =~= mid);
            assert(assoc_view(outside@) =~= assoc_view(mid).insert(path@, node@));
            assert(assoc_view(mid).insert(path@, node@) =~= old_world.insert(path@, node@));
            assert(distinct_keys(outside@));
        }
        self.outside = outside;
    }

    /// Place a regular file with the given bytes at an outside path.
    pub fn place_file(&mut self, path: &str, content: Vec<u8>)
        ensures
            final(self).world() == old(self).world().insert(path@, FsNode::File(content@)),
            final(self).vault() == old(self).vault(),
            final(self).root() == old(self).root(),
            final(self).infallible() == old(self).infallible(),
    {
        self.outside_insert(path, MemNode::File(content));
    }

    /// Place a directory at an outside path.
    pub fn place_dir(&mut self, path: &str)
        ensures
            final(self).world() == old(self).world().insert(path@, FsNode::Dir),
            final(self).vault() == old(self).vault(),
            final(self).root() == old(self).root(),
            final(self).infallible() == old(self).infallible(),
    {
        self.outside_insert(path, MemNode::Dir);
    }

    /// Read the bytes reachable at an outside path: a regular file's own
    /// bytes, or the stored entry's bytes through a symbolic link onto it —
    /// what a caller reading through Link's result sees.
    pub fn read_env(&self, path: &str) -> (r: Option<Vec<u8>>)
        ensures
            match r {
                Some(bytes) => read_through(self.root(), self.vault(), self.world(), path@)
                    == Some(bytes@),
                None => read_through(self.root(), self.vault(), self.world(), path@) is None,
            },
    {
        proof {
            use_type_invariant(&*self);
            lemma_assoc_contains(self.outside@, path@);
        }
        let i = match find_index(&self.outside, path) {
            Some(i) => i,
            None => {
                return None;
            },
        };
        proof {
            lemma_assoc_index(self.outside@, path@, i as int);
        }
        match &self.outside[i].1 {
            MemNode::File(b) => {
                let c = b.clone();
                proof {
                    assert(c@ =~= b@);
                }
                Some(c)
            },
            MemNode::Dir => None,
            MemNode::Symlink(t) => {
                let key = match self.layout.parse_entry_key(t.as_str()) {
                    Some(key) => key,
                    None => {
                        return None;
                    },
                };
                proof {
                    lemma_assoc_contains(self.entries@, key@);
                }
                match find_index(&self.entries, key.as_str()) {
                    Some(j) => {
                        proof {
                            lemma_assoc_index(self.entries@, key@, j as int);
                        }
                        let bytes = self.entries[j].1.clone();
                        proof {
                            assert(bytes@ =~= self.entries@[j as int].1@);
                        }
                        Some(bytes)
                    },
                    None => None,
                }
            },
        }
    }

    /// Place a symbolic link with the given target at an outside path.
    pub fn place_symlink(&mut self, path: &str, target: &str)
        ensures
            final(self).world() == old(self).world().insert(
                path@,
                FsNode::Symlink(target@),
            ),
            final(self).vault() == old(self).vault(),
            final(self).root() == old(self).root(),
            final(self).infallible() == old(self).infallible(),
    {
        self.outside_insert(path, MemNode::Symlink(target.to_owned()));
    }
}

impl Storage for MemoryStorage {
    closed spec fn vault(&self) -> Map<Seq<char>, Seq<u8>> {
        assoc_view(self.entries@)
    }

    closed spec fn world(&self) -> Map<Seq<char>, FsNode> {
        assoc_view(self.outside@)
    }

    closed spec fn root(&self) -> Seq<char> {
        self.layout.root()
    }

    closed spec fn infallible(&self) -> bool {
        !self.failing
    }

    fn save_env(&mut self, key: &str, source_path: &str) -> (r: Result<(), KpvError>)
        ensures
            old(self).infallible() && valid_key(key@) && old(self).world().contains_key(
                source_path@,
            ) && old(self).world()[source_path@] is File ==> r is Ok,
    {
        proof {
            use_type_invariant(&*self);
        }
        if let Err(e) = self.layout.ensure_valid_key(key) {
            return Err(e);
        }
        if self.failing {
            return Err(KpvError::Io(ErrorKind::Other));
        }
        proof {
            lemma_assoc_contains(self.outside@, source_path@);
        }
        let content: Vec<u8> = match find_index(&self.outside, source_path) {
            None => {
                return Err(KpvError::Io(ErrorKind::NotFound));
            },
            Some(i) => {
                proof {
                    lemma_assoc_index(self.outside@, source_path@, i as int);
                }
                match &self.outside[i].1 {
                    MemNode::File(b) => {
                        let c = b.clone();
                        proof {
                            assert(c@ =~= b@);
                        }
                        c
                    },
                    _ => {
                        return Err(KpvError::Io(ErrorKind::Other));
                    },
                }
            },
        };
        let ghost old_vault = self.vault();
        let ghost content_view = content@;
        let mut entries: Vec<(String, Vec<u8>)> = Vec::new();
        core::mem::swap(&mut entries, &mut self.entries);
        let ghost pre = entries@;
        if let Some(i) = find_index(&entries, key) {
            proof {
                lemma_assoc_remove(pre, i as int);
                lemma_distinct_remove(pre, i as int);
            }
            entries.remove(i);
        }
        let ghost mid = entries@;
        entries.push((key.to_owned(), content));
        proof {
            lemma_assoc_push(mid, (entries@.last().0, entries@.last().1));
            assert(entries@.drop_last() =~= mid);
            assert(assoc_view(entries@) =~= assoc_view(mid).insert(key@, content_view));
            assert(assoc_view(mid).insert(key@, content_view) =~= old_vault.insert(
                key@,
                content_view,
            ));
            assert(distinct_keys(entries@));
        }
        self.entries = entries;
        Ok(())
    }

    fn link_env(&mut self, key: &str, dest_path: &str) -> (r: Result<(), KpvError>)
        ensures
            old(self).infallible() && valid_key(key@) && !old(self).world().contains_key(
                dest_path@,
            ) ==> r is Ok,
    {
        proof {
            use_type_invariant(&*self);
        }
        if let Err(e) = self.layout.ensure_valid_key(key) {
            return Err(e);
        }
        proof {
            lemma_assoc_contains(self.outside@, dest_path@);
        }
        if let Some(_i) = find_index(&self.outside, dest_path) {
            return Err(KpvError::EnvAlreadyExists);
        }
        if self.failing {
            return Err(KpvError::Io(ErrorKind::PermissionDenied));
        }
        let target = self.layout.key_env_path(key);
        let ghost old_world = self.world();
        let mut outside: Vec<(String, MemNode)> = Vec::new();
        core::mem::swap(&mut outside, &mut self.outside);
        let ghost mid = outside@;
        outside.push((dest_path.to_owned(), MemNode::Symlink(target)));
        proof {
            lemma_assoc_push(mid, (outside@.last().0, outside@.last().1));
            assert(outside@.drop_last() =~= mid);
            assert(assoc_view(outside@) =~= old_world.insert(
                dest_path@,
                FsNode::Symlink(entry_path(self.root(), key@)),
            ));
            assert(distinct_keys(outside@));
        }
        self.outside = outside;
        Ok(())
    }

    fn list_keys(&self) -> (r: Result<Vec<String>, KpvError>)
        ensures
            self.infallible() ==> r is Ok,
    {
        proof {
            use_type_invariant(&*self);
        }
        if self.failing {
            return Err(KpvError::Io(ErrorKind::Other));
        }
        let mut keys: Vec<String> = Vec::new();
        let mut i: usize = 0;
        while i < self.entries.len()
            invariant
                i <= self.entries@.len(),
                keys@.len() == i,
                forall|j: int| 0 <= j < i ==> keys@[j]@ == self.entries@[j].0@,
            decreases self.entries@.len() - i,
        {
            keys.push(self.entries[i].0.clone());
            i += 1;
        }
        proof {
            lemma_assoc_dom(self.entries@);
            let names = self.entries@.map_values(|p: (String, Vec<u8>)| p.0@);
            assert(crate::text::views_of(keys@) =~= names);
        }
        Ok(keys)
    }

    fn get_key_env_path(&self, key: &str) -> (r: String) {
        self.layout.key_env_path(key)
    }

    fn check_key_exists(&self, key: &str) -> (r: bool) {
        proof {
            use_type_invariant(&*self);
            lemma_assoc_contains(self.entries@, key@);
        }
        if !FilesystemStorage::is_key_valid(key) {
            return false;
        }
        match find_index(&self.entries, key) {
            Some(_i) => true,
            None => false,
        }
    }

    fn delete_env(&mut self, key: &str) -> (r: Result<(), KpvError>)
        ensures
            old(self).infallible() && valid_key(key@) ==> r is Ok,
    {
        proof {
            use_type_invariant(&*self);
        }
        if let Err(e) = self.layout.ensure_valid_key(key) {
            return Err(e);
        }
        if self.failing {
            return Err(KpvError::Io(ErrorKind::PermissionDenied));
        }
        let ghost old_vault = self.vault();
        proof {
            lemma_assoc_contains(self.entries@, key@);
        }
        let mut entries: Vec<(String, Vec<u8>)> = Vec::new();
        core::mem::swap(&mut entries, &mut self.entries);
        let ghost pre = entries@;
        match find_index(&entries, key) {
            Some(i) => {
                proof {
                    lemma_assoc_remove(pre, i as int);
                    lemma_distinct_remove(pre, i as int);
                }
                entries.remove(i);
            },
            None => {
                proof {
                    assert(!old_vault.contains_key(key@));
                    assert(old_vault.remove(key@) =~= old_vault);
                }
            },
        }
        self.entries = entries;
        Ok(())
    }

    fn path_is_file(&self, path: &str) -> (r: bool) {
        proof {
            use_type_invariant(&*self);
            lemma_assoc_contains(self.outside@, path@);
        }
        match find_index(&self.outside, path) {
            Some(i) => {
                proof {
                    lemma_assoc_index(self.outside@, path@, i as int);
                }
                match &self.outside[i].1 {
                    MemNode::File(_) => true,
                    _ => false,
                }
            },
            None => false,
        }
    }

    fn path_exists(&self, path: &str) -> (r: bool) {
        proof {
            use_type_invariant(&*self);
            lemma_assoc_contains(self.outside@, path@);
        }
        match find_index(&self.outside, path) {
            Some(_i) => true,
            None => false,
        }
    }
}

} // verus!
