//! The file store a state's built-in file operations execute against.
//!
//! The store is a flat sequence of path/content entries, one per path,
//! in the order the paths were first written.  Its view is that
//! sequence; `map_of` derives the path-to-content mapping the read
//! contracts speak of.

use vstd::prelude::*;

use crate::messaging::DirItemInfo;
use crate::messaging::DirItemInfoView;

verus! {

/// One stored file.
pub struct FsEntry {
    pub path: String,
    pub content: String,
}

/// The store.
pub struct MemoryFs {
    pub entries: Vec<FsEntry>,
}

/// The mapping a sequence of entries denotes.
pub open spec fn map_of(s: Seq<(Seq<char>, Seq<char>)>) -> Map<Seq<char>, Seq<char>>
    decreases s.len(),
{
    if s.len() == 0 {
        Map::empty()
    } else {
        map_of(s.skip(1)).insert(s[0].0, s[0].1)
    }
}

/// Where `path` stands in the sequence.
pub open spec fn key_index(s: Seq<(Seq<char>, Seq<char>)>, path: Seq<char>) -> int {
    choose|i: int| 0 <= i < s.len() && s[i].0 == path
}

/// Whether the sequence holds `path`.
pub open spec fn has_key(s: Seq<(Seq<char>, Seq<char>)>, path: Seq<char>) -> bool {
    exists|i: int| 0 <= i < s.len() && #[trigger] s[i].0 == path
}

/// What a write leaves behind: the one entry under the path replaced in
/// place, or a fresh entry appended.
pub open spec fn fs_write_spec(
    s: Seq<(Seq<char>, Seq<char>)>,
    path: Seq<char>,
    content: Seq<char>,
) -> Seq<(Seq<char>, Seq<char>)> {
    if has_key(s, path) {
        s.update(key_index(s, path), (path, content))
    } else {
        s.push((path, content))
    }
}

/// The listing of the entries whose path extends `dir`, in store order.
pub open spec fn list_dir_spec(s: Seq<(Seq<char>, Seq<char>)>, dir: Seq<char>) -> Seq<
    DirItemInfoView,
>
    decreases s.len(),
{
    if s.len() == 0 {
        Seq::empty()
    } else {
        let rest = list_dir_spec(s.skip(1), dir);
        if dir.is_prefix_of(s[0].0) {
            seq![DirItemInfoView { path: s[0].0, is_file: true }] + rest
        } else {
            rest
        }
    }
}

/// Whether `p` is one of the characters-for-characters prefixes of `s`.
pub fn str_has_prefix(s: &str, p: &str) -> (r: bool)
    ensures
        r == p@.is_prefix_of(s@),
{
    let sl = s.unicode_len();
    let pl = p.unicode_len();
    if pl > sl {
        return false;
    }
    let mut i: usize = 0;
    while i < pl
        invariant
            i <= pl,
            pl == p@.len(),
            sl == s@.len(),
            pl <= sl,
            forall|j: int| 0 <= j < i ==> s@[j] == p@[j],
        decreases pl - i,
    {
        if s.get_char(i) != p.get_char(i) {
            proof {
                if p@.is_prefix_of(s@) {
                    assert(p@ =~= s@.subrange(0, pl as int));
                    assert(p@[i as int] == s@[i as int]);
                }
            }
            return false;
        }
        i = i + 1;
    }
    proof {
        assert(p@ =~= s@.subrange(0, pl as int));
    }
    true
}

impl MemoryFs {
    /// The entries, first-written first.
    pub open spec fn view(self) -> Seq<(Seq<char>, Seq<char>)> {
        self.entries@.map_values(|e: FsEntry| (e.path@, e.content@))
    }

    /// One path, one entry.
    pub open spec fn wf(self) -> bool {
        forall|i: int, j: int|
            0 <= i < self@.len() && 0 <= j < self@.len() && i != j ==> (#[trigger] self@[i]).0 != (
            #[trigger] self@[j]).0
    }

    /// An empty store.
    pub fn new() -> (r: MemoryFs)
        ensures
            r.wf(),
            r@ == Seq::<(Seq<char>, Seq<char>)>::empty(),
    {
        let r = MemoryFs { entries: Vec::new() };
        proof {
            assert(r@ =~= Seq::<(Seq<char>, Seq<char>)>::empty());
        }
        r
    }

    /// The only position whose entry holds the path.
    proof fn lemma_key_index(self, path: Seq<char>, i: int)
        requires
            self.wf(),
            0 <= i < self@.len(),
            self@[i].0 == path,
        ensures
            key_index(self@, path) == i,
            has_key(self@, path),
    {
        assert(has_key(self@, path));
        let j = key_index(self@, path);
        assert(0 <= j < self@.len() && self@[j].0 == path);
    }

    /// The position of the entry under `path`, if any.
    fn find_path(&self, path: &String) -> (r: Option<usize>)
        ensures
            r matches Some(i) ==> 0 <= i < self@.len() && self@[i as int].0 == path@,
            r is None ==> !has_key(self@, path@),
    {
        let mut i: usize = 0;
        while i < self.entries.len()
            invariant
                i <= self@.len(),
                self@.len() == self.entries@.len(),
                forall|j: int| 0 <= j < i ==> (#[trigger] self@[j]).0 != path@,
            decreases self@.len() - i,
        {
            if self.entries[i].path == *path {
                return Some(i);
            }
            i = i + 1;
        }
        None
    }

    /// Writes the content under the path: the entry under an existing
    /// path is replaced in place, a fresh path is appended.
    pub fn write_file(&mut self, path: String, content: String)
        requires
            old(self).wf(),
        ensures
            final(self).wf(),
            final(self)@ == fs_write_spec(old(self)@, path@, content@),
    {
        let ghost pre = *self;
        let found = self.find_path(&path);
        match found {
            Some(i) => {
                proof {
                    pre.lemma_key_index(path@, i as int);
                }
                self.entries.set(i, FsEntry { path, content });
                proof {
                    assert(self@ =~= pre@.update(key_index(pre@, path@), (path@, content@)));
                    assert forall|a: int, b: int|
                        0 <= a < self@.len() && 0 <= b < self@.len() && a != b implies (
                    #[trigger] self@[a]).0 != (#[trigger] self@[b]).0 by {
                        assert(pre@[a].0 != pre@[b].0);
                        assert(a == i as int || self@[a].0 == pre@[a].0);
                        assert(b == i as int || self@[b].0 == pre@[b].0);
                    }
                }
            },
            None => {
                self.entries.push(FsEntry { path, content });
                proof {
                    assert(self@ =~= pre@.push((path@, content@)));
                    let n = pre@.len() as int;
                    assert forall|a: int, b: int|
                        0 <= a < self@.len() && 0 <= b < self@.len() && a != b implies (
                    #[trigger] self@[a]).0 != (#[trigger] self@[b]).0 by {
                        if a < n && b < n {
                            assert(pre@[a].0 != pre@[b].0);
                        } else if a == n {
                            assert(self@[b].0 == pre@[b].0);
                            assert(!(pre@[b].0 == path@));
                        } else {
                            assert(self@[a].0 == pre@[a].0);
                            assert(!(pre@[a].0 == path@));
                        }
                    }
                }
            },
        }
    }

    /// A copy of the content under the path, if the path holds a file.
    pub fn read_file(&self, path: &String) -> (r: Option<String>)
        requires
            self.wf(),
        ensures
            has_key(self@, path@) ==> (r matches Some(c) && map_of(self@).contains_key(path@)
                && c@ == map_of(self@)[path@]),
            !has_key(self@, path@) ==> r is None,
    {
        let found = self.find_path(path);
        match found {
            Some(i) => {
                proof {
                    self.lemma_key_index(path@, i as int);
                    lemma_map_of_key(self@, path@, i as int);
                }
                Some(self.entries[i].content.clone())
            },
            None => None,
        }
    }

    /// The listing of the paths that extend `dir`, in store order; every
    /// entry is a file.
    pub fn list_dir(&self, dir: &String) -> (r: Vec<DirItemInfo>)
        ensures
            r@.map_values(|d: DirItemInfo| d@) == list_dir_spec(self@, dir@),
    {
        let mut r: Vec<DirItemInfo> = Vec::new();
        let mut i: usize = 0;
        while i < self.entries.len()
            invariant
                i <= self@.len(),
                self@.len() == self.entries@.len(),
                r@.map_values(|d: DirItemInfo| d@) == list_dir_spec(self@.take(i as int), dir@),
            decreases self@.len() - i,
        {
            let ghost pre = r@.map_values(|d: DirItemInfo| d@);
            let e = &self.entries[i];
            if str_has_prefix(e.path.as_str(), dir.as_str()) {
                r.push(DirItemInfo { path: e.path.clone(), is_file: true });
                proof {
                    assert(r@.map_values(|d: DirItemInfo| d@) =~= pre.push(
                        DirItemInfoView { path: self@[i as int].0, is_file: true },
                    ));
                }
            }
            proof {
                lemma_list_dir_snoc(self@, dir@, i as int);
                assert(r@.map_values(|d: DirItemInfo| d@) =~= list_dir_spec(
                    self@.take(i as int + 1),
                    dir@,
                ));
            }
            i = i + 1;
        }
        proof {
            assert(self@.take(self@.len() as int) =~= self@);
        }
        r
    }
}

/// The mapping holds exactly the keys of the entries, each with the
/// content stored beside it — under well-formedness, the content of the
/// one entry whose path it is.
pub proof fn lemma_map_of_key(s: Seq<(Seq<char>, Seq<char>)>, path: Seq<char>, i: int)
    requires
        0 <= i < s.len(),
        s[i].0 == path,
        forall|a: int, b: int|
            0 <= a < s.len() && 0 <= b < s.len() && a != b ==> (#[trigger] s[a]).0 != (
            #[trigger] s[b]).0,
    ensures
        map_of(s).contains_key(path),
        map_of(s)[path] == s[i].1,
    decreases s.len(),
{
    if i == 0 {
        lemma_map_of_absent(s.skip(1), path);
    } else {
        assert(s.skip(1)[i - 1] == s[i]);
        lemma_map_of_key(s.skip(1), path, i - 1);
        assert(s[0].0 != path);
    }
}

/// A path under no entry is not in the mapping.
pub proof fn lemma_map_of_absent(s: Seq<(Seq<char>, Seq<char>)>, path: Seq<char>)
    requires
        forall|i: int| 0 <= i < s.len() ==> (#[trigger] s[i]).0 != path,
    ensures
        !map_of(s).contains_key(path),
    decreases s.len(),
{
    if s.len() > 0 {
        assert(forall|i: int|
            0 <= i < s.skip(1).len() ==> (#[trigger] s.skip(1)[i]).0 == s[i + 1].0);
        lemma_map_of_absent(s.skip(1), path);
    }
}

/// Listing one entry more extends the listing by that entry exactly when
/// its path extends the directory.
proof fn lemma_list_dir_snoc(s: Seq<(Seq<char>, Seq<char>)>, dir: Seq<char>, i: int)
    requires
        0 <= i < s.len(),
    ensures
        list_dir_spec(s.take(i + 1), dir) == if dir.is_prefix_of(s[i].0) {
            list_dir_spec(s.take(i), dir).push(DirItemInfoView { path: s[i].0, is_file: true })
        } else {
            list_dir_spec(s.take(i), dir)
        },
{
    lemma_list_dir_snoc_general(s.take(i), (s[i].0, s[i].1), dir);
    assert(s.take(i).push((s[i].0, s[i].1)) =~= s.take(i + 1));
}

proof fn lemma_list_dir_snoc_general(
    s: Seq<(Seq<char>, Seq<char>)>,
    e: (Seq<char>, Seq<char>),
    dir: Seq<char>,
)
    ensures
        list_dir_spec(s.push(e), dir) == if dir.is_prefix_of(e.0) {
            list_dir_spec(s, dir).push(DirItemInfoView { path: e.0, is_file: true })
        } else {
            list_dir_spec(s, dir)
        },
    decreases s.len(),
{
    let ghost target = if dir.is_prefix_of(e.0) {
        list_dir_spec(s, dir).push(DirItemInfoView { path: e.0, is_file: true })
    } else {
        list_dir_spec(s, dir)
    };
    if s.len() == 0 {
        assert(s.push(e)[0] == e);
        assert(s.push(e).skip(1) =~= Seq::<(Seq<char>, Seq<char>)>::empty());
        assert(list_dir_spec(Seq::<(Seq<char>, Seq<char>)>::empty(), dir) =~= Seq::<
            DirItemInfoView,
        >::empty());
        assert(list_dir_spec(s.push(e), dir) =~= target);
    } else {
        assert(s.push(e)[0] == s[0]);
        assert(s.push(e).skip(1) =~= s.skip(1).push(e));
        lemma_list_dir_snoc_general(s.skip(1), e, dir);
        assert(list_dir_spec(s.push(e), dir) =~= target);
    }
    assert(list_dir_spec(s.push(e), dir) == target);
}

/// A listing names a path exactly when the store holds it and it extends
/// the directory: nothing is invented, nothing with the prefix is left
/// out.
pub proof fn lemma_list_dir_complete(s: Seq<(Seq<char>, Seq<char>)>, dir: Seq<char>, p: Seq<char>)
    ensures
        (exists|j: int|
            0 <= j < list_dir_spec(s, dir).len() && (#[trigger] list_dir_spec(s, dir)[j]).path
                == p) <==> (has_key(s, p) && dir.is_prefix_of(p)),
    decreases s.len(),
{
    if s.len() == 0 {
    } else {
        lemma_list_dir_complete(s.skip(1), dir, p);
        let rest = list_dir_spec(s.skip(1), dir);
        let whole = list_dir_spec(s, dir);
        if dir.is_prefix_of(s[0].0) {
            assert(whole == seq![DirItemInfoView { path: s[0].0, is_file: true }] + rest);
            assert(whole.len() == 1 + rest.len());
            assert(whole[0] == DirItemInfoView { path: s[0].0, is_file: true });
            assert(forall|j: int| 0 <= j < rest.len() ==> whole[j + 1] == #[trigger] rest[j]);
        } else {
            assert(whole == rest);
        }
        if has_key(s, p) && dir.is_prefix_of(p) {
            let i = choose|i: int| 0 <= i < s.len() && #[trigger] s[i].0 == p;
            if i == 0 {
                assert(dir.is_prefix_of(s[0].0));
                assert((#[trigger] whole[0]).path == p);
            } else {
                assert(s.skip(1)[i - 1] == s[i]);
                assert(s.skip(1)[i - 1].0 == p);
                assert(has_key(s.skip(1), p));
                let j = choose|j: int| 0 <= j < rest.len() && (#[trigger] rest[j]).path == p;
                if dir.is_prefix_of(s[0].0) {
                    assert((#[trigger] whole[j + 1]).path == p);
                } else {
                    assert((#[trigger] whole[j]).path == p);
                }
            }
        }
        if exists|j: int| 0 <= j < whole.len() && (#[trigger] whole[j]).path == p {
            let j = choose|j: int| 0 <= j < whole.len() && (#[trigger] whole[j]).path == p;
            if dir.is_prefix_of(s[0].0) {
                if j == 0 {
                    assert(s[0].0 == p);
                    assert(has_key(s, p));
                } else {
                    assert((#[trigger] rest[j - 1]).path == p);
                    assert(has_key(s.skip(1), p) && dir.is_prefix_of(p));
                    let i = choose|i: int| 0 <= i < s.skip(1).len() && #[trigger] s.skip(1)[i].0 == p;
                    assert(s.skip(1)[i] == s[i + 1]);
                    assert(s[i + 1].0 == p);
                    assert(has_key(s, p));
                }
            } else {
                assert((#[trigger] rest[j]).path == p);
                assert(has_key(s.skip(1), p) && dir.is_prefix_of(p));
                let i = choose|i: int| 0 <= i < s.skip(1).len() && #[trigger] s.skip(1)[i].0 == p;
                assert(s.skip(1)[i] == s[i + 1]);
                assert(s[i + 1].0 == p);
                assert(has_key(s, p));
            }
        }
    }
}

/// Writing then reading through the store: after a write, the mapping
/// holds exactly the written content under the written path, and every
/// other path is untouched.
pub proof fn lemma_write_read(
    s: Seq<(Seq<char>, Seq<char>)>,
    path: Seq<char>,
    content: Seq<char>,
)
    requires
        forall|a: int, b: int|
            0 <= a < s.len() && 0 <= b < s.len() && a != b ==> (#[trigger] s[a]).0 != (
            #[trigger] s[b]).0,
    ensures
        map_of(fs_write_spec(s, path, content)) == map_of(s).insert(path, content),
{
    let w = fs_write_spec(s, path, content);
    assert forall|a: int, b: int|
        0 <= a < w.len() && 0 <= b < w.len() && a != b implies (#[trigger] w[a]).0 != (
    #[trigger] w[b]).0 by {
        if has_key(s, path) {
            let i = key_index(s, path);
            assert(0 <= i < s.len() && s[i].0 == path);
            assert(a == i || w[a].0 == s[a].0);
            assert(b == i || w[b].0 == s[b].0);
            assert(s[a].0 != s[b].0);
        } else {
            let n = s.len() as int;
            if a < n && b < n {
                assert(s[a].0 != s[b].0);
            } else if a == n {
                assert(w[b].0 == s[b].0);
            } else {
                assert(w[a].0 == s[a].0);
            }
        }
    }
    if has_key(s, path) {
        let i = key_index(s, path);
        assert(0 <= i < s.len() && s[i].0 == path);
        assert(w[i].0 == path && w[i].1 == content);
        lemma_map_of_index_all(w);
        lemma_map_of_index_all(s);
        assert(map_of(w) =~= map_of(s).insert(path, content)) by {
            lemma_map_of_domain(w);
            lemma_map_of_domain(s);
            assert forall|k: Seq<char>| #[trigger]
                map_of(w).contains_key(k) implies map_of(s).insert(path, content).contains_key(
                k,
            ) && map_of(w)[k] == map_of(s).insert(path, content)[k] by {
                let j = choose|j: int| 0 <= j < w.len() && #[trigger] w[j].0 == k;
                if j == i {
                } else {
                    assert(w[j] == s[j]);
                    lemma_map_of_key(s, k, j);
                }
            }
            assert forall|k: Seq<char>| #[trigger]
                map_of(s).insert(path, content).contains_key(k) implies map_of(w).contains_key(
                k,
            ) by {
                if k == path {
                    assert(has_key(w, k));
                } else {
                    let j = choose|j: int| 0 <= j < s.len() && #[trigger] s[j].0 == k;
                    assert(w[j].0 == k);
                    assert(has_key(w, k));
                }
            }
        }
    } else {
        let n = s.len() as int;
        assert(w[n].0 == path && w[n].1 == content);
        lemma_map_of_domain(w);
        lemma_map_of_domain(s);
        assert(map_of(w) =~= map_of(s).insert(path, content)) by {
            assert forall|k: Seq<char>| #[trigger]
                map_of(w).contains_key(k) implies map_of(s).insert(path, content).contains_key(
                k,
            ) && map_of(w)[k] == map_of(s).insert(path, content)[k] by {
                let j = choose|j: int| 0 <= j < w.len() && #[trigger] w[j].0 == k;
                lemma_map_of_key(w, k, j);
                if j == n {
                } else {
                    assert(w[j] == s[j]);
                    lemma_map_of_key(s, k, j);
                    assert(k != path) by {
                        if k == path {
                            assert(has_key(s, path));
                        }
                    }
                }
            }
            assert forall|k: Seq<char>| #[trigger]
                map_of(s).insert(path, content).contains_key(k) implies map_of(w).contains_key(
                k,
            ) by {
                if k == path {
                    assert(has_key(w, k));
                } else {
                    let j = choose|j: int| 0 <= j < s.len() && #[trigger] s[j].0 == k;
                    assert(w[j].0 == k);
                    assert(has_key(w, k));
                }
            }
        }
    }
}

/// Every entry of a well-formed store is in its mapping.
proof fn lemma_map_of_index_all(s: Seq<(Seq<char>, Seq<char>)>)
    requires
        forall|a: int, b: int|
            0 <= a < s.len() && 0 <= b < s.len() && a != b ==> (#[trigger] s[a]).0 != (
            #[trigger] s[b]).0,
    ensures
        forall|i: int|
            0 <= i < s.len() ==> map_of(s).contains_key((#[trigger] s[i]).0) && map_of(s)[s[i].0]
                == s[i].1,
{
    assert forall|i: int| 0 <= i < s.len() implies map_of(s).contains_key((#[trigger] s[i]).0)
        && map_of(s)[s[i].0] == s[i].1 by {
        lemma_map_of_key(s, s[i].0, i);
    }
}

/// The mapping's keys are exactly the stored paths.
pub proof fn lemma_map_of_domain(s: Seq<(Seq<char>, Seq<char>)>)
    ensures
        forall|k: Seq<char>| #[trigger] map_of(s).contains_key(k) <==> has_key(s, k),
    decreases s.len(),
{
    if s.len() > 0 {
        lemma_map_of_domain(s.skip(1));
        assert forall|k: Seq<char>| #[trigger] map_of(s).contains_key(k) <==> has_key(s, k) by {
            if map_of(s).contains_key(k) {
                if k == s[0].0 {
                    assert(s[0].0 == k);
                    assert(has_key(s, k));
                } else {
                    assert(map_of(s.skip(1)).contains_key(k));
                    assert(has_key(s.skip(1), k));
                    let i = choose|i: int| 0 <= i < s.skip(1).len() && #[trigger] s.skip(1)[i].0 == k;
                    assert(s.skip(1)[i] == s[i + 1]);
                    assert(s[i + 1].0 == k);
                    assert(has_key(s, k));
                }
            }
            if has_key(s, k) {
                let i = choose|i: int| 0 <= i < s.len() && #[trigger] s[i].0 == k;
                if i == 0 {
                    assert(map_of(s).contains_key(k));
                } else {
                    assert(s.skip(1)[i - 1] == s[i]);
                    assert(s.skip(1)[i - 1].0 == k);
                    assert(has_key(s.skip(1), k));
                    assert(map_of(s.skip(1)).contains_key(k));
                    assert(map_of(s).contains_key(k));
                }
            }
        }
    }
}

} // verus!
