//! A map from (parent inode, name) to inode, kept as a list with unique
//! keys.

use vstd::prelude::*;

verus! {

/// One remembered name: `name` inside directory inode `parent` is inode `ino`.
pub struct CacheEntry {
    pub parent: u64,
    pub name: String,
    pub ino: u64,
}

/// Remembered directory lookups: (parent inode, exact name) to inode.
pub struct NameCache {
    entries: Vec<CacheEntry>,
}

/// The key of a cache entry.
pub open spec fn entry_key(e: CacheEntry) -> (u64, Seq<char>) {
    (e.parent, e.name@)
}

impl NameCache {
    /// No key occurs twice.
    pub closed spec fn wf(self) -> bool {
        forall|i: int, j: int|
            0 <= i < j < self.entries@.len() ==> entry_key(#[trigger] self.entries@[i])
                != entry_key(#[trigger] self.entries@[j])
    }

    /// Whether some entry has key `k`.
    closed spec fn has_key(self, k: (u64, Seq<char>)) -> bool {
        exists|i: int| 0 <= i < self.entries@.len() && entry_key(#[trigger] self.entries@[i]) == k
    }

    /// The cache as a map from (parent inode, name) to inode.
    pub closed spec fn view(self) -> Map<(u64, Seq<char>), u64> {
        Map::new(
            |k: (u64, Seq<char>)| self.has_key(k),
            |k: (u64, Seq<char>)|
                self.entries@[choose|i: int|
                    0 <= i < self.entries@.len() && entry_key(#[trigger] self.entries@[i])
                        == k].ino,
        )
    }

    proof fn lemma_view_at(self, i: int)
        requires
            self.wf(),
            0 <= i < self.entries@.len(),
        ensures
            self.view().contains_key(entry_key(self.entries@[i])),
            self.view()[entry_key(self.entries@[i])] == self.entries@[i].ino,
    {
        let k = entry_key(self.entries@[i]);
        assert(self.has_key(k));
        let j = choose|j: int| 0 <= j < self.entries@.len() && entry_key(#[trigger] self.entries@[j]) == k;
        if j != i {
            if j < i {
                assert(entry_key(self.entries@[j]) != entry_key(self.entries@[i]));
            } else {
                assert(entry_key(self.entries@[i]) != entry_key(self.entries@[j]));
            }
        }
    }

    /// An empty cache.
    pub fn new() -> (c: NameCache)
        ensures
            c.wf(),
            c.view() == Map::<(u64, Seq<char>), u64>::empty(),
    {
        let c = NameCache { entries: Vec::new() };
        assert(c.view() =~= Map::<(u64, Seq<char>), u64>::empty());
        c
    }

    /// Position of the entry with key (`parent`, `name`).
    fn find(&self, parent: u64, name: &String) -> (r: Option<usize>)
        ensures
            r matches Some(i) ==> i < self.entries@.len() && entry_key(self.entries@[i as int]) == (
            parent,
            name@,
            ),
            r is None ==> !self.has_key((parent, name@)),
    {
        let n = self.entries.len();
        let mut i: usize = 0;
        while i < n
            invariant
                n == self.entries@.len(),
                i <= n,
                forall|k: int| 0 <= k < i ==> entry_key(#[trigger] self.entries@[k]) != (parent, name@),
            decreases n - i,
        {
            if self.entries[i].parent == parent && self.entries[i].name == *name {
                return Some(i);
            }
            i = i + 1;
        }
        None
    }

    /// The inode remembered for `name` in `parent`, if any.
    pub fn get(&self, parent: u64, name: &String) -> (r: Option<u64>)
        requires
            self.wf(),
        ensures
            r == (if self.view().contains_key((parent, name@)) {
                Some(self.view()[(parent, name@)])
            } else {
                None
            }),
    {
        match self.find(parent, name) {
            Some(i) => {
                proof {
                    self.lemma_view_at(i as int);
                }
                Some(self.entries[i].ino)
            },
            None => None,
        }
    }

    /// Remembers that `name` in `parent` is inode `ino`, replacing any
    /// earlier entry for that key.
    pub fn insert(&mut self, parent: u64, name: String, ino: u64)
        requires
            old(self).wf(),
        ensures
            final(self).wf(),
            final(self).view() == old(self).view().insert((parent, name@), ino),
    {
        let ghost old_self = *self;
        let ghost k = (parent, name@);
        match self.find(parent, &name) {
            Some(i) => {
                self.entries.set(i, CacheEntry { parent, name, ino });
                proof {
                    assert forall|a: int, b: int|
                        0 <= a < b < self.entries@.len() implies entry_key(
                        #[trigger] self.entries@[a],
                    ) != entry_key(#[trigger] self.entries@[b]) by {
                        assert(entry_key(old_self.entries@[a]) != entry_key(old_self.entries@[b]));
                        if a == i {
                            assert(entry_key(old_self.entries@[i as int]) == k);
                        }
                        if b == i {
                            assert(entry_key(old_self.entries@[i as int]) == k);
                        }
                    }
                    assert forall|kk: (u64, Seq<char>)| #[trigger]
                        self.has_key(kk) == old_self.has_key(kk) by {
                        if old_self.has_key(kk) {
                            let j = choose|j: int|
                                0 <= j < old_self.entries@.len() && entry_key(
                                    #[trigger] old_self.entries@[j],
                                ) == kk;
                            assert(entry_key(self.entries@[j]) == kk);
                        }
                        if self.has_key(kk) {
                            let j = choose|j: int|
                                0 <= j < self.entries@.len() && entry_key(
                                    #[trigger] self.entries@[j],
                                ) == kk;
                            assert(entry_key(old_self.entries@[j]) == kk);
                        }
                    }
                    assert forall|kk: (u64, Seq<char>)|
                        #[trigger] self.view().contains_key(kk) implies self.view()[kk]
                        == old_self.view().insert(k, ino)[kk] by {
                        let j = choose|j: int|
                            0 <= j < self.entries@.len() && entry_key(#[trigger] self.entries@[j])
                                == kk;
                        self.lemma_view_at(j);
                        if j != i {
                            old_self.lemma_view_at(j);
                        }
                    }
                    assert(self.view() =~= old_self.view().insert(k, ino));
                }
            },
            None => {
                self.entries.push(CacheEntry { parent, name, ino });
                proof {
                    let n = old_self.entries@.len() as int;
                    assert forall|a: int, b: int|
                        0 <= a < b < self.entries@.len() implies entry_key(
                        #[trigger] self.entries@[a],
                    ) != entry_key(#[trigger] self.entries@[b]) by {
                        if b == n {
                            assert(entry_key(old_self.entries@[a]) != k);
                        } else {
                            assert(entry_key(old_self.entries@[a]) != entry_key(
                                old_self.entries@[b],
                            ));
                        }
                    }
                    assert forall|kk: (u64, Seq<char>)| #[trigger]
                        self.has_key(kk) == (old_self.has_key(kk) || kk == k) by {
                        if old_self.has_key(kk) {
                            let j = choose|j: int|
                                0 <= j < old_self.entries@.len() && entry_key(
                                    #[trigger] old_self.entries@[j],
                                ) == kk;
                            assert(entry_key(self.entries@[j]) == kk);
                        }
                        if kk == k {
                            assert(entry_key(self.entries@[n]) == kk);
                        }
                        if self.has_key(kk) {
                            let j = choose|j: int|
                                0 <= j < self.entries@.len() && entry_key(
                                    #[trigger] self.entries@[j],
                                ) == kk;
                            if j < n {
                                assert(entry_key(old_self.entries@[j]) == kk);
                            }
                        }
                    }
                    assert forall|kk: (u64, Seq<char>)|
                        #[trigger] self.view().contains_key(kk) implies self.view()[kk]
                        == old_self.view().insert(k, ino)[kk] by {
                        let j = choose|j: int|
                            0 <= j < self.entries@.len() && entry_key(#[trigger] self.entries@[j])
                                == kk;
                        self.lemma_view_at(j);
                        if j < n {
                            old_self.lemma_view_at(j);
                        }
                    }
                    assert(self.view() =~= old_self.view().insert(k, ino));
                }
            },
        }
    }

    /// Forgets the entry for `name` in `parent`, returning its inode.
    pub fn remove(&mut self, parent: u64, name: &String) -> (r: Option<u64>)
        requires
            old(self).wf(),
        ensures
            final(self).wf(),
            final(self).view() == old(self).view().remove((parent, name@)),
            r == (if old(self).view().contains_key((parent, name@)) {
                Some(old(self).view()[(parent, name@)])
            } else {
                None
            }),
    {
        let ghost old_self = *self;
        let ghost k = (parent, name@);
        match self.find(parent, name) {
            Some(i) => {
                proof {
                    old_self.lemma_view_at(i as int);
                }
                let e = self.entries.remove(i);
                proof {
                    let n = old_self.entries@.len() as int;
                    assert forall|a: int, b: int|
                        0 <= a < b < self.entries@.len() implies entry_key(
                        #[trigger] self.entries@[a],
                    ) != entry_key(#[trigger] self.entries@[b]) by {
                        let oa = if a < i { a } else { a + 1 };
                        let ob = if b < i { b } else { b + 1 };
                        assert(self.entries@[a] == old_self.entries@[oa]);
                        assert(self.entries@[b] == old_self.entries@[ob]);
                        assert(entry_key(old_self.entries@[oa]) != entry_key(old_self.entries@[ob]));
                    }
                    assert forall|kk: (u64, Seq<char>)| #[trigger]
                        self.has_key(kk) == (old_self.has_key(kk) && kk != k) by {
                        if self.has_key(kk) {
                            let j = choose|j: int|
                                0 <= j < self.entries@.len() && entry_key(
                                    #[trigger] self.entries@[j],
                                ) == kk;
                            let oj = if j < i { j } else { j + 1 };
                            assert(self.entries@[j] == old_self.entries@[oj]);
                            assert(entry_key(old_self.entries@[oj]) == kk);
                            if kk == k {
                                if oj < i {
                                    assert(entry_key(old_self.entries@[oj]) != entry_key(
                                        old_self.entries@[i as int],
                                    ));
                                } else {
                                    assert(entry_key(old_self.entries@[i as int]) != entry_key(
                                        old_self.entries@[oj],
                                    ));
                                }
                            }
                        }
                        if old_self.has_key(kk) && kk != k {
                            let j = choose|j: int|
                                0 <= j < old_self.entries@.len() && entry_key(
                                    #[trigger] old_self.entries@[j],
                                ) == kk;
                            assert(j != i);
                            let nj = if j < i { j } else { j - 1 };
                            assert(self.entries@[nj] == old_self.entries@[j]);
                            assert(entry_key(self.entries@[nj]) == kk);
                        }
                    }
                    assert forall|kk: (u64, Seq<char>)|
                        #[trigger] self.view().contains_key(kk) implies self.view()[kk]
                        == old_self.view().remove(k)[kk] by {
                        let j = choose|j: int|
                            0 <= j < self.entries@.len() && entry_key(#[trigger] self.entries@[j])
                                == kk;
                        self.lemma_view_at(j);
                        let oj = if j < i { j } else { j + 1 };
                        assert(self.entries@[j] == old_self.entries@[oj]);
                        old_self.lemma_view_at(oj);
                    }
                    assert(self.view() =~= old_self.view().remove(k));
                }
                Some(e.ino)
            },
            None => {
                assert(self.view() =~= old_self.view().remove(k));
                None
            },
        }
    }
}

} // verus!
