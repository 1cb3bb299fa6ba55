use vstd::prelude::*;

use crate::error::ErrorKind;
use crate::error::TenxError;

verus! {

/// A finite mapping from relative paths to file text, with each path at most once.
///
/// It holds a patch's pre-images, the scratch copy a patch is transformed in, and the
/// working tree as the core sees it.
pub struct FileMap {
    entries: Vec<(String, String)>,
    model: Ghost<Map<Seq<char>, Seq<char>>>,
}

impl View for FileMap {
    type V = Map<Seq<char>, Seq<char>>;

    closed spec fn view(&self) -> Map<Seq<char>, Seq<char>> {
        self.model@
    }
}

impl FileMap {
    /// Each path is held at most once, and the entries are what the view says.
    pub closed spec fn wf(&self) -> bool {
        &&& forall|i: int, j: int|
            0 <= i < j < self.entries@.len() ==> self.entries@[i].0@ != self.entries@[j].0@
        &&& forall|i: int|
            0 <= i < self.entries@.len() ==> #[trigger] self.model@.contains_key(
                self.entries@[i].0@,
            ) && self.model@[self.entries@[i].0@] == self.entries@[i].1@
        &&& forall|k: Seq<char>|
            #[trigger] self.model@.contains_key(k) ==> exists|i: int|
                0 <= i < self.entries@.len() && self.entries@[i].0@ == k
    }

    /// An empty map.
    pub fn new() -> (r: FileMap)
        ensures
            r.wf(),
            r@ == Map::<Seq<char>, Seq<char>>::empty(),
    {
        FileMap { entries: Vec::new(), model: Ghost(Map::empty()) }
    }

    /// The position of `path` among the entries.
    fn position(&self, path: &String) -> (r: Option<usize>)
        requires
            self.wf(),
        ensures
            match r {
                Some(i) => i < self.entries@.len() && self.entries@[i as int].0@ == path@,
                None => !self@.contains_key(path@),
            },
    {
        let mut i: usize = 0;
        while i < self.entries.len()
            invariant
                i <= self.entries@.len(),
                forall|k: int| 0 <= k < i ==> self.entries@[k].0@ != path@,
            decreases self.entries.len() - i,
        {
            if self.entries[i].0 == *path {
                return Some(i);
            }
            i = i + 1;
        }
        None
    }

    /// Whether `path` has an entry.
    pub fn contains(&self, path: &String) -> (r: bool)
        requires
            self.wf(),
        ensures
            r == self@.contains_key(path@),
    {
        self.position(path).is_some()
    }

    /// The text held for `path`, if any.
    pub fn get(&self, path: &String) -> (r: Option<&String>)
        requires
            self.wf(),
        ensures
            match r {
                Some(t) => self@.contains_key(path@) && t@ == self@[path@],
                None => !self@.contains_key(path@),
            },
    {
        match self.position(path) {
            Some(i) => {
                assert(self.model@.contains_key(self.entries@[i as int].0@));
                Some(&self.entries[i].1)
            },
            None => None,
        }
    }

    /// Sets the text of `path`, adding an entry where there is none.
    pub fn insert(&mut self, path: String, text: String)
        requires
            old(self).wf(),
        ensures
            final(self).wf(),
            final(self)@ == old(self)@.insert(path@, text@),
    {
        match self.position(&path) {
            Some(i) => {
                let ghost old_entries = self.entries@;
                let ghost k = path@;
                self.entries.set(i, (path, text));
                self.model = Ghost(self.model@.insert(k, text@));
                assert forall|j: int| 0 <= j < self.entries@.len() implies #[trigger] self.model@.contains_key(
                    self.entries@[j].0@,
                ) && self.model@[self.entries@[j].0@] == self.entries@[j].1@ by {
                    if j != i {
                        assert(old_entries[j].0@ != k);
                    }
                }
                assert forall|q: Seq<char>| #[trigger] self.model@.contains_key(q) implies exists|j: int|
                    0 <= j < self.entries@.len() && self.entries@[j].0@ == q by {
                    if q != k {
                        let j = choose|j: int| 0 <= j < old_entries.len() && old_entries[j].0@ == q;
                        assert(self.entries@[j].0@ == q);
                    } else {
                        assert(self.entries@[i as int].0@ == q);
                    }
                }
            },
            None => {
                let ghost old_entries = self.entries@;
                let ghost k = path@;
                let ghost t = text@;
                self.entries.push((path, text));
                self.model = Ghost(self.model@.insert(k, t));
                assert forall|j: int| 0 <= j < self.entries@.len() implies #[trigger] self.model@.contains_key(
                    self.entries@[j].0@,
                ) && self.model@[self.entries@[j].0@] == self.entries@[j].1@ by {
                    if j < old_entries.len() {
                        assert(old_entries[j].0@ != k);
                        assert(self.entries@[j] == old_entries[j]);
                    }
                }
                assert forall|q: Seq<char>| #[trigger] self.model@.contains_key(q) implies exists|j: int|
                    0 <= j < self.entries@.len() && self.entries@[j].0@ == q by {
                    if q != k {
                        let j = choose|j: int| 0 <= j < old_entries.len() && old_entries[j].0@ == q;
                        assert(self.entries@[j] == old_entries[j]);
                    } else {
                        assert(self.entries@[old_entries.len() as int].0@ == q);
                    }
                }
                assert forall|a: int, b: int|
                    0 <= a < b < self.entries@.len() implies self.entries@[a].0@
                    != self.entries@[b].0@ by {
                    if b == old_entries.len() {
                        assert(self.model@.contains_key(old_entries[a].0@));
                    }
                }
            },
        }
    }

    /// Drops the entry of `path`, if there is one.
    pub fn remove(&mut self, path: &String)
        requires
            old(self).wf(),
        ensures
            final(self).wf(),
            final(self)@ == old(self)@.remove(path@),
    {
        match self.position(path) {
            None => {
                assert(self@ =~= old(self)@.remove(path@));
            },
            Some(i) => {
                let ghost old_entries = self.entries@;
                let ghost k = path@;
                let _ = self.entries.remove(i);
                self.model = Ghost(self.model@.remove(k));
                assert(self.entries@ =~= old_entries.remove(i as int));
                assert forall|a: int, b: int|
                    0 <= a < b < self.entries@.len() implies self.entries@[a].0@
                    != self.entries@[b].0@ by {
                    let oa = if a < i { a } else { a + 1 };
                    let ob = if b < i { b } else { b + 1 };
                    assert(self.entries@[a] == old_entries[oa]);
                    assert(self.entries@[b] == old_entries[ob]);
                }
                assert forall|j: int| 0 <= j < self.entries@.len() implies #[trigger] self.model@.contains_key(
                    self.entries@[j].0@,
                ) && self.model@[self.entries@[j].0@] == self.entries@[j].1@ by {
                    let oj = if j < i { j } else { j + 1 };
                    assert(self.entries@[j] == old_entries[oj]);
                    assert(old_entries[oj].0@ != k);
                    assert(old(self).model@.contains_key(old_entries[oj].0@));
                }
                assert forall|q: Seq<char>| #[trigger] self.model@.contains_key(q) implies exists|j: int|
                    0 <= j < self.entries@.len() && self.entries@[j].0@ == q by {
                    assert(old(self).model@.contains_key(q));
                    let oj = choose|oj: int| 0 <= oj < old_entries.len() && old_entries[oj].0@ == q;
                    assert(oj != i);
                    let j = if oj < i { oj } else { oj - 1 };
                    assert(self.entries@[j] == old_entries[oj]);
                }
            },
        }
    }

    /// A copy of the map.
    pub fn duplicate(&self) -> (r: FileMap)
        requires
            self.wf(),
        ensures
            r.wf(),
            r@ == self@,
    {
        let mut r = FileMap::new();
        let mut i: usize = 0;
        while i < self.entries.len()
            invariant
                r.wf(),
                self.wf(),
                i <= self.entries@.len(),
                forall|k: Seq<char>| #[trigger]
                    r@.contains_key(k) <==> exists|j: int|
                        0 <= j < i && self.entries@[j].0@ == k,
                forall|j: int| 0 <= j < i ==> #[trigger] r@[self.entries@[j].0@] == self.entries@[j].1@,
            decreases self.entries.len() - i,
        {
            let ghost before = r@;
            r.insert(self.entries[i].0.clone(), self.entries[i].1.clone());
            proof {
                assert forall|k: Seq<char>| #[trigger] r@.contains_key(k) <==> exists|j: int|
                    0 <= j < i + 1 && self.entries@[j].0@ == k by {
                    if r@.contains_key(k) && k != self.entries@[i as int].0@ {
                        assert(before.contains_key(k));
                    }
                }
                assert forall|j: int| 0 <= j < i + 1 implies #[trigger] r@[self.entries@[j].0@]
                    == self.entries@[j].1@ by {
                    if j < i {
                        assert(self.entries@[j].0@ != self.entries@[i as int].0@);
                    }
                }
            }
            i = i + 1;
        }
        assert(r@ =~= self@);
        r
    }

    /// The paths that have an entry, each once.
    pub fn paths(&self) -> (r: Vec<String>)
        requires
            self.wf(),
        ensures
            r@.len() == self@.dom().len(),
            forall|k: Seq<char>| self@.contains_key(k) <==> exists|j: int|
                0 <= j < r@.len() && #[trigger] r@[j]@ == k,
            forall|a: int, b: int| 0 <= a < b < r@.len() ==> r@[a]@ != r@[b]@,
    {
        let mut r: Vec<String> = Vec::new();
        let mut i: usize = 0;
        while i < self.entries.len()
            invariant
                self.wf(),
                i <= self.entries@.len(),
                r@.len() == i,
                forall|j: int| 0 <= j < i ==> #[trigger] r@[j]@ == self.entries@[j].0@,
            decreases self.entries.len() - i,
        {
            r.push(self.entries[i].0.clone());
            i = i + 1;
        }
        proof {
            self.lemma_dom_len();
            assert forall|k: Seq<char>| self@.contains_key(k) <==> exists|j: int|
                0 <= j < r@.len() && #[trigger] r@[j]@ == k by {
                if self@.contains_key(k) {
                    let j = choose|j: int| 0 <= j < self.entries@.len() && self.entries@[j].0@ == k;
                    assert(r@[j]@ == k);
                }
            }
        }
        r
    }

    /// Number of entries.
    pub fn len(&self) -> (r: usize)
        requires
            self.wf(),
        ensures
            r == self@.dom().len(),
    {
        proof {
            self.lemma_dom_len();
        }
        self.entries.len()
    }

    proof fn lemma_dom_len(&self)
        requires
            self.wf(),
        ensures
            self@.dom().finite(),
            self@.dom().len() == self.entries@.len(),
    {
        let keys = self.entries@.map_values(|e: (String, String)| e.0@);
        assert(keys.no_duplicates()) by {
            assert forall|a: int, b: int| 0 <= a < keys.len() && 0 <= b < keys.len() && a != b
                implies keys[a] != keys[b] by {
                if a < b {
                } else {
                }
            }
        }
        assert(keys.to_set() =~= self@.dom()) by {
            assert forall|k: Seq<char>| keys.to_set().contains(k) <==> self@.dom().contains(k) by {
                if self@.dom().contains(k) {
                    let j = choose|j: int| 0 <= j < self.entries@.len() && self.entries@[j].0@ == k;
                    assert(keys[j] == k);
                }
                if keys.to_set().contains(k) {
                    let j = choose|j: int| 0 <= j < keys.len() && keys[j] == k;
                    assert(self.model@.contains_key(self.entries@[j].0@));
                }
            }
        }
        keys.unique_seq_to_set();
    }
}

} // verus!

verus! {

/// Paths as character sequences.
pub open spec fn paths_view(v: Seq<String>) -> Seq<Seq<char>> {
    v.map_values(|p: String| p@)
}

/// What a change, or a whole patch, does to a path → text mapping: the new mapping, or the
/// error (its kind and subject) that stops it.
pub type Outcome = Result<Map<Seq<char>, Seq<char>>, (ErrorKind, Seq<char>)>;

/// An executable result `r`, with the mapping `after` that it left (starting from `before`),
/// is the one `expected` describes; on failure the mapping is untouched.
pub open spec fn reports(
    r: Result<(), TenxError>,
    before: Map<Seq<char>, Seq<char>>,
    after: Map<Seq<char>, Seq<char>>,
    expected: Outcome,
) -> bool {
    match expected {
        Ok(m) => r is Ok && after == m,
        Err(e) => r is Err && r->Err_0.kind == e.0 && r->Err_0.subject@ == e.1 && after == before,
    }
}

} // verus!
