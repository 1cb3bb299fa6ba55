use vstd::prelude::*;

use crate::error::ErrorKind;
use crate::error::TenxError;
use crate::files::FileMap;
use crate::files::Outcome;
use crate::files::reports;
use crate::replace::Replace;
use crate::replace::replace_outcome;
use crate::smart::Smart;
use crate::smart::smart_outcome;
use crate::udiff::UDiff;
use crate::files::paths_view;
use crate::udiff::udiff_outcome;
use crate::text::decimal;
use crate::text::decimal_chars;
use crate::text::from_chars;
use crate::write::WriteFile;
use crate::write::write_outcome;

verus! {

/// A change to be applied to one or more files.
#[derive(Clone, Debug, PartialEq, Eq)]
pub enum Change {
    Write(WriteFile),
    Replace(Replace),
    Smart(Smart),
    UDiff(UDiff),
}

/// The paths a change declares, known without applying it.
pub open spec fn change_paths(c: Change) -> Seq<Seq<char>> {
    match c {
        Change::Write(w) => seq![w.path@],
        Change::Replace(r) => seq![r.path@],
        Change::Smart(s) => seq![s.path@],
        Change::UDiff(u) => paths_view(u.modified_files@),
    }
}

/// What a change does to a mapping.
pub open spec fn change_outcome(c: Change, m: Map<Seq<char>, Seq<char>>) -> Outcome {
    match c {
        Change::Write(w) => write_outcome(w.path@, w.content@, m),
        Change::Replace(r) => replace_outcome(r.path@, r.old@, r.new@, m),
        Change::Smart(s) => smart_outcome(s.path@, s.text@, m),
        Change::UDiff(u) => udiff_outcome(u.patch@, paths_view(u.modified_files@), m),
    }
}

/// The paths the changes declare, change after change.
pub open spec fn changed_paths(changes: Seq<Change>) -> Seq<Seq<char>>
    decreases changes.len(),
{
    if changes.len() == 0 {
        Seq::empty()
    } else {
        changed_paths(changes.drop_last()) + change_paths(changes.last())
    }
}

/// The first `n` changes applied to a mapping in order; the first failure stops them.
pub open spec fn transform(changes: Seq<Change>, m: Map<Seq<char>, Seq<char>>, n: int) -> Outcome
    decreases n,
{
    if n <= 0 || n > changes.len() {
        Ok(m)
    } else {
        match transform(changes, m, n - 1) {
            Ok(m2) => change_outcome(changes[n - 1], m2),
            Err(e) => Err(e),
        }
    }
}

/// All the changes applied to a mapping in order.
pub open spec fn transform_all(changes: Seq<Change>, m: Map<Seq<char>, Seq<char>>) -> Outcome {
    transform(changes, m, changes.len() as int)
}

/// Pre-images as values: the text a cached path had before the patch, or `None` for a path
/// that had no file (`absent`).
pub open spec fn pre_view(cache: Map<Seq<char>, Seq<char>>, absent: Seq<Seq<char>>) -> Map<
    Seq<char>,
    Option<Seq<char>>,
> {
    Map::new(
        |k: Seq<char>| cache.contains_key(k) || absent.contains(k),
        |k: Seq<char>|
            if cache.contains_key(k) {
                Some(cache[k])
            } else {
                None
            },
    )
}

/// The pre-images after the cache phase: a path that has one keeps it; any other path of
/// `paths` gets its text on `disk`, or `None` when `disk` has no such file.
pub open spec fn preimages(
    pre: Map<Seq<char>, Option<Seq<char>>>,
    disk: Map<Seq<char>, Seq<char>>,
    paths: Seq<Seq<char>>,
) -> Map<Seq<char>, Option<Seq<char>>> {
    Map::new(
        |k: Seq<char>| pre.contains_key(k) || paths.contains(k),
        |k: Seq<char>|
            if pre.contains_key(k) {
                pre[k]
            } else if disk.contains_key(k) {
                Some(disk[k])
            } else {
                None
            },
    )
}

/// The files the pre-images say existed: the scratch copy the changes start from.
pub open spec fn present(pre: Map<Seq<char>, Option<Seq<char>>>) -> Map<Seq<char>, Seq<char>> {
    Map::new(|k: Seq<char>| pre.contains_key(k) && pre[k] is Some, |k: Seq<char>| pre[k]->0)
}

/// `disk` after a revert over `paths`: a path with a pre-image gets its text back, or is
/// removed when it had no file; every other path stays as it is.
pub open spec fn restored(
    disk: Map<Seq<char>, Seq<char>>,
    pre: Map<Seq<char>, Option<Seq<char>>>,
    paths: Seq<Seq<char>>,
) -> Map<Seq<char>, Seq<char>> {
    Map::new(
        |k: Seq<char>|
            if paths.contains(k) && pre.contains_key(k) {
                pre[k] is Some
            } else {
                disk.contains_key(k)
            },
        |k: Seq<char>|
            if paths.contains(k) && pre.contains_key(k) && pre[k] is Some {
                pre[k]->0
            } else {
                disk[k]
            },
    )
}

/// `base` with the entries of `top` for the paths of `paths` laid over it.
pub open spec fn overlay(
    base: Map<Seq<char>, Seq<char>>,
    top: Map<Seq<char>, Seq<char>>,
    paths: Seq<Seq<char>>,
) -> Map<Seq<char>, Seq<char>> {
    base.union_prefer_right(top.restrict(paths.to_set()))
}

/// An ordered set of changes with the pre-images of the files they touch, applied all or
/// nothing and reverted from those pre-images.
pub struct Patch {
    pub changes: Vec<Change>,
    pub comment: Option<String>,
    /// The text of each cached path that had a file.
    pub cache: FileMap,
    /// The cached paths that had no file.
    pub absent: Vec<String>,
}

impl Patch {
    /// The pre-images of the patch.
    pub open spec fn pre(&self) -> Map<Seq<char>, Option<Seq<char>>> {
        pre_view(self.cache@, paths_view(self.absent@))
    }

    /// A patch with no changes, no comment and an empty cache.
    pub fn new() -> (r: Patch)
        ensures
            r.changes@.len() == 0,
            r.comment is None,
            r.cache.wf(),
            r.cache@ == Map::<Seq<char>, Seq<char>>::empty(),
            r.pre() == Map::<Seq<char>, Option<Seq<char>>>::empty(),
    {
        let r = Patch { changes: Vec::new(), comment: None, cache: FileMap::new(), absent: Vec::new() };
        assert(r.pre() =~= Map::<Seq<char>, Option<Seq<char>>>::empty());
        r
    }

    /// The paths of all files the patch changes, change after change.
    pub fn changed_files(&self) -> (r: Vec<String>)
        ensures
            paths_view(r@) == changed_paths(self.changes@),
    {
        let mut r: Vec<String> = Vec::new();
        let mut i: usize = 0;
        assert(paths_view(r@) =~= changed_paths(self.changes@.subrange(0, 0)));
        while i < self.changes.len()
            invariant
                i <= self.changes@.len(),
                paths_view(r@) == changed_paths(self.changes@.subrange(0, i as int)),
            decreases self.changes.len() - i,
        {
            let ghost before = r@;
            match &self.changes[i] {
                Change::Write(w) => r.push(w.path.clone()),
                Change::Replace(c) => r.push(c.path.clone()),
                Change::Smart(s) => r.push(s.path.clone()),
                Change::UDiff(u) => {
                    let mut j: usize = 0;
                    while j < u.modified_files.len()
                        invariant
                            j <= u.modified_files@.len(),
                            r@ == before + u.modified_files@.subrange(0, j as int),
                        decreases u.modified_files.len() - j,
                    {
                        r.push(u.modified_files[j].clone());
                        j = j + 1;
                        assert(r@ =~= before + u.modified_files@.subrange(0, j as int));
                    }
                    assert(u.modified_files@.subrange(0, u.modified_files@.len() as int)
                        =~= u.modified_files@);
                },
            }
            assert(self.changes@.subrange(0, i + 1).drop_last() =~= self.changes@.subrange(
                0,
                i as int,
            ));
            assert(paths_view(r@) =~= paths_view(before) + change_paths(self.changes@[i as int]));
            i = i + 1;
        }
        assert(self.changes@.subrange(0, self.changes@.len() as int) =~= self.changes@);
        r
    }

    /// A short description of a change.
    pub fn change_description(change: &Change) -> (r: String)
        ensures
            match change {
                Change::Write(w) => r@ == "Write to "@ + w.path@,
                Change::Replace(c) => r@ == "Replace in "@ + c.path@,
                Change::Smart(s) => r@ == "Smart in "@ + s.path@,
                Change::UDiff(u) => r@ == "UDiff for "@ + decimal(u.modified_files@.len()) + " files"@,
            },
    {
        match change {
            Change::Write(w) => String::from_str("Write to ").concat(w.path.as_str()),
            Change::Replace(c) => String::from_str("Replace in ").concat(c.path.as_str()),
            Change::Smart(s) => String::from_str("Smart in ").concat(s.path.as_str()),
            Change::UDiff(u) => {
                let count = from_chars(&decimal_chars(u.modified_files.len()));
                String::from_str("UDiff for ").concat(count.as_str()).concat(" files")
            },
        }
    }

    /// The cache phase: every changed path that has no pre-image yet gets one: its text on
    /// `disk`, or none when `disk` has no such file. A path with a pre-image keeps it.
    pub fn cache_preimages(&mut self, disk: &FileMap)
        requires
            old(self).cache.wf(),
            disk.wf(),
        ensures
            final(self).cache.wf(),
            final(self).changes == old(self).changes,
            final(self).comment == old(self).comment,
            final(self).pre() == preimages(old(self).pre(), disk@, changed_paths(old(self).changes@)),
    {
        let paths = self.changed_files();
        let ghost pv = paths_view(paths@);
        let ghost pre0 = self.pre();
        let mut i: usize = 0;
        assert(pv.subrange(0, 0) =~= Seq::<Seq<char>>::empty());
        assert(preimages(pre0, disk@, pv.subrange(0, 0)) =~= pre0);
        while i < paths.len()
            invariant
                i <= paths@.len(),
                pv == paths_view(paths@),
                pv == changed_paths(self.changes@),
                self.changes == old(self).changes,
                self.comment == old(self).comment,
                self.cache.wf(),
                disk.wf(),
                self.pre() == preimages(pre0, disk@, pv.subrange(0, i as int)),
            decreases paths.len() - i,
        {
            let p = &paths[i];
            assert(pv[i as int] == p@);
            let ghost next = pv.subrange(0, i + 1);
            proof {
                crate::config::lemma_prefix_contains(pv, i as int);
            }
            let ghost before = self.pre();
            let ghost absent0 = paths_view(self.absent@);
            let ghost cache0 = self.cache@;
            assert(next[i as int] == p@);
            assert(next.contains(p@));
            if !self.cache.contains(p) && !crate::udiff::contains_path(&self.absent, p) {
                assert(!before.contains_key(p@));
                assert(!pre0.contains_key(p@));
                match disk.get(p) {
                    Some(t) => {
                        self.cache.insert(p.clone(), t.clone());
                        assert(paths_view(self.absent@) == absent0);
                    },
                    None => {
                        self.absent.push(p.clone());
                        assert(paths_view(self.absent@) =~= absent0.push(p@));
                        proof {
                            crate::config::lemma_push_contains(absent0, p@);
                        }
                    },
                }
                assert forall|k: Seq<char>|
                    #[trigger] self.pre().contains_key(k) == preimages(pre0, disk@, next).contains_key(k)
                        && (self.pre().contains_key(k) ==> self.pre()[k] == preimages(
                        pre0,
                        disk@,
                        next,
                    )[k]) by {
                    if k != p@ {
                        assert(before.contains_key(k) == self.pre().contains_key(k));
                        assert(self.pre().contains_key(k) ==> before[k] == self.pre()[k]);
                    }
                }
            } else {
                assert(before.contains_key(p@));
                assert(self.pre() == before);
                assert forall|k: Seq<char>|
                    #[trigger] self.pre().contains_key(k) == preimages(pre0, disk@, next).contains_key(k)
                        && (self.pre().contains_key(k) ==> self.pre()[k] == preimages(
                        pre0,
                        disk@,
                        next,
                    )[k]) by {
                }
            }
            assert(self.pre() =~= preimages(pre0, disk@, next));
            i = i + 1;
        }
        assert(pv.subrange(0, pv.len() as int) =~= pv);
    }

    /// The transform phase: the changes applied in order to a copy of the cache.
    pub fn transformed(&self) -> (r: Result<FileMap, TenxError>)
        requires
            self.cache.wf(),
        ensures
            match transform_all(self.changes@, present(self.pre())) {
                Ok(m) => r is Ok && r->Ok_0.wf() && r->Ok_0@ == m,
                Err(e) => r is Err && r->Err_0.kind == e.0 && r->Err_0.subject@ == e.1,
            },
    {
        let mut scratch = self.cache.duplicate();
        let ghost c0 = self.cache@;
        assert(present(self.pre()) =~= c0);
        let mut i: usize = 0;
        while i < self.changes.len()
            invariant
                i <= self.changes@.len(),
                c0 == self.cache@,
                present(self.pre()) == c0,
                scratch.wf(),
                transform(self.changes@, c0, i as int) == Ok::<
                    Map<Seq<char>, Seq<char>>,
                    (ErrorKind, Seq<char>),
                >(scratch@),
            decreases self.changes.len() - i,
        {
            let ghost before = scratch@;
            let r = match &self.changes[i] {
                Change::Write(w) => w.apply_to_cache(&mut scratch),
                Change::Replace(c) => c.apply_to_cache(&mut scratch),
                Change::Smart(s) => s.apply_to_cache(&mut scratch),
                Change::UDiff(u) => u.apply_to_cache(&mut scratch),
            };
            assert(reports(r, before, scratch@, change_outcome(self.changes@[i as int], before)));
            match r {
                Ok(()) => {},
                Err(e) => {
                    proof {
                        let ghost err = match change_outcome(self.changes@[i as int], before) {
                            Err(x) => x,
                            Ok(_) => (e.kind, e.subject@),
                        };
                        lemma_transform_err_stays(
                            self.changes@,
                            c0,
                            i + 1,
                            self.changes@.len() as int,
                            err,
                        );
                    }
                    return Err(e);
                },
            }
            i = i + 1;
        }
        Ok(scratch)
    }

    /// The commit phase: writes every entry of `scratch` to `disk`.
    fn commit(scratch: &FileMap, disk: &mut FileMap)
        requires
            scratch.wf(),
            old(disk).wf(),
        ensures
            final(disk).wf(),
            final(disk)@ == old(disk)@.union_prefer_right(scratch@),
    {
        let paths = scratch.paths();
        proof {
            let pv = paths_view(paths@);
            assert(scratch@.restrict(pv.to_set()) =~= scratch@) by {
                assert forall|k: Seq<char>| scratch@.contains_key(k) implies pv.to_set().contains(k) by {
                    let j = choose|j: int| 0 <= j < paths@.len() && #[trigger] paths@[j]@ == k;
                    assert(pv[j] == k);
                }
            }
        }
        write_entries(&paths, scratch, disk);
    }

    /// Applies the patch to `disk`, all or nothing: the cache phase, which fails with
    /// `ReadFailure` on the first changed path that a Replace, Smart or UDiff change needs and
    /// that has no file, then the transform phase, then the commit of every file of the scratch
    /// copy. On any failure `disk` is left as it was.
    pub fn apply(&mut self, disk: &mut FileMap) -> (r: Result<(), TenxError>)
        requires
            old(self).cache.wf(),
            old(disk).wf(),
        ensures
            final(self).cache.wf(),
            final(disk).wf(),
            final(self).changes == old(self).changes,
            final(self).comment == old(self).comment,
            r is Err ==> final(disk)@ == old(disk)@,
            applied(r, old(self).changes@, old(self).pre(), final(self).pre(), old(disk)@, final(disk)@),
    {
        self.cache_preimages(disk);
        let paths = self.changed_files();
        match self.find_missing(&paths) {
            Some(p) => {
                return Err(TenxError::new(ErrorKind::ReadFailure, p));
            },
            None => {},
        }
        let scratch = match self.transformed() {
            Ok(s) => s,
            Err(e) => {
                return Err(e);
            },
        };
        Patch::commit(&scratch, disk);
        Ok(())
    }

    /// Whether a change that needs its files to exist names `p`.
    fn needs_file(&self, p: &String) -> (r: bool)
        ensures
            r == needed(self.changes@, p@),
    {
        let mut i: usize = 0;
        while i < self.changes.len()
            invariant
                i <= self.changes@.len(),
                forall|j: int|
                    0 <= j < i ==> !(expects_file(self.changes@[j]) && #[trigger] change_paths(
                        self.changes@[j],
                    ).contains(p@)),
            decreases self.changes.len() - i,
        {
            let c = &self.changes[i];
            let hit = match c {
                Change::Write(_) => false,
                Change::Replace(x) => {
                    assert(change_paths(*c)[0] == x.path@);
                    assert(change_paths(*c).contains(p@) == (x.path@ == p@));
                    x.path == *p
                },
                Change::Smart(x) => {
                    assert(change_paths(*c)[0] == x.path@);
                    assert(change_paths(*c).contains(p@) == (x.path@ == p@));
                    x.path == *p
                },
                Change::UDiff(u) => crate::udiff::contains_path(&u.modified_files, p),
            };
            if hit {
                assert(expects_file(self.changes@[i as int]) && change_paths(self.changes@[i as int]).contains(p@));
                return true;
            }
            i = i + 1;
        }
        false
    }

    /// The first of `paths` that a change needs and whose pre-image records no file.
    fn find_missing(&self, paths: &Vec<String>) -> (r: Option<String>)
        requires
            self.cache.wf(),
        ensures
            match missing_from(paths_view(paths@), self.changes@, self.pre(), 0) {
                Some(p) => r is Some && r->0@ == p,
                None => r is None,
            },
    {
        let ghost pv = paths_view(paths@);
        let mut j: usize = 0;
        while j < paths.len()
            invariant
                j <= paths@.len(),
                pv == paths_view(paths@),
                self.cache.wf(),
                missing_from(pv, self.changes@, self.pre(), 0) == missing_from(
                    pv,
                    self.changes@,
                    self.pre(),
                    j as int,
                ),
            decreases paths.len() - j,
        {
            let p = &paths[j];
            assert(pv[j as int] == p@);
            if self.needs_file(p) && !self.cache.contains(p) && crate::udiff::contains_path(
                &self.absent,
                p,
            ) {
                return Some(p.clone());
            }
            j = j + 1;
        }
        None
    }

    /// Reverts the patch on `disk`: each changed path gets its pre-image back, or is removed
    /// when it had no file before the patch.
    pub fn revert(&self, disk: &mut FileMap)
        requires
            self.cache.wf(),
            old(disk).wf(),
        ensures
            final(disk).wf(),
            final(disk)@ == restored(old(disk)@, self.pre(), changed_paths(self.changes@)),
    {
        let paths = self.changed_files();
        let ghost pv = paths_view(paths@);
        let ghost d0 = disk@;
        let mut i: usize = 0;
        assert(pv.subrange(0, 0) =~= Seq::<Seq<char>>::empty());
        assert(restored(d0, self.pre(), pv.subrange(0, 0)) =~= d0);
        while i < paths.len()
            invariant
                i <= paths@.len(),
                pv == paths_view(paths@),
                pv == changed_paths(self.changes@),
                self.cache.wf(),
                disk.wf(),
                disk@ == restored(d0, self.pre(), pv.subrange(0, i as int)),
            decreases paths.len() - i,
        {
            let p = &paths[i];
            assert(pv[i as int] == p@);
            proof {
                crate::config::lemma_prefix_contains(pv, i as int);
            }
            match self.cache.get(p) {
                Some(t) => {
                    disk.insert(p.clone(), t.clone());
                },
                None => {
                    if crate::udiff::contains_path(&self.absent, p) {
                        disk.remove(p);
                    }
                },
            }
            assert forall|k: Seq<char>|
                #[trigger] disk@.contains_key(k) == restored(d0, self.pre(), pv.subrange(0, i + 1)).contains_key(k)
                    && (disk@.contains_key(k) ==> disk@[k] == restored(
                    d0,
                    self.pre(),
                    pv.subrange(0, i + 1),
                )[k]) by {
                if k == p@ {
                    assert(pv.subrange(0, i + 1)[i as int] == k);
                    assert(pv.subrange(0, i + 1).contains(k));
                }
            }
            assert(disk@ =~= restored(d0, self.pre(), pv.subrange(0, i + 1)));
            i = i + 1;
        }
        assert(pv.subrange(0, pv.len() as int) =~= pv);
    }
}

/// What applying `changes` with pre-images `pre` to `disk` gives: the result `r`, the
/// pre-images after it (`pre2`) and the disk after it (`disk2`).
pub open spec fn applied(
    r: Result<(), TenxError>,
    changes: Seq<Change>,
    pre: Map<Seq<char>, Option<Seq<char>>>,
    pre2: Map<Seq<char>, Option<Seq<char>>>,
    disk: Map<Seq<char>, Seq<char>>,
    disk2: Map<Seq<char>, Seq<char>>,
) -> bool {
    &&& pre2 == preimages(pre, disk, changed_paths(changes))
    &&& reports(r, disk, disk2, commit_outcome(changes, pre2, disk))
}

/// The disk after the transform phase and the commit of the scratch copy, or the error of
/// the transform.
pub open spec fn commit_outcome(
    changes: Seq<Change>,
    pre: Map<Seq<char>, Option<Seq<char>>>,
    disk: Map<Seq<char>, Seq<char>>,
) -> Outcome {
    match missing_from(changed_paths(changes), changes, pre, 0) {
        Some(p) => Err((ErrorKind::ReadFailure, p)),
        None => match transform_all(changes, present(pre)) {
            Ok(m) => Ok(disk.union_prefer_right(m)),
            Err(e) => Err(e),
        },
    }
}

/// A Replace, Smart or UDiff change needs its files to exist; a Write does not.
pub open spec fn expects_file(c: Change) -> bool {
    !(c is Write)
}

/// A change that needs its files to exist names `p`.
pub open spec fn needed(changes: Seq<Change>, p: Seq<char>) -> bool {
    exists|i: int|
        0 <= i < changes.len() && expects_file(changes[i]) && #[trigger] change_paths(
            changes[i],
        ).contains(p)
}

/// The first of `paths`, from position `j`, that a change needs and whose pre-image records
/// no file.
pub open spec fn missing_from(
    paths: Seq<Seq<char>>,
    changes: Seq<Change>,
    pre: Map<Seq<char>, Option<Seq<char>>>,
    j: int,
) -> Option<Seq<char>>
    decreases paths.len() - j,
{
    if j < 0 || j >= paths.len() {
        None
    } else if needed(changes, paths[j]) && pre.contains_key(paths[j]) && pre[paths[j]] is None {
        Some(paths[j])
    } else {
        missing_from(paths, changes, pre, j + 1)
    }
}

/// Writes the entries of `src` for `paths` to `disk`.
fn write_entries(paths: &Vec<String>, src: &FileMap, disk: &mut FileMap)
    requires
        src.wf(),
        old(disk).wf(),
    ensures
        final(disk).wf(),
        final(disk)@ == overlay(old(disk)@, src@, paths_view(paths@)),
{
    let ghost pv = paths_view(paths@);
    let ghost d0 = disk@;
    let mut i: usize = 0;
    assert(overlay(d0, src@, pv.subrange(0, 0)) =~= d0);
    while i < paths.len()
        invariant
            i <= paths@.len(),
            pv == paths_view(paths@),
            src.wf(),
            disk.wf(),
            disk@ == overlay(d0, src@, pv.subrange(0, i as int)),
        decreases paths.len() - i,
    {
        let p = &paths[i];
        assert(pv[i as int] == p@);
        let ghost next = pv.subrange(0, i + 1);
        assert(next.to_set() =~= pv.subrange(0, i as int).to_set().insert(p@)) by {
            assert forall|k: Seq<char>| next.contains(k) <==> pv.subrange(0, i as int).contains(
                k,
            ) || k == p@ by {
                if next.contains(k) && k != p@ {
                    let j = choose|j: int| 0 <= j < next.len() && next[j] == k;
                    assert(pv.subrange(0, i as int)[j] == k);
                }
                if pv.subrange(0, i as int).contains(k) {
                    let j = choose|j: int| 0 <= j < i && pv.subrange(0, i as int)[j] == k;
                    assert(next[j] == k);
                }
                if k == p@ {
                    assert(next[i as int] == k);
                }
            }
        }
        match src.get(p) {
            Some(t) => {
                disk.insert(p.clone(), t.clone());
            },
            None => {},
        }
        assert(disk@ =~= overlay(d0, src@, next));
        i = i + 1;
    }
    assert(pv.subrange(0, pv.len() as int) =~= pv);
}

proof fn lemma_transform_err_stays(
    changes: Seq<Change>,
    m: Map<Seq<char>, Seq<char>>,
    a: int,
    b: int,
    e: (ErrorKind, Seq<char>),
)
    requires
        1 <= a <= b <= changes.len(),
        transform(changes, m, a) == Err::<Map<Seq<char>, Seq<char>>, (ErrorKind, Seq<char>)>(e),
    ensures
        transform(changes, m, b) == Err::<Map<Seq<char>, Seq<char>>, (ErrorKind, Seq<char>)>(e),
    decreases b - a,
{
    if a < b {
        lemma_transform_err_stays(changes, m, a, b - 1, e);
    }
}

} // verus!
