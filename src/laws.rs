use vstd::prelude::*;

use crate::error::ErrorKind;
use crate::error::TenxError;
use crate::files::paths_view;
use crate::patch::Change;
use crate::patch::applied;
use crate::patch::change_outcome;
use crate::patch::change_paths;
use crate::patch::changed_paths;
use crate::patch::preimages;
use crate::patch::present;
use crate::patch::restored;
use crate::patch::transform;
use crate::patch::transform_all;
use crate::replace::Replace;
use crate::replace::replace_outcome;
use crate::replace::replace_text;
use crate::text::occurs_at;
use crate::text::occurs_twice;
use crate::text::splice;
use crate::udiff::UDiff;
use crate::udiff::apply_hunks;
use crate::udiff::diff_hunks;

verus! {

/// A patch application that fails leaves the disk as it was before the call.
pub proof fn failed_apply_leaves_disk(
    r: Result<(), TenxError>,
    changes: Seq<Change>,
    pre: Map<Seq<char>, Option<Seq<char>>>,
    pre2: Map<Seq<char>, Option<Seq<char>>>,
    disk: Map<Seq<char>, Seq<char>>,
    disk2: Map<Seq<char>, Seq<char>>,
)
    requires
        applied(r, changes, pre, pre2, disk, disk2),
        r is Err,
    ensures
        disk2 == disk,
{
}

/// Running the cache phase a second time, on a disk that may have changed since, keeps every
/// pre-image the first run recorded.
pub proof fn caching_is_idempotent(
    pre: Map<Seq<char>, Option<Seq<char>>>,
    disk1: Map<Seq<char>, Seq<char>>,
    disk2: Map<Seq<char>, Seq<char>>,
    paths: Seq<Seq<char>>,
)
    ensures
        preimages(preimages(pre, disk1, paths), disk2, paths) == preimages(pre, disk1, paths),
{
    assert(preimages(preimages(pre, disk1, paths), disk2, paths) =~= preimages(pre, disk1, paths));
}

proof fn lemma_hunks_outside(
    m: Map<Seq<char>, Seq<char>>,
    files: Seq<Seq<char>>,
    hunks: Seq<crate::udiff::HunkView>,
    n: int,
    m2: Map<Seq<char>, Seq<char>>,
)
    requires
        apply_hunks(m, files, hunks, n) == Ok::<Map<Seq<char>, Seq<char>>, (ErrorKind, Seq<char>)>(
            m2,
        ),
    ensures
        forall|k: Seq<char>|
            !files.contains(k) ==> (#[trigger] m2.contains_key(k) == m.contains_key(k) && (
            m.contains_key(k) ==> m2[k] == m[k])),
    decreases n,
{
    if n > 0 && n <= hunks.len() {
        assert(apply_hunks(m, files, hunks, n - 1) is Ok);
        let m1 = apply_hunks(m, files, hunks, n - 1)->Ok_0;
        lemma_hunks_outside(m, files, hunks, n - 1, m1);
        let h = hunks[n - 1];
        assert(files.contains(h.0));
        assert(m2 == m1.insert(h.0, crate::udiff::hunk_text(m1[h.0], h.1, h.2)->0));
    }
}

proof fn lemma_change_outside(c: Change, m: Map<Seq<char>, Seq<char>>, m2: Map<Seq<char>, Seq<char>>)
    requires
        change_outcome(c, m) == Ok::<Map<Seq<char>, Seq<char>>, (ErrorKind, Seq<char>)>(m2),
    ensures
        forall|k: Seq<char>|
            !change_paths(c).contains(k) ==> (#[trigger] m2.contains_key(k) == m.contains_key(k) && (
            m.contains_key(k) ==> m2[k] == m[k])),
{
    match c {
        Change::Write(w) => {
            assert(change_paths(c)[0] == w.path@);
        },
        Change::Replace(r) => {
            assert(change_paths(c)[0] == r.path@);
        },
        Change::Smart(x) => {
            assert(change_paths(c)[0] == x.path@);
        },
        Change::UDiff(u) => {
            let hs = diff_hunks(u.patch@)->0;
            lemma_hunks_outside(m, paths_view(u.modified_files@), hs, hs.len() as int, m2);
        },
    }
}

proof fn lemma_transform_outside(
    changes: Seq<Change>,
    m: Map<Seq<char>, Seq<char>>,
    n: int,
    m2: Map<Seq<char>, Seq<char>>,
)
    requires
        0 <= n <= changes.len(),
        transform(changes, m, n) == Ok::<Map<Seq<char>, Seq<char>>, (ErrorKind, Seq<char>)>(m2),
    ensures
        forall|k: Seq<char>|
            !changed_paths(changes.subrange(0, n)).contains(k) ==> (#[trigger] m2.contains_key(k)
                == m.contains_key(k) && (m.contains_key(k) ==> m2[k] == m[k])),
    decreases n,
{
    if n > 0 {
        assert(transform(changes, m, n - 1) is Ok);
        let m1 = transform(changes, m, n - 1)->Ok_0;
        assert(change_outcome(changes[n - 1], m1) == Ok::<
            Map<Seq<char>, Seq<char>>,
            (ErrorKind, Seq<char>),
        >(m2));
        lemma_transform_outside(changes, m, n - 1, m1);
        let prefix = changes.subrange(0, n);
        assert(prefix.drop_last() =~= changes.subrange(0, n - 1));
        assert(prefix.last() == changes[n - 1]);
        let before = changed_paths(changes.subrange(0, n - 1));
        let here = change_paths(changes[n - 1]);
        assert(changed_paths(prefix) == before + here);
        lemma_change_outside(changes[n - 1], m1, m2);
        assert forall|k: Seq<char>| !(before + here).contains(k) implies !before.contains(k)
            && !here.contains(k) by {
            if before.contains(k) {
                let j = choose|j: int| 0 <= j < before.len() && before[j] == k;
                assert((before + here)[j] == k);
            }
            if here.contains(k) {
                let j = choose|j: int| 0 <= j < here.len() && here[j] == k;
                assert((before + here)[before.len() + j] == k);
            }
        }
        assert forall|k: Seq<char>| !changed_paths(changes.subrange(0, n)).contains(k) implies (
        #[trigger] m2.contains_key(k) == m.contains_key(k) && (m.contains_key(k) ==> m2[k] == m[k])) by {
            assert(!before.contains(k) && !here.contains(k));
            assert(m1.contains_key(k) == m.contains_key(k));
            assert(m2.contains_key(k) == m1.contains_key(k));
        }
    } else {
        assert(changes.subrange(0, 0) =~= Seq::<Change>::empty());
    }
}

/// After a successful application, reverting gives every changed path its pre-image back, or
/// removes it when it had no file; a path that no change names and that had no pre-image is
/// as it was before the application. A patch whose pre-images start empty is undone exactly.
pub proof fn revert_restores_preimages(
    changes: Seq<Change>,
    pre: Map<Seq<char>, Option<Seq<char>>>,
    disk: Map<Seq<char>, Seq<char>>,
    m: Map<Seq<char>, Seq<char>>,
)
    requires
        transform_all(changes, present(preimages(pre, disk, changed_paths(changes)))) == Ok::<
            Map<Seq<char>, Seq<char>>,
            (ErrorKind, Seq<char>),
        >(m),
    ensures
        ({
            let ps = changed_paths(changes);
            let pre2 = preimages(pre, disk, ps);
            let back = restored(disk.union_prefer_right(m), pre2, ps);
            &&& forall|i: int|
                0 <= i < ps.len() ==> (match #[trigger] pre2[ps[i]] {
                    Some(t) => back.contains_key(ps[i]) && back[ps[i]] == t,
                    None => !back.contains_key(ps[i]),
                })
            &&& forall|k: Seq<char>|
                !ps.contains(k) && !pre.contains_key(k) ==> (#[trigger] back.contains_key(k)
                    == disk.contains_key(k) && (disk.contains_key(k) ==> back[k] == disk[k]))
            &&& pre == Map::<Seq<char>, Option<Seq<char>>>::empty() ==> back == disk
        }),
{
    let ps = changed_paths(changes);
    let pre2 = preimages(pre, disk, ps);
    let back = restored(disk.union_prefer_right(m), pre2, ps);
    assert(transform(changes, present(pre2), changes.len() as int) == Ok::<
        Map<Seq<char>, Seq<char>>,
        (ErrorKind, Seq<char>),
    >(m));
    lemma_transform_outside(changes, present(pre2), changes.len() as int, m);
    assert(changes.subrange(0, changes.len() as int) =~= changes);
    assert forall|i: int| 0 <= i < ps.len() implies (match #[trigger] pre2[ps[i]] {
        Some(t) => back.contains_key(ps[i]) && back[ps[i]] == t,
        None => !back.contains_key(ps[i]),
    }) by {
        assert(ps.contains(ps[i]));
    }
    assert forall|k: Seq<char>|
        !ps.contains(k) && !pre.contains_key(k) implies (#[trigger] back.contains_key(k)
        == disk.contains_key(k) && (disk.contains_key(k) ==> back[k] == disk[k])) by {
        assert(!pre2.contains_key(k));
        assert(!present(pre2).contains_key(k));
        assert(!changed_paths(changes.subrange(0, changes.len() as int)).contains(k));
        assert(m.contains_key(k) == present(pre2).contains_key(k));
    }
    if pre == Map::<Seq<char>, Option<Seq<char>>>::empty() {
        assert forall|k: Seq<char>| #[trigger] back.contains_key(k) == disk.contains_key(k) && (
        disk.contains_key(k) ==> back[k] == disk[k]) by {
            if !ps.contains(k) {
                assert(!pre2.contains_key(k));
                assert(!present(pre2).contains_key(k));
                assert(!changed_paths(changes.subrange(0, changes.len() as int)).contains(k));
                assert(m.contains_key(k) == present(pre2).contains_key(k));
            }
        }
        assert(back =~= disk);
    }
}

/// A replacement whose old text occurs twice or more fails as ambiguous; one whose old text
/// occurs exactly once, at `i`, substitutes the new text there.
pub proof fn replace_needs_a_unique_match(s: Seq<char>, old: Seq<char>, new: Seq<char>, i: int)
    ensures
        occurs_twice(s, old) ==> replace_text(s, old, new) == Err::<Seq<char>, ErrorKind>(
            ErrorKind::AmbiguousMatch,
        ),
        occurs_at(s, old, i) && !occurs_twice(s, old) ==> replace_text(s, old, new) == Ok::<
            Seq<char>,
            ErrorKind,
        >(splice(s, i, old.len() as int, new)),
{
    if occurs_twice(s, old) {
        let (a, b) = choose|a: int, b: int| a != b && occurs_at(s, old, a) && occurs_at(s, old, b);
        assert(occurs_at(s, old, a));
    }
    if occurs_at(s, old, i) && !occurs_twice(s, old) {
        let c = choose|c: int| occurs_at(s, old, c);
        if c != i {
            assert(occurs_twice(s, old));
        }
    }
}

/// A diff followed by a replacement on the same file: the replacement works on what the
/// diff made of the file, not on the text the file had before.
pub proof fn changes_compose_in_order(u: UDiff, r: Replace, m: Map<Seq<char>, Seq<char>>)
    ensures
        transform_all(seq![Change::UDiff(u), Change::Replace(r)], m) == match change_outcome(
            Change::UDiff(u),
            m,
        ) {
            Ok(m1) => replace_outcome(r.path@, r.old@, r.new@, m1),
            Err(e) => Err(e),
        },
{
    let cs = seq![Change::UDiff(u), Change::Replace(r)];
    assert(cs[0] == Change::UDiff(u));
    assert(cs[1] == Change::Replace(r));
    assert(crate::patch::transform(cs, m, 0) == Ok::<
        Map<Seq<char>, Seq<char>>,
        (ErrorKind, Seq<char>),
    >(m));
    assert(crate::patch::transform(cs, m, 1) == change_outcome(Change::UDiff(u), m));
    assert(cs.len() == 2);
    assert(crate::patch::transform(cs, m, 2) == match crate::patch::transform(cs, m, 1) {
        Ok(m2) => change_outcome(cs[1], m2),
        Err(e) => Err(e),
    });
}

} // verus!
