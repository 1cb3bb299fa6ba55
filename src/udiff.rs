use vstd::prelude::*;

use crate::error::ErrorKind;
use crate::error::TenxError;
use crate::files::FileMap;
use crate::files::Outcome;
use crate::files::paths_view;
use crate::files::reports;
use crate::lines::from_lines;
use crate::lines::join_lines;
use crate::lines::lines_view;
use crate::lines::split_lines;
use crate::lines::squeeze;
use crate::lines::squeezed;
use crate::lines::to_lines;
use crate::text::copy_chars;
use crate::text::from_chars;
use crate::text::is_space;
use crate::text::same_chars;
use crate::text::slice_chars;
use crate::text::space;
use crate::text::to_chars;

verus! {

/// A unified diff over one or more files.
#[derive(Clone, Debug, PartialEq, Eq)]
pub struct UDiff {
    pub patch: String,
    pub modified_files: Vec<String>,
}

/// A hunk as values: the path of its file, the lines it expects, the lines it leaves.
pub type HunkView = (Seq<char>, Seq<Seq<char>>, Seq<Seq<char>>);

/// One hunk of a diff.
pub struct Hunk {
    pub path: Vec<char>,
    pub old: Vec<Vec<char>>,
    pub new: Vec<Vec<char>>,
}

impl Hunk {
    pub open spec fn view(&self) -> HunkView {
        (self.path@, lines_view(self.old@), lines_view(self.new@))
    }
}

/// Hunks as values.
pub open spec fn hunks_view(v: Seq<Hunk>) -> Seq<HunkView> {
    v.map_values(|h: Hunk| h.view())
}

/// A `+++ ` line: it names the file the following hunks apply to.
pub open spec fn is_new_header(l: Seq<char>) -> bool {
    l.len() >= 4 && l[0] == '+' && l[1] == '+' && l[2] == '+' && l[3] == ' '
}

/// A `--- ` line.
pub open spec fn is_old_header(l: Seq<char>) -> bool {
    l.len() >= 4 && l[0] == '-' && l[1] == '-' && l[2] == '-' && l[3] == ' '
}

/// An `@@` line: it starts a hunk.
pub open spec fn is_hunk_header(l: Seq<char>) -> bool {
    l.len() >= 2 && l[0] == '@' && l[1] == '@'
}

/// The end of `l`'s first `n` characters without the spaces that close them.
pub open spec fn trimmed_end(l: Seq<char>, n: int) -> int
    decreases n,
{
    if n > 0 && n <= l.len() && is_space(l[n - 1]) {
        trimmed_end(l, n - 1)
    } else {
        n
    }
}

/// The path a `+++ ` line names, without a leading `b/` and without closing spaces.
pub open spec fn header_path(l: Seq<char>) -> Seq<char> {
    let start: int = if l.len() >= 6 && l[4] == 'b' && l[5] == '/' {
        6
    } else {
        4
    };
    let end = trimmed_end(l, l.len() as int);
    if end <= start {
        Seq::empty()
    } else {
        l.subrange(start, end)
    }
}

/// The hunk parser over the lines `ls` of a diff, from line `i`: the current path (if
/// `has_path`), the hunk being read (if `in_hunk`, with its expected and resulting lines) and
/// the hunks read before it.
pub open spec fn parse_acc(
    ls: Seq<Seq<char>>,
    i: int,
    path: Seq<char>,
    has_path: bool,
    in_hunk: bool,
    old: Seq<Seq<char>>,
    new: Seq<Seq<char>>,
    acc: Seq<HunkView>,
) -> Option<Seq<HunkView>>
    decreases ls.len() - i,
{
    let flushed = if in_hunk {
        acc.push((path, old, new))
    } else {
        acc
    };
    if i < 0 || i >= ls.len() {
        Some(flushed)
    } else {
        let l = ls[i];
        let rest = l.subrange(1, l.len() as int);
        if is_new_header(l) {
            parse_acc(ls, i + 1, header_path(l), true, false, Seq::empty(), Seq::empty(), flushed)
        } else if is_old_header(l) {
            parse_acc(ls, i + 1, path, has_path, false, Seq::empty(), Seq::empty(), flushed)
        } else if is_hunk_header(l) {
            if !has_path {
                None
            } else {
                parse_acc(ls, i + 1, path, true, true, Seq::empty(), Seq::empty(), flushed)
            }
        } else if !in_hunk || l.len() == 0 {
            parse_acc(ls, i + 1, path, has_path, in_hunk, old, new, acc)
        } else if l[0] == ' ' {
            parse_acc(ls, i + 1, path, has_path, in_hunk, old.push(rest), new.push(rest), acc)
        } else if l[0] == '-' {
            parse_acc(ls, i + 1, path, has_path, in_hunk, old.push(rest), new, acc)
        } else if l[0] == '+' {
            parse_acc(ls, i + 1, path, has_path, in_hunk, old, new.push(rest), acc)
        } else if l[0] == '\n' {
            parse_acc(ls, i + 1, path, has_path, in_hunk, old.push(l), new.push(l), acc)
        } else {
            parse_acc(ls, i + 1, path, has_path, in_hunk, old, new, acc)
        }
    }
}

/// The hunks of a diff, in order; `None` when a hunk comes before any file header.
pub open spec fn diff_hunks(d: Seq<char>) -> Option<Seq<HunkView>> {
    parse_acc(split_lines(d), 0, Seq::empty(), false, false, Seq::empty(), Seq::empty(), Seq::empty())
}

/// The lines `old` stand in `ls` at `p`: exactly, or up to spaces when `fuzzy`.
pub open spec fn block_at(ls: Seq<Seq<char>>, old: Seq<Seq<char>>, p: int, fuzzy: bool) -> bool {
    &&& 0 <= p
    &&& p + old.len() <= ls.len()
    &&& forall|j: int|
        0 <= j < old.len() ==> if fuzzy {
            squeeze(#[trigger] ls[p + j]) == squeeze(old[j])
        } else {
            ls[p + j] == old[j]
        }
}

/// The first position at or after `p` where `old` stands in `ls`.
pub open spec fn find_block(ls: Seq<Seq<char>>, old: Seq<Seq<char>>, p: int, fuzzy: bool) -> Option<
    int,
>
    decreases ls.len() + 1 - p,
{
    if p < 0 || p + old.len() > ls.len() {
        None
    } else if block_at(ls, old, p, fuzzy) {
        Some(p)
    } else {
        find_block(ls, old, p + 1, fuzzy)
    }
}

/// Where a hunk anchors: its first exact match, else its first match up to spaces.
pub open spec fn anchor(ls: Seq<Seq<char>>, old: Seq<Seq<char>>) -> Option<int> {
    match find_block(ls, old, 0, false) {
        Some(p) => Some(p),
        None => find_block(ls, old, 0, true),
    }
}

/// The text `t` after one hunk, or `None` when the hunk anchors nowhere.
pub open spec fn hunk_text(t: Seq<char>, old: Seq<Seq<char>>, new: Seq<Seq<char>>) -> Option<
    Seq<char>,
> {
    let ls = split_lines(t);
    match anchor(ls, old) {
        None => None,
        Some(p) => Some(
            join_lines(ls.subrange(0, p) + new + ls.subrange(p + old.len(), ls.len() as int)),
        ),
    }
}

/// The first `n` hunks applied to a mapping, in order. A hunk on a file that is not among
/// `files`, the files the diff declares, does not apply.
pub open spec fn apply_hunks(
    m: Map<Seq<char>, Seq<char>>,
    files: Seq<Seq<char>>,
    hunks: Seq<HunkView>,
    n: int,
) -> Outcome
    decreases n,
{
    if n <= 0 || n > hunks.len() {
        Ok(m)
    } else {
        match apply_hunks(m, files, hunks, n - 1) {
            Err(e) => Err(e),
            Ok(m2) => {
                let h = hunks[n - 1];
                if !files.contains(h.0) {
                    Err((ErrorKind::HunkNotApplicable, h.0))
                } else if !m2.contains_key(h.0) {
                    Err((ErrorKind::ReadFailure, h.0))
                } else {
                    match hunk_text(m2[h.0], h.1, h.2) {
                        None => Err((ErrorKind::HunkNotApplicable, h.0)),
                        Some(t) => Ok(m2.insert(h.0, t)),
                    }
                }
            },
        }
    }
}

/// What a diff does to a mapping. A diff with no hunk, or a hunk before any file header,
/// does not parse.
pub open spec fn udiff_outcome(
    patch: Seq<char>,
    files: Seq<Seq<char>>,
    m: Map<Seq<char>, Seq<char>>,
) -> Outcome {
    match diff_hunks(patch) {
        None => Err((ErrorKind::ParseError, Seq::empty())),
        Some(hs) => if hs.len() == 0 {
            Err((ErrorKind::ParseError, Seq::empty()))
        } else {
            apply_hunks(m, files, hs, hs.len() as int)
        },
    }
}

proof fn lemma_hunks_push(v: Seq<Hunk>, h: Hunk)
    ensures
        hunks_view(v.push(h)) == hunks_view(v).push(h.view()),
{
    assert(hunks_view(v.push(h)) =~= hunks_view(v).push(h.view()));
}

proof fn lemma_lines_push(v: Seq<Vec<char>>, l: Vec<char>)
    ensures
        lines_view(v.push(l)) == lines_view(v).push(l@),
{
    assert(lines_view(v.push(l)) =~= lines_view(v).push(l@));
}

fn new_header(l: &Vec<char>) -> (r: bool)
    ensures
        r == is_new_header(l@),
{
    l.len() >= 4 && l[0] == '+' && l[1] == '+' && l[2] == '+' && l[3] == ' '
}

fn old_header(l: &Vec<char>) -> (r: bool)
    ensures
        r == is_old_header(l@),
{
    l.len() >= 4 && l[0] == '-' && l[1] == '-' && l[2] == '-' && l[3] == ' '
}

fn hunk_header(l: &Vec<char>) -> (r: bool)
    ensures
        r == is_hunk_header(l@),
{
    l.len() >= 2 && l[0] == '@' && l[1] == '@'
}

/// The path a `+++ ` line names.
fn path_of_header(l: &Vec<char>) -> (r: Vec<char>)
    ensures
        r@ == header_path(l@),
{
    let start: usize = if l.len() >= 6 && l[4] == 'b' && l[5] == '/' {
        6
    } else {
        4
    };
    let mut end: usize = l.len();
    while end > 0 && space(l[end - 1])
        invariant
            end <= l@.len(),
            trimmed_end(l@, end as int) == trimmed_end(l@, l@.len() as int),
        decreases end,
    {
        end = end - 1;
    }
    if end <= start {
        Vec::new()
    } else {
        slice_chars(l, start, end)
    }
}

/// The hunks of a diff, in order.
pub fn parse_hunks(d: &Vec<char>) -> (r: Option<Vec<Hunk>>)
    ensures
        match r {
            Some(v) => diff_hunks(d@) == Some(hunks_view(v@)),
            None => diff_hunks(d@) is None,
        },
{
    let ls = to_lines(d);
    let ghost lv = lines_view(ls@);
    let mut acc: Vec<Hunk> = Vec::new();
    let mut path: Vec<char> = Vec::new();
    let mut has_path = false;
    let mut in_hunk = false;
    let mut old: Vec<Vec<char>> = Vec::new();
    let mut new: Vec<Vec<char>> = Vec::new();
    let mut i: usize = 0;
    assert(hunks_view(acc@) =~= Seq::<HunkView>::empty());
    assert(lines_view(old@) =~= Seq::<Seq<char>>::empty());
    while i < ls.len()
        invariant
            i <= ls@.len(),
            lv == lines_view(ls@),
            lv == split_lines(d@),
            diff_hunks(d@) == parse_acc(
                lv,
                i as int,
                path@,
                has_path,
                in_hunk,
                lines_view(old@),
                lines_view(new@),
                hunks_view(acc@),
            ),
        decreases ls.len() - i,
    {
        let l = &ls[i];
        assert(lv[i as int] == l@);
        let starts_file = new_header(l);
        if starts_file || old_header(l) || hunk_header(l) {
            if hunk_header(l) && !starts_file && !old_header(l) && !has_path {
                return None;
            }
            if in_hunk {
                let h = Hunk { path: copy_chars(&path), old, new };
                proof {
                    lemma_hunks_push(acc@, h);
                }
                acc.push(h);
            }
            old = Vec::new();
            new = Vec::new();
            assert(lines_view(old@) =~= Seq::<Seq<char>>::empty());
            assert(lines_view(new@) =~= Seq::<Seq<char>>::empty());
            if starts_file {
                path = path_of_header(l);
                has_path = true;
                in_hunk = false;
            } else if old_header(l) {
                in_hunk = false;
            } else {
                in_hunk = true;
            }
        } else if !in_hunk || l.len() == 0 {
        } else {
            let rest = slice_chars(l, 1, l.len());
            if l[0] == ' ' {
                let kept = copy_chars(&rest);
                proof {
                    lemma_lines_push(old@, kept);
                    lemma_lines_push(new@, rest);
                }
                old.push(kept);
                new.push(rest);
            } else if l[0] == '-' {
                proof {
                    lemma_lines_push(old@, rest);
                }
                old.push(rest);
            } else if l[0] == '+' {
                proof {
                    lemma_lines_push(new@, rest);
                }
                new.push(rest);
            } else if l[0] == '\n' {
                let whole = copy_chars(l);
                let kept = copy_chars(l);
                proof {
                    lemma_lines_push(old@, kept);
                    lemma_lines_push(new@, whole);
                }
                old.push(kept);
                new.push(whole);
            }
        }
        i = i + 1;
    }
    if in_hunk {
        let h = Hunk { path, old, new };
        proof {
            lemma_hunks_push(acc@, h);
        }
        acc.push(h);
    }
    Some(acc)
}

/// Whether `old` stands in `ls` at `p`: exactly, or up to spaces when `fuzzy`.
fn block_matches(ls: &Vec<Vec<char>>, old: &Vec<Vec<char>>, p: usize, fuzzy: bool) -> (r: bool)
    requires
        p + old@.len() <= ls@.len(),
    ensures
        r == block_at(lines_view(ls@), lines_view(old@), p as int, fuzzy),
{
    let ghost lv = lines_view(ls@);
    let ghost ov = lines_view(old@);
    let mut j: usize = 0;
    while j < old.len()
        invariant
            p + old.len() <= ls.len(),
            j <= old@.len(),
            lv == lines_view(ls@),
            ov == lines_view(old@),
            forall|k: int|
                0 <= k < j ==> if fuzzy {
                    squeeze(#[trigger] lv[p + k]) == squeeze(ov[k])
                } else {
                    lv[p + k] == ov[k]
                },
        decreases old.len() - j,
    {
        let same = if fuzzy {
            let a = squeezed(&ls[p + j]);
            let b = squeezed(&old[j]);
            same_chars(&a, &b)
        } else {
            same_chars(&ls[p + j], &old[j])
        };
        if !same {
            assert(!(if fuzzy {
                squeeze(lv[p + j as int]) == squeeze(ov[j as int])
            } else {
                lv[p + j as int] == ov[j as int]
            }));
            return false;
        }
        j = j + 1;
    }
    true
}

/// The first position where `old` stands in `ls`.
fn find_lines(ls: &Vec<Vec<char>>, old: &Vec<Vec<char>>, fuzzy: bool) -> (r: Option<usize>)
    ensures
        match r {
            Some(p) => find_block(lines_view(ls@), lines_view(old@), 0, fuzzy) == Some(p as int) && p
                + old@.len() <= ls@.len(),
            None => find_block(lines_view(ls@), lines_view(old@), 0, fuzzy) is None,
        },
{
    if old.len() > ls.len() {
        return None;
    }
    let mut p: usize = 0;
    while p <= ls.len() - old.len()
        invariant
            old@.len() <= ls@.len(),
            p + old@.len() <= ls@.len() + 1,
            find_block(lines_view(ls@), lines_view(old@), 0, fuzzy) == find_block(
                lines_view(ls@),
                lines_view(old@),
                p as int,
                fuzzy,
            ),
        decreases ls.len() + 1 - p,
    {
        if block_matches(ls, old, p, fuzzy) {
            return Some(p);
        }
        p = p + 1;
    }
    None
}

/// The text `t` after one hunk.
pub fn apply_hunk(t: &Vec<char>, h: &Hunk) -> (r: Option<Vec<char>>)
    ensures
        match hunk_text(t@, h.view().1, h.view().2) {
            Some(u) => r is Some && r->0@ == u,
            None => r is None,
        },
{
    let ls = to_lines(t);
    let p = match find_lines(&ls, &h.old, false) {
        Some(p) => p,
        None => match find_lines(&ls, &h.old, true) {
            Some(p) => p,
            None => {
                return None;
            },
        },
    };
    let ghost lv = lines_view(ls@);
    let ghost nv = lines_view(h.new@);
    let mut out: Vec<Vec<char>> = Vec::new();
    let mut k: usize = 0;
    while k < p
        invariant
            k <= p,
            p + h.old@.len() <= ls@.len(),
            lv == lines_view(ls@),
            lines_view(out@) == lv.subrange(0, k as int),
        decreases p - k,
    {
        let l = copy_chars(&ls[k]);
        proof {
            lemma_lines_push(out@, l);
        }
        out.push(l);
        k = k + 1;
        assert(lines_view(out@) =~= lv.subrange(0, k as int));
    }
    let mut k: usize = 0;
    while k < h.new.len()
        invariant
            k <= h.new@.len(),
            p + h.old@.len() <= ls@.len(),
            lv == lines_view(ls@),
            nv == lines_view(h.new@),
            lines_view(out@) == lv.subrange(0, p as int) + nv.subrange(0, k as int),
        decreases h.new.len() - k,
    {
        let l = copy_chars(&h.new[k]);
        proof {
            lemma_lines_push(out@, l);
        }
        out.push(l);
        k = k + 1;
        assert(lines_view(out@) =~= lv.subrange(0, p as int) + nv.subrange(0, k as int));
    }
    assert(nv.subrange(0, nv.len() as int) =~= nv);
    let n = ls.len();
    let mut k: usize = p + h.old.len();
    while k < ls.len()
        invariant
            p + h.old@.len() <= k <= ls@.len(),
            lv == lines_view(ls@),
            lines_view(out@) == lv.subrange(0, p as int) + nv + lv.subrange(
                p + h.old@.len(),
                k as int,
            ),
        decreases ls.len() - k,
    {
        let l = copy_chars(&ls[k]);
        proof {
            lemma_lines_push(out@, l);
        }
        out.push(l);
        k = k + 1;
        assert(lines_view(out@) =~= lv.subrange(0, p as int) + nv + lv.subrange(
            p + h.old@.len(),
            k as int,
        ));
    }
    Some(from_lines(&out))
}

proof fn lemma_hunks_err_stays(
    m: Map<Seq<char>, Seq<char>>,
    files: Seq<Seq<char>>,
    hunks: Seq<HunkView>,
    a: int,
    b: int,
    e: (ErrorKind, Seq<char>),
)
    requires
        1 <= a <= b <= hunks.len(),
        apply_hunks(m, files, hunks, a) == Err::<Map<Seq<char>, Seq<char>>, (ErrorKind, Seq<char>)>(e),
    ensures
        apply_hunks(m, files, hunks, b) == Err::<Map<Seq<char>, Seq<char>>, (ErrorKind, Seq<char>)>(e),
    decreases b - a,
{
    if a < b {
        lemma_hunks_err_stays(m, files, hunks, a, b - 1, e);
    }
}

/// Whether `p` is among `v`.
pub fn contains_path(v: &Vec<String>, p: &String) -> (r: bool)
    ensures
        r == paths_view(v@).contains(p@),
{
    let mut i: usize = 0;
    while i < v.len()
        invariant
            i <= v@.len(),
            forall|j: int| 0 <= j < i ==> v@[j]@ != p@,
        decreases v.len() - i,
    {
        if v[i] == *p {
            assert(paths_view(v@)[i as int] == p@);
            return true;
        }
        i = i + 1;
    }
    assert(!paths_view(v@).contains(p@)) by {
        if paths_view(v@).contains(p@) {
            let j = choose|j: int| 0 <= j < paths_view(v@).len() && paths_view(v@)[j] == p@;
            assert(v@[j]@ == p@);
        }
    }
    false
}

impl UDiff {
    /// Applies the diff to the scratch mapping; on failure the mapping is left as it was.
    pub fn apply_to_cache(&self, cache: &mut FileMap) -> (r: Result<(), TenxError>)
        requires
            old(cache).wf(),
        ensures
            final(cache).wf(),
            reports(
                r,
                old(cache)@,
                final(cache)@,
                udiff_outcome(self.patch@, paths_view(self.modified_files@), old(cache)@),
            ),
    {
        let d = to_chars(self.patch.as_str());
        let hunks = match parse_hunks(&d) {
            Some(v) => v,
            None => {
                return Err(TenxError::new(ErrorKind::ParseError, String::new()));
            },
        };
        if hunks.len() == 0 {
            return Err(TenxError::new(ErrorKind::ParseError, String::new()));
        }
        let ghost hv = hunks_view(hunks@);
        let ghost start = cache@;
        let mut work = cache.duplicate();
        let mut i: usize = 0;
        while i < hunks.len()
            invariant
                i <= hunks@.len(),
                work.wf(),
                cache.wf(),
                cache@ == start,
                hv == hunks_view(hunks@),
                diff_hunks(self.patch@) == Some(hv),
                apply_hunks(start, paths_view(self.modified_files@), hv, i as int) == Ok::<
                    Map<Seq<char>, Seq<char>>,
                    (ErrorKind, Seq<char>),
                >(work@),
            decreases hunks.len() - i,
        {
            let h = &hunks[i];
            assert(hv[i as int] == h.view());
            let path = from_chars(&h.path);
            if !contains_path(&self.modified_files, &path) {
                proof {
                    lemma_hunks_err_stays(
                        start,
                        paths_view(self.modified_files@),
                        hv,
                        i + 1,
                        hv.len() as int,
                        (ErrorKind::HunkNotApplicable, h.path@),
                    );
                }
                return Err(TenxError::new(ErrorKind::HunkNotApplicable, path));
            }
            let t = match work.get(&path) {
                Some(t) => to_chars(t.as_str()),
                None => {
                    proof {
                        lemma_hunks_err_stays(
                            start,
                            paths_view(self.modified_files@),
                            hv,
                            i + 1,
                            hv.len() as int,
                            (ErrorKind::ReadFailure, h.path@),
                        );
                    }
                    return Err(TenxError::new(ErrorKind::ReadFailure, path));
                },
            };
            match apply_hunk(&t, h) {
                Some(u) => {
                    work.insert(path, from_chars(&u));
                },
                None => {
                    proof {
                        lemma_hunks_err_stays(
                            start,
                            paths_view(self.modified_files@),
                            hv,
                            i + 1,
                            hv.len() as int,
                            (ErrorKind::HunkNotApplicable, h.path@),
                        );
                    }
                    return Err(TenxError::new(ErrorKind::HunkNotApplicable, path));
                },
            }
            i = i + 1;
        }
        *cache = work;
        Ok(())
    }
}

} // verus!
