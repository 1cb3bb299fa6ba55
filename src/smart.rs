use vstd::prelude::*;

use crate::error::ErrorKind;
use crate::error::TenxError;
use crate::files::FileMap;
use crate::files::Outcome;
use crate::files::reports;
use crate::text::extend_chars;
use crate::text::from_chars;
use crate::text::matches_at;
use crate::text::occurs_at;
use crate::text::same_chars;
use crate::text::is_space;
use crate::text::slice_chars;
use crate::text::space;
use crate::text::splice;
use crate::text::splice_chars;
use crate::text::to_chars;

verus! {

/// A structural merge: each top-level declaration of `text` replaces the declaration of the
/// file with the same key, or is appended to the file when there is none.
#[derive(Clone, Debug, PartialEq, Eq)]
pub struct Smart {
    pub path: String,
    pub text: String,
}

/// Spans as integers.
pub open spec fn spans_view(v: Seq<(usize, usize)>) -> Seq<(int, int)> {
    v.map_values(|p: (usize, usize)| (p.0 as int, p.1 as int))
}

/// Every span is a non-empty range that ends at or before `n`.
pub open spec fn valid_spans(v: Seq<(usize, usize)>, n: int) -> bool {
    forall|j: int| 0 <= j < v.len() ==> #[trigger] v[j].0 < v[j].1 <= n
}

/// The scanner of top-level declarations, from position `i`, at brace depth `depth`, with the
/// open declaration starting at `start` (none when negative) and the spans found so far.
///
/// A declaration starts at a character that is not a space, and ends with the brace that
/// closes its outermost block, or with a `;` outside any block. A closing brace with no
/// open block, or text left open at the end, is not a coherent declaration set.
pub open spec fn scan(s: Seq<char>, i: int, depth: int, start: int, acc: Seq<(int, int)>) -> Option<
    Seq<(int, int)>,
>
    decreases s.len() - i,
{
    if i < 0 || i >= s.len() {
        if start < 0 {
            Some(acc)
        } else {
            None
        }
    } else {
        let c = s[i];
        if start < 0 {
            if is_space(c) {
                scan(s, i + 1, 0, -1, acc)
            } else if c == '}' {
                None
            } else if c == '{' {
                scan(s, i + 1, 1, i, acc)
            } else if c == ';' {
                scan(s, i + 1, 0, -1, acc.push((i, i + 1)))
            } else {
                scan(s, i + 1, 0, i, acc)
            }
        } else {
            if c == '{' {
                scan(s, i + 1, depth + 1, start, acc)
            } else if c == '}' {
                if depth <= 0 {
                    None
                } else if depth == 1 {
                    scan(s, i + 1, 0, -1, acc.push((start, i + 1)))
                } else {
                    scan(s, i + 1, depth - 1, start, acc)
                }
            } else if c == ';' && depth == 0 {
                scan(s, i + 1, 0, -1, acc.push((start, i + 1)))
            } else {
                scan(s, i + 1, depth, start, acc)
            }
        }
    }
}

/// The spans of the top-level declarations of `s`, or `None` when `s` is not coherent.
pub open spec fn declaration_spans(s: Seq<char>) -> Option<Seq<(int, int)>> {
    scan(s, 0, 0, -1, Seq::empty())
}

/// The structural key of a declaration, read from position `i`: the characters before its
/// first `{` or `;`, without spaces, and without the lines (doc comments, attributes) that
/// start with `/` or `#`.
pub open spec fn key_from(d: Seq<char>, i: int, line_start: bool, skipping: bool) -> Seq<char>
    decreases d.len() - i,
{
    if i < 0 || i >= d.len() {
        Seq::empty()
    } else if !skipping && (d[i] == '{' || d[i] == ';') {
        Seq::empty()
    } else if d[i] == '\n' {
        key_from(d, i + 1, true, false)
    } else if skipping {
        key_from(d, i + 1, false, true)
    } else if is_space(d[i]) {
        key_from(d, i + 1, line_start, false)
    } else if line_start && (d[i] == '/' || d[i] == '#') {
        key_from(d, i + 1, false, true)
    } else {
        seq![d[i]] + key_from(d, i + 1, false, false)
    }
}

/// The structural key of a declaration.
pub open spec fn key_of(d: Seq<char>) -> Seq<char> {
    key_from(d, 0, true, false)
}

/// The spans among the first `n` of `spans` whose declaration has key `k`.
pub open spec fn matching(t: Seq<char>, spans: Seq<(int, int)>, k: Seq<char>, n: int) -> Seq<
    (int, int),
>
    decreases n,
{
    if n <= 0 || n > spans.len() {
        Seq::empty()
    } else {
        let sp = spans[n - 1];
        let before = matching(t, spans, k, n - 1);
        if key_of(t.subrange(sp.0, sp.1)) == k {
            before.push(sp)
        } else {
            before
        }
    }
}

/// `d` placed in `t`: in place of the one declaration with the same key, or appended when
/// there is none (indented, inside a block, when `nested`).
pub open spec fn place(t: Seq<char>, d: Seq<char>, nested: bool) -> Result<Seq<char>, ErrorKind> {
    match declaration_spans(t) {
        None => Err(ErrorKind::ParseError),
        Some(spans) => {
            let found = matching(t, spans, key_of(d), spans.len() as int);
            if found.len() == 0 {
                if nested {
                    Ok(t + seq!['\n', ' ', ' ', ' ', ' '] + d + seq!['\n'])
                } else {
                    Ok(t + seq!['\n'] + d + seq!['\n'])
                }
            } else if found.len() == 1 {
                Ok(splice(t, found[0].0, found[0].1 - found[0].0, d))
            } else {
                Err(ErrorKind::AmbiguousTarget)
            }
        }
    }
}

/// The first `n` declarations of `text` (at `spans`) placed in the body `t` of a block.
pub open spec fn place_prefix(t: Seq<char>, text: Seq<char>, spans: Seq<(int, int)>, n: int) -> Result<
    Seq<char>,
    ErrorKind,
>
    decreases n,
{
    if n <= 0 || n > spans.len() {
        Ok(t)
    } else {
        match place_prefix(t, text, spans, n - 1) {
            Ok(u) => place(u, text.subrange(spans[n - 1].0, spans[n - 1].1), true),
            Err(k) => Err(k),
        }
    }
}

/// The position of the first `{` in `x` from `i`, or -1.
pub open spec fn first_open(x: Seq<char>, i: int) -> int
    decreases x.len() - i,
{
    if i < 0 || i >= x.len() {
        -1
    } else if x[i] == '{' {
        i
    } else {
        first_open(x, i + 1)
    }
}

/// `x` ends with the block its first `{` opens.
pub open spec fn is_block(x: Seq<char>) -> bool {
    x.len() > 0 && x.last() == '}' && 0 <= first_open(x, 0)
}

/// What lies between the first `{` of a block and its closing `}`.
pub open spec fn block_body(x: Seq<char>) -> Seq<char> {
    x.subrange(first_open(x, 0) + 1, x.len() - 1)
}

/// A key of an `impl` or a trait: its declarations merge one by one.
pub open spec fn is_container(k: Seq<char>) -> bool {
    occurs_at(k, "impl"@, 0) || occurs_at(k, "trait"@, 0) || occurs_at(k, "pubtrait"@, 0)
}

/// The declarations of the block body `b` merged into the block body `t`.
pub open spec fn merge_body(t: Seq<char>, b: Seq<char>) -> Result<Seq<char>, ErrorKind> {
    match declaration_spans(b) {
        None => Err(ErrorKind::ParseError),
        Some(spans) => place_prefix(t, b, spans, spans.len() as int),
    }
}

/// Merges one declaration `d` into `t`. An `impl` or trait block that matches one block of
/// `t` has its declarations merged into that block; any other declaration is placed whole.
pub open spec fn merge_one(t: Seq<char>, d: Seq<char>) -> Result<Seq<char>, ErrorKind> {
    match declaration_spans(t) {
        None => Err(ErrorKind::ParseError),
        Some(spans) => {
            let found = matching(t, spans, key_of(d), spans.len() as int);
            if found.len() == 1 && is_container(key_of(d)) && is_block(
                t.subrange(found[0].0, found[0].1),
            ) && is_block(d) {
                let td = t.subrange(found[0].0, found[0].1);
                let o = found[0].0 + first_open(td, 0) + 1;
                match merge_body(block_body(td), block_body(d)) {
                    Ok(nb) => Ok(splice(t, o, found[0].1 - 1 - o, nb)),
                    Err(k) => Err(k),
                }
            } else {
                place(t, d, false)
            }
        },
    }
}

/// Merges the first `n` declarations of `text` (at `spans`) into `t`, in order.
pub open spec fn merge_prefix(t: Seq<char>, text: Seq<char>, spans: Seq<(int, int)>, n: int) -> Result<
    Seq<char>,
    ErrorKind,
>
    decreases n,
{
    if n <= 0 || n > spans.len() {
        Ok(t)
    } else {
        match merge_prefix(t, text, spans, n - 1) {
            Ok(u) => merge_one(u, text.subrange(spans[n - 1].0, spans[n - 1].1)),
            Err(k) => Err(k),
        }
    }
}

/// The text of a file after a structural merge of `text` into `t`.
pub open spec fn smart_text(t: Seq<char>, text: Seq<char>) -> Result<Seq<char>, ErrorKind> {
    match declaration_spans(text) {
        None => Err(ErrorKind::ParseError),
        Some(spans) => if spans.len() == 0 {
            Err(ErrorKind::ParseError)
        } else {
            merge_prefix(t, text, spans, spans.len() as int)
        },
    }
}

/// What a structural merge does to a mapping.
pub open spec fn smart_outcome(path: Seq<char>, text: Seq<char>, m: Map<Seq<char>, Seq<char>>) -> Outcome {
    if !m.contains_key(path) {
        Err((ErrorKind::ReadFailure, path))
    } else {
        match smart_text(m[path], text) {
            Ok(t) => Ok(m.insert(path, t)),
            Err(k) => Err((k, path)),
        }
    }
}

proof fn lemma_spans_push(v: Seq<(usize, usize)>, p: (usize, usize))
    ensures
        spans_view(v.push(p)) == spans_view(v).push((p.0 as int, p.1 as int)),
{
    assert(spans_view(v.push(p)) =~= spans_view(v).push((p.0 as int, p.1 as int)));
}

/// The spans of the top-level declarations of `s`.
pub fn declarations(s: &Vec<char>) -> (r: Option<Vec<(usize, usize)>>)
    ensures
        match r {
            Some(v) => declaration_spans(s@) == Some(spans_view(v@)) && valid_spans(v@, s@.len() as int),
            None => declaration_spans(s@) is None,
        },
{
    let mut acc: Vec<(usize, usize)> = Vec::new();
    let mut depth: usize = 0;
    let mut open = false;
    let mut start: usize = 0;
    let mut i: usize = 0;
    assert(spans_view(acc@) =~= Seq::<(int, int)>::empty());
    while i < s.len()
        invariant
            i <= s@.len(),
            depth <= i,
            start <= i,
            !open ==> depth == 0,
            open ==> start < i,
            valid_spans(acc@, i as int),
            declaration_spans(s@) == scan(
                s@,
                i as int,
                depth as int,
                if open { start as int } else { -1 },
                spans_view(acc@),
            ),
        decreases s.len() - i,
    {
        let c = s[i];
        if !open {
            if space(c) {
            } else if c == '}' {
                return None;
            } else if c == '{' {
                open = true;
                start = i;
                depth = 1;
            } else if c == ';' {
                proof {
                    lemma_spans_push(acc@, (i, (i + 1) as usize));
                }
                acc.push((i, i + 1));
            } else {
                open = true;
                start = i;
            }
        } else {
            if c == '{' {
                depth = depth + 1;
            } else if c == '}' {
                if depth == 0 {
                    return None;
                } else if depth == 1 {
                    proof {
                        lemma_spans_push(acc@, (start, (i + 1) as usize));
                    }
                    acc.push((start, i + 1));
                    open = false;
                    depth = 0;
                } else {
                    depth = depth - 1;
                }
            } else if c == ';' && depth == 0 {
                proof {
                    lemma_spans_push(acc@, (start, (i + 1) as usize));
                }
                acc.push((start, i + 1));
                open = false;
            }
        }
        i = i + 1;
    }
    if open {
        None
    } else {
        Some(acc)
    }
}

/// The structural key of a declaration.
pub fn declaration_key(d: &Vec<char>) -> (r: Vec<char>)
    ensures
        r@ == key_of(d@),
{
    let mut r: Vec<char> = Vec::new();
    let mut line_start = true;
    let mut skipping = false;
    let mut i: usize = 0;
    while i < d.len()
        invariant
            i <= d@.len(),
            r@ + key_from(d@, i as int, line_start, skipping) == key_of(d@),
        decreases d.len() - i,
    {
        let c = d[i];
        if !skipping && (c == '{' || c == ';') {
            assert(r@ + key_from(d@, i as int, line_start, skipping) =~= r@);
            return r;
        } else if c == '\n' {
            line_start = true;
            skipping = false;
        } else if skipping {
            line_start = false;
        } else if space(c) {
        } else if line_start && (c == '/' || c == '#') {
            line_start = false;
            skipping = true;
        } else {
            assert(r@.push(c) + key_from(d@, i + 1, false, false) =~= r@ + key_from(
                d@,
                i as int,
                line_start,
                skipping,
            ));
            r.push(c);
            line_start = false;
        }
        i = i + 1;
    }
    assert(r@ + key_from(d@, i as int, line_start, skipping) =~= r@);
    r
}

/// The spans among `spans` whose declaration in `t` has key `key`.
fn find_matching(t: &Vec<char>, spans: &Vec<(usize, usize)>, key: &Vec<char>) -> (r: Vec<(usize, usize)>)
    requires
        valid_spans(spans@, t@.len() as int),
    ensures
        valid_spans(r@, t@.len() as int),
        spans_view(r@) == matching(t@, spans_view(spans@), key@, spans@.len() as int),
{
    let ghost sv = spans_view(spans@);
    let mut found: Vec<(usize, usize)> = Vec::new();
    let mut i: usize = 0;
    assert(spans_view(found@) =~= Seq::<(int, int)>::empty());
    while i < spans.len()
        invariant
            i <= spans@.len(),
            sv == spans_view(spans@),
            valid_spans(spans@, t@.len() as int),
            valid_spans(found@, t@.len() as int),
            spans_view(found@) == matching(t@, sv, key@, i as int),
        decreases spans.len() - i,
    {
        let (a, b) = spans[i];
        let item = slice_chars(t, a, b);
        let k = declaration_key(&item);
        if same_chars(&k, key) {
            proof {
                lemma_spans_push(found@, (a, b));
            }
            found.push((a, b));
        }
        i = i + 1;
    }
    found
}

/// Places `d` in `t`: in place of the one declaration with the same key, or appended.
fn place_declaration(t: &Vec<char>, d: &Vec<char>, nested: bool) -> (r: Result<Vec<char>, ErrorKind>)
    ensures
        match place(t@, d@, nested) {
            Ok(u) => r is Ok && r->Ok_0@ == u,
            Err(k) => r == Err::<Vec<char>, ErrorKind>(k),
        },
{
    let spans = match declarations(t) {
        Some(v) => v,
        None => {
            return Err(ErrorKind::ParseError);
        },
    };
    let key = declaration_key(d);
    let found = find_matching(t, &spans, &key);
    if found.len() == 0 {
        let mut u: Vec<char> = Vec::new();
        extend_chars(&mut u, t);
        u.push('\n');
        if nested {
            u.push(' ');
            u.push(' ');
            u.push(' ');
            u.push(' ');
        }
        extend_chars(&mut u, d);
        u.push('\n');
        if nested {
            assert(u@ =~= t@ + seq!['\n', ' ', ' ', ' ', ' '] + d@ + seq!['\n']);
        } else {
            assert(u@ =~= t@ + seq!['\n'] + d@ + seq!['\n']);
        }
        Ok(u)
    } else if found.len() == 1 {
        let (a, b) = found[0];
        assert(spans_view(found@)[0] == (a as int, b as int));
        Ok(splice_chars(t, a, b - a, d))
    } else {
        Err(ErrorKind::AmbiguousTarget)
    }
}

/// The position of the first `{` in `x`.
fn find_open(x: &Vec<char>) -> (r: Option<usize>)
    ensures
        match r {
            Some(i) => first_open(x@, 0) == i as int && i < x@.len() && x@[i as int] == '{',
            None => first_open(x@, 0) == -1,
        },
{
    let mut i: usize = 0;
    while i < x.len()
        invariant
            i <= x@.len(),
            first_open(x@, 0) == first_open(x@, i as int),
        decreases x.len() - i,
    {
        if x[i] == '{' {
            return Some(i);
        }
        i = i + 1;
    }
    None
}

/// Whether `k` is the key of an `impl` or a trait.
fn container_key(k: &Vec<char>) -> (r: bool)
    ensures
        r == is_container(k@),
{
    let a = to_chars("impl");
    let b = to_chars("trait");
    let c = to_chars("pubtrait");
    matches_at(k, &a, 0) || matches_at(k, &b, 0) || matches_at(k, &c, 0)
}

/// The declarations of the block body `b` merged into the block body `t`.
fn merge_block_body(t: &Vec<char>, b: &Vec<char>) -> (r: Result<Vec<char>, ErrorKind>)
    ensures
        match merge_body(t@, b@) {
            Ok(u) => r is Ok && r->Ok_0@ == u,
            Err(k) => r == Err::<Vec<char>, ErrorKind>(k),
        },
{
    let spans = match declarations(b) {
        Some(v) => v,
        None => {
            return Err(ErrorKind::ParseError);
        },
    };
    let ghost sv = spans_view(spans@);
    let mut cur: Vec<char> = slice_chars(t, 0, t.len());
    assert(cur@ =~= t@);
    let mut i: usize = 0;
    while i < spans.len()
        invariant
            i <= spans@.len(),
            sv == spans_view(spans@),
            valid_spans(spans@, b@.len() as int),
            declaration_spans(b@) == Some(sv),
            place_prefix(t@, b@, sv, i as int) == Ok::<Seq<char>, ErrorKind>(cur@),
        decreases spans.len() - i,
    {
        let (x, y) = spans[i];
        let item = slice_chars(b, x, y);
        assert(sv[i as int] == (x as int, y as int));
        match place_declaration(&cur, &item, true) {
            Ok(u) => {
                cur = u;
            },
            Err(k) => {
                assert(place_prefix(t@, b@, sv, i + 1) == Err::<Seq<char>, ErrorKind>(k));
                proof {
                    lemma_place_err_stays(t@, b@, sv, i + 1, sv.len() as int, k);
                }
                return Err(k);
            },
        }
        i = i + 1;
    }
    Ok(cur)
}

proof fn lemma_place_err_stays(
    t: Seq<char>,
    text: Seq<char>,
    spans: Seq<(int, int)>,
    a: int,
    b: int,
    k: ErrorKind,
)
    requires
        1 <= a <= b <= spans.len(),
        place_prefix(t, text, spans, a) == Err::<Seq<char>, ErrorKind>(k),
    ensures
        place_prefix(t, text, spans, b) == Err::<Seq<char>, ErrorKind>(k),
    decreases b - a,
{
    if a < b {
        lemma_place_err_stays(t, text, spans, a, b - 1, k);
    }
}

/// Merges one declaration `d` into `t`.
pub fn merge_declaration(t: &Vec<char>, d: &Vec<char>) -> (r: Result<Vec<char>, ErrorKind>)
    ensures
        match merge_one(t@, d@) {
            Ok(u) => r is Ok && r->Ok_0@ == u,
            Err(k) => r == Err::<Vec<char>, ErrorKind>(k),
        },
{
    let spans = match declarations(t) {
        Some(v) => v,
        None => {
            return Err(ErrorKind::ParseError);
        },
    };
    let key = declaration_key(d);
    let found = find_matching(t, &spans, &key);
    if found.len() == 1 && container_key(&key) {
        let (a, b) = found[0];
        assert(spans_view(found@)[0] == (a as int, b as int));
        let td = slice_chars(t, a, b);
        let n = d.len();
        if td[b - a - 1] == '}' && n > 0 && d[n - 1] == '}' {
            match (find_open(&td), find_open(d)) {
                (Some(ot), Some(od)) => {
                    let tb = slice_chars(&td, ot + 1, b - a - 1);
                    let db = slice_chars(d, od + 1, n - 1);
                    return match merge_block_body(&tb, &db) {
                        Ok(nb) => {
                            let o = a + ot + 1;
                            Ok(splice_chars(t, o, b - 1 - o, &nb))
                        },
                        Err(k) => Err(k),
                    };
                },
                _ => {},
            }
        }
    }
    place_declaration(t, d, false)
}

/// The text of a file after a structural merge of `text` into `t`.
pub fn merge_text(t: &Vec<char>, text: &Vec<char>) -> (r: Result<Vec<char>, ErrorKind>)
    ensures
        match smart_text(t@, text@) {
            Ok(u) => r is Ok && r->Ok_0@ == u,
            Err(k) => r == Err::<Vec<char>, ErrorKind>(k),
        },
{
    let spans = match declarations(text) {
        Some(v) => v,
        None => {
            return Err(ErrorKind::ParseError);
        },
    };
    if spans.len() == 0 {
        return Err(ErrorKind::ParseError);
    }
    let ghost sv = spans_view(spans@);
    let mut cur: Vec<char> = slice_chars(t, 0, t.len());
    assert(cur@ =~= t@);
    let mut i: usize = 0;
    while i < spans.len()
        invariant
            i <= spans@.len(),
            sv == spans_view(spans@),
            valid_spans(spans@, text@.len() as int),
            declaration_spans(text@) == Some(sv),
            merge_prefix(t@, text@, sv, i as int) == Ok::<Seq<char>, ErrorKind>(cur@),
        decreases spans.len() - i,
    {
        let (a, b) = spans[i];
        let item = slice_chars(text, a, b);
        assert(sv[i as int] == (a as int, b as int));
        match merge_declaration(&cur, &item) {
            Ok(u) => {
                cur = u;
            },
            Err(k) => {
                assert(merge_prefix(t@, text@, sv, i + 1) == Err::<Seq<char>, ErrorKind>(k));
                proof {
                    lemma_merge_err_stays(t@, text@, sv, i + 1, sv.len() as int, k);
                }
                return Err(k);
            },
        }
        i = i + 1;
    }
    Ok(cur)
}

proof fn lemma_merge_err_stays(
    t: Seq<char>,
    text: Seq<char>,
    spans: Seq<(int, int)>,
    a: int,
    b: int,
    k: ErrorKind,
)
    requires
        1 <= a <= b <= spans.len(),
        merge_prefix(t, text, spans, a) == Err::<Seq<char>, ErrorKind>(k),
    ensures
        merge_prefix(t, text, spans, b) == Err::<Seq<char>, ErrorKind>(k),
    decreases b - a,
{
    if a < b {
        lemma_merge_err_stays(t, text, spans, a, b - 1, k);
    }
}

impl Smart {
    /// Applies the structural merge to the scratch mapping.
    pub fn apply_to_cache(&self, cache: &mut FileMap) -> (r: Result<(), TenxError>)
        requires
            old(cache).wf(),
        ensures
            final(cache).wf(),
            reports(r, old(cache)@, final(cache)@, smart_outcome(self.path@, self.text@, old(cache)@)),
    {
        let current = match cache.get(&self.path) {
            Some(t) => to_chars(t.as_str()),
            None => {
                return Err(TenxError::new(ErrorKind::ReadFailure, self.path.clone()));
            },
        };
        let text = to_chars(self.text.as_str());
        match merge_text(&current, &text) {
            Ok(u) => {
                cache.insert(self.path.clone(), from_chars(&u));
                Ok(())
            },
            Err(k) => Err(TenxError::new(k, self.path.clone())),
        }
    }
}

} // verus!
