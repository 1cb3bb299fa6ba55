use vstd::prelude::*;

use crate::text::to_chars;

verus! {

/// Whether the pattern `p` from position `i` matches the path `s` from position `j`.
///
/// `*` matches a run of characters without `/`, `?` one character other than `/`, and `**/`
/// zero or more whole directories; any other character matches itself. With `seg` set, the
/// matcher is inside a directory that a `**/` at `i` is consuming.
pub open spec fn glob_at(p: Seq<char>, s: Seq<char>, i: int, j: int, seg: bool) -> bool
    decreases 2 * (s.len() - j) + (p.len() - i) + (if seg {
        0int
    } else {
        1int
    }),
{
    if i < 0 || j < 0 || i > p.len() || j > s.len() {
        false
    } else if seg {
        if j >= s.len() {
            false
        } else if s[j] == '/' {
            glob_at(p, s, i, j + 1, false)
        } else {
            glob_at(p, s, i, j + 1, true)
        }
    } else if i == p.len() {
        j == s.len()
    } else if i + 2 < p.len() && p[i] == '*' && p[i + 1] == '*' && p[i + 2] == '/' {
        glob_at(p, s, i + 3, j, false) || glob_at(p, s, i, j, true)
    } else if p[i] == '*' {
        glob_at(p, s, i + 1, j, false) || (j < s.len() && s[j] != '/' && glob_at(
            p,
            s,
            i,
            j + 1,
            false,
        ))
    } else if j == s.len() {
        false
    } else if p[i] == '?' {
        s[j] != '/' && glob_at(p, s, i + 1, j + 1, false)
    } else {
        p[i] == s[j] && glob_at(p, s, i + 1, j + 1, false)
    }
}

/// Whether the pattern `p` matches the whole path `s`.
pub open spec fn glob_match(p: Seq<char>, s: Seq<char>) -> bool {
    glob_at(p, s, 0, 0, false)
}

fn matches_from(p: &Vec<char>, s: &Vec<char>, i: usize, j: usize, seg: bool) -> (r: bool)
    requires
        i <= p@.len(),
        j <= s@.len(),
    ensures
        r == glob_at(p@, s@, i as int, j as int, seg),
    decreases 2 * (s@.len() - j) + (p@.len() - i) + (if seg {
        0int
    } else {
        1int
    }),
{
    if seg {
        if j >= s.len() {
            false
        } else if s[j] == '/' {
            matches_from(p, s, i, j + 1, false)
        } else {
            matches_from(p, s, i, j + 1, true)
        }
    } else if i == p.len() {
        j == s.len()
    } else if p.len() - i > 2 && p[i] == '*' && p[i + 1] == '*' && p[i + 2] == '/' {
        matches_from(p, s, i + 3, j, false) || matches_from(p, s, i, j, true)
    } else if p[i] == '*' {
        matches_from(p, s, i + 1, j, false) || (j < s.len() && s[j] != '/' && matches_from(
            p,
            s,
            i,
            j + 1,
            false,
        ))
    } else if j == s.len() {
        false
    } else if p[i] == '?' {
        s[j] != '/' && matches_from(p, s, i + 1, j + 1, false)
    } else {
        p[i] == s[j] && matches_from(p, s, i + 1, j + 1, false)
    }
}

/// Whether the glob `pattern` matches the whole relative path `path`.
pub fn glob_matches(pattern: &str, path: &str) -> (r: bool)
    ensures
        r == glob_match(pattern@, path@),
{
    let p = to_chars(pattern);
    let s = to_chars(path);
    matches_from(&p, &s, 0, 0, false)
}

} // verus!
