use vstd::prelude::*;

use crate::error::ErrorKind;
use crate::error::TenxError;
use crate::files::FileMap;
use crate::files::Outcome;
use crate::files::reports;
use crate::text::find_from;
use crate::text::from_chars;
use crate::text::occurs;
use crate::text::occurs_at;
use crate::text::occurs_twice;
use crate::text::splice;
use crate::text::splice_chars;
use crate::text::to_chars;

verus! {

/// Replaces the one occurrence of `old` in a file by `new`.
#[derive(Clone, Debug, PartialEq, Eq)]
pub struct Replace {
    pub path: String,
    pub old: String,
    pub new: String,
}

/// The text after replacing the single occurrence of `old` in `s` by `new`; an error when
/// `old` does not occur, or occurs more than once.
pub open spec fn replace_text(s: Seq<char>, old: Seq<char>, new: Seq<char>) -> Result<
    Seq<char>,
    ErrorKind,
> {
    if !occurs(s, old) {
        Err(ErrorKind::NoMatch)
    } else if occurs_twice(s, old) {
        Err(ErrorKind::AmbiguousMatch)
    } else {
        Ok(splice(s, choose|i: int| occurs_at(s, old, i), old.len() as int, new))
    }
}

/// What a replace does to a mapping: the file must be there, and the replacement must be
/// unambiguous.
pub open spec fn replace_outcome(
    path: Seq<char>,
    old: Seq<char>,
    new: Seq<char>,
    m: Map<Seq<char>, Seq<char>>,
) -> Outcome {
    if !m.contains_key(path) {
        Err((ErrorKind::ReadFailure, path))
    } else {
        match replace_text(m[path], old, new) {
            Ok(t) => Ok(m.insert(path, t)),
            Err(k) => Err((k, path)),
        }
    }
}

/// Replaces the single occurrence of `old` in `s` by `new`.
pub fn replace_in(s: &Vec<char>, old: &Vec<char>, new: &Vec<char>) -> (r: Result<
    Vec<char>,
    ErrorKind,
>)
    ensures
        match replace_text(s@, old@, new@) {
            Ok(t) => r is Ok && r->Ok_0@ == t,
            Err(k) => r == Err::<Vec<char>, ErrorKind>(k),
        },
{
    match find_from(s, old, 0) {
        None => {
            assert(!occurs(s@, old@));
            Err(ErrorKind::NoMatch)
        },
        Some(i) => {
            if i < s.len() {
                match find_from(s, old, i + 1) {
                    Some(j) => {
                        assert(occurs_at(s@, old@, i as int) && occurs_at(s@, old@, j as int));
                        return Err(ErrorKind::AmbiguousMatch);
                    },
                    None => {},
                }
            } else {
                assert forall|k: int| i < k implies !occurs_at(s@, old@, k) by {}
            }
            assert(!occurs_twice(s@, old@));
            let ghost c = choose|c: int| occurs_at(s@, old@, c);
            assert(c == i);
            Ok(splice_chars(s, i, old.len(), new))
        },
    }
}

impl Replace {
    /// Applies the replacement to the scratch mapping.
    pub fn apply_to_cache(&self, cache: &mut FileMap) -> (r: Result<(), TenxError>)
        requires
            old(cache).wf(),
        ensures
            final(cache).wf(),
            reports(
                r,
                old(cache)@,
                final(cache)@,
                replace_outcome(self.path@, self.old@, self.new@, old(cache)@),
            ),
    {
        let current = match cache.get(&self.path) {
            Some(t) => to_chars(t.as_str()),
            None => {
                return Err(TenxError::new(ErrorKind::ReadFailure, self.path.clone()));
            },
        };
        let old_chars = to_chars(self.old.as_str());
        let new_chars = to_chars(self.new.as_str());
        match replace_in(&current, &old_chars, &new_chars) {
            Ok(t) => {
                cache.insert(self.path.clone(), from_chars(&t));
                Ok(())
            },
            Err(k) => Err(TenxError::new(k, self.path.clone())),
        }
    }
}

} // verus!
