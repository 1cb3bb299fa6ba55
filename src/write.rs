use vstd::prelude::*;

use crate::error::TenxError;
use crate::files::FileMap;
use crate::files::Outcome;
use crate::files::reports;

verus! {

/// Replaces the whole text of a file.
#[derive(Clone, Debug, PartialEq, Eq)]
pub struct WriteFile {
    pub path: String,
    pub content: String,
}

/// A write always succeeds: the path now holds the new content.
pub open spec fn write_outcome(
    path: Seq<char>,
    content: Seq<char>,
    m: Map<Seq<char>, Seq<char>>,
) -> Outcome {
    Ok(m.insert(path, content))
}

impl WriteFile {
    /// Applies the write to the scratch mapping.
    pub fn apply_to_cache(&self, cache: &mut FileMap) -> (r: Result<(), TenxError>)
        requires
            old(cache).wf(),
        ensures
            final(cache).wf(),
            reports(r, old(cache)@, final(cache)@, write_outcome(self.path@, self.content@, old(cache)@)),
    {
        cache.insert(self.path.clone(), self.content.clone());
        Ok(())
    }
}

} // verus!
