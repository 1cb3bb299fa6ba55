use vstd::prelude::*;

use crate::files::FileMap;
use crate::glob::glob_match;
use crate::glob::glob_matches;
use crate::files::paths_view;

verus! {

/// Which files of the project are included.
#[derive(Clone, Debug, PartialEq, Eq)]
pub enum Include {
    /// Every file of the project.
    Git,
    /// The files that match one of the patterns.
    Glob(Vec<String>),
}

/// Settings of the assistant.
#[derive(Clone, Debug)]
pub struct Config {
    pub anthropic_key: String,
    pub session_store_dir: Option<String>,
    pub inclusion: Include,
}

/// Whether `path` is included under `inclusion`.
pub open spec fn included(inclusion: Include, path: Seq<char>) -> bool {
    match inclusion {
        Include::Git => true,
        Include::Glob(gs) => any_glob(gs@, path),
    }
}

/// `path` is included, and matches `pattern` when there is one.
pub open spec fn selected(inclusion: Include, pattern: Option<Seq<char>>, path: Seq<char>) -> bool {
    included(inclusion, path) && match pattern {
        Some(g) => glob_match(g, path),
        None => true,
    }
}

/// One of the patterns `gs` matches `path`.
pub open spec fn any_glob(gs: Seq<String>, path: Seq<char>) -> bool {
    exists|i: int| 0 <= i < gs.len() && glob_match(#[trigger] gs[i]@, path)
}

impl Config {
    /// Settings with no key, no session store directory, and every file included.
    pub fn new() -> (r: Config)
        ensures
            r.anthropic_key@ == Seq::<char>::empty(),
            r.session_store_dir is None,
            r.inclusion == Include::Git,
    {
        Config { anthropic_key: String::new(), session_store_dir: None, inclusion: Include::Git }
    }

    /// Sets the Anthropic API key.
    pub fn with_anthropic_key(self, key: String) -> (r: Config)
        ensures
            r.anthropic_key == key,
            r.session_store_dir == self.session_store_dir,
            r.inclusion == self.inclusion,
    {
        Config { anthropic_key: key, ..self }
    }

    /// Sets the session store directory.
    pub fn with_session_store_dir(self, dir: String) -> (r: Config)
        ensures
            r.session_store_dir == Some(dir),
            r.anthropic_key == self.anthropic_key,
            r.inclusion == self.inclusion,
    {
        Config { session_store_dir: Some(dir), ..self }
    }

    /// Whether `path` is included.
    pub fn is_included(&self, path: &String) -> (r: bool)
        ensures
            r == included(self.inclusion, path@),
    {
        match &self.inclusion {
            Include::Git => true,
            Include::Glob(gs) => {
                let mut i: usize = 0;
                while i < gs.len()
                    invariant
                        self.inclusion == Include::Glob(*gs),
                        i <= gs@.len(),
                        forall|k: int| 0 <= k < i ==> !glob_match(#[trigger] gs@[k]@, path@),
                    decreases gs.len() - i,
                {
                    if glob_matches(gs[i].as_str(), path.as_str()) {
                        assert(glob_match(gs@[i as int]@, path@));
                        assert(any_glob(gs@, path@));
                        return true;
                    }
                    i = i + 1;
                }
                false
            },
        }
    }

    /// The included files of `project` that the glob `pattern` matches.
    pub fn match_files_with_glob(&self, project: &FileMap, pattern: &String) -> (r: Vec<String>)
        requires
            project.wf(),
        ensures
            forall|k: Seq<char>|
                #[trigger] paths_view(r@).contains(k) <==> (project@.contains_key(k) && included(
                    self.inclusion,
                    k,
                ) && glob_match(pattern@, k)),
            paths_view(r@).no_duplicates(),
    {
        self.select(project, Some(pattern))
    }

    /// The included files of `project`.
    pub fn included_files(&self, project: &FileMap) -> (r: Vec<String>)
        requires
            project.wf(),
        ensures
            forall|k: Seq<char>|
                #[trigger] paths_view(r@).contains(k) <==> (project@.contains_key(k) && included(
                    self.inclusion,
                    k,
                )),
    {
        self.select(project, None)
    }

    /// The included files of `project`, and when a pattern is given, those it matches.
    fn select(&self, project: &FileMap, pattern: Option<&String>) -> (r: Vec<String>)
        requires
            project.wf(),
        ensures
            forall|k: Seq<char>|
                #[trigger] paths_view(r@).contains(k) <==> (project@.contains_key(k) && included(
                    self.inclusion,
                    k,
                ) && match pattern {
                    Some(g) => glob_match(g@, k),
                    None => true,
                }),
            paths_view(r@).no_duplicates(),
    {
        let all = project.paths();
        let ghost pv = paths_view(all@);
        assert(pv.no_duplicates()) by {
            assert forall|a: int, b: int| 0 <= a < pv.len() && 0 <= b < pv.len() && a != b implies pv[a]
                != pv[b] by {
                if a < b {
                    assert(all@[a]@ != all@[b]@);
                } else {
                    assert(all@[b]@ != all@[a]@);
                }
            }
        }
        proof {
            assert forall|k: Seq<char>| project@.contains_key(k) <==> pv.contains(k) by {
                if project@.contains_key(k) {
                    let j = choose|j: int| 0 <= j < all@.len() && #[trigger] all@[j]@ == k;
                    assert(pv[j] == k);
                }
                if pv.contains(k) {
                    let j = choose|j: int| 0 <= j < pv.len() && pv[j] == k;
                    assert(all@[j]@ == k);
                }
            }
        }
        let ghost pat = match pattern {
            Some(g) => Some(g@),
            None => None,
        };
        let mut r: Vec<String> = Vec::new();
        let mut i: usize = 0;
        assert(pv.subrange(0, 0) =~= Seq::<Seq<char>>::empty());
        assert(paths_view(r@) =~= Seq::<Seq<char>>::empty());
        while i < all.len()
            invariant
                i <= all@.len(),
                pv == paths_view(all@),
                pat == match pattern {
                    Some(g) => Some(g@),
                    None => None,
                },
                pv.no_duplicates(),
                paths_view(r@).no_duplicates(),
                forall|j: int|
                    0 <= j < r@.len() ==> #[trigger] pv.subrange(0, i as int).contains(r@[j]@),
                forall|k: Seq<char>| project@.contains_key(k) <==> pv.contains(k),
                forall|k: Seq<char>|
                    #[trigger] paths_view(r@).contains(k) <==> (pv.subrange(0, i as int).contains(k)
                        && selected(self.inclusion, pat, k)),
            decreases all.len() - i,
        {
            let p = &all[i];
            assert(pv[i as int] == p@);
            let ghost before = paths_view(r@);
            let keep = self.is_included(p) && match pattern {
                Some(g) => glob_matches(g.as_str(), p.as_str()),
                None => true,
            };
            assert(keep == selected(self.inclusion, pat, p@));
            if keep {
                assert(!before.contains(p@)) by {
                    if before.contains(p@) {
                        let j = choose|j: int| 0 <= j < before.len() && before[j] == p@;
                        assert(pv.subrange(0, i as int).contains(r@[j]@));
                        let m = choose|m: int|
                            0 <= m < i && pv.subrange(0, i as int)[m] == r@[j]@;
                        assert(pv[m] == pv[i as int]);
                    }
                }
                r.push(p.clone());
                assert(paths_view(r@) =~= before.push(p@));
                proof {
                    lemma_push_contains(before, p@);
                }
            } else {
                assert(paths_view(r@) =~= before);
            }
            proof {
                lemma_prefix_contains(pv, i as int);
                assert forall|j: int| 0 <= j < r@.len() implies #[trigger] pv.subrange(
                    0,
                    i + 1,
                ).contains(r@[j]@) by {
                    if j < before.len() {
                        assert(before[j] == r@[j]@);
                        assert(pv.subrange(0, i as int).contains(before[j]));
                    } else {
                        assert(r@[j]@ == p@);
                    }
                }
                assert forall|k: Seq<char>| #[trigger] paths_view(r@).contains(k) <==> (pv.subrange(
                    0,
                    i + 1,
                ).contains(k) && selected(self.inclusion, pat, k)) by {
                    assert(before.contains(k) <==> (pv.subrange(0, i as int).contains(k) && selected(
                        self.inclusion,
                        pat,
                        k,
                    )));
                    if keep {
                        assert(paths_view(r@).contains(k) <==> before.contains(k) || k == p@);
                    } else {
                        assert(paths_view(r@).contains(k) <==> before.contains(k));
                    }
                    assert(pv.subrange(0, i + 1).contains(k) <==> pv.subrange(0, i as int).contains(k)
                        || k == pv[i as int]);
                }
            }
            i = i + 1;
        }
        assert(pv.subrange(0, pv.len() as int) =~= pv);
        r
    }
}

/// What `s.push(x)` contains.
pub proof fn lemma_push_contains(s: Seq<Seq<char>>, x: Seq<char>)
    ensures
        forall|k: Seq<char>| s.push(x).contains(k) <==> s.contains(k) || k == x,
{
    assert forall|k: Seq<char>| s.push(x).contains(k) <==> s.contains(k) || k == x by {
        if s.push(x).contains(k) && k != x {
            let j = choose|j: int| 0 <= j < s.push(x).len() && s.push(x)[j] == k;
            assert(s[j] == k);
        }
        if s.contains(k) {
            let j = choose|j: int| 0 <= j < s.len() && s[j] == k;
            assert(s.push(x)[j] == k);
        }
        if k == x {
            assert(s.push(x)[s.len() as int] == k);
        }
    }
}

/// What a prefix one longer contains.
pub proof fn lemma_prefix_contains(s: Seq<Seq<char>>, i: int)
    requires
        0 <= i < s.len(),
    ensures
        forall|k: Seq<char>|
            s.subrange(0, i + 1).contains(k) <==> s.subrange(0, i).contains(k) || k == s[i],
{
    assert(s.subrange(0, i + 1) =~= s.subrange(0, i).push(s[i]));
    lemma_push_contains(s.subrange(0, i), s[i]);
}

/// The included files of a project, relative to its root.
pub fn walk_project(config: &Config, project: &FileMap) -> (r: Vec<String>)
    requires
        project.wf(),
    ensures
        forall|k: Seq<char>|
            paths_view(r@).contains(k) <==> (project@.contains_key(k) && included(config.inclusion, k)),
{
    config.included_files(project)
}

} // verus!
