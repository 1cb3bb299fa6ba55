use vstd::prelude::*;

use crate::config::Config;
use crate::config::selected;
use crate::error::ErrorKind;
use crate::error::TenxError;
use crate::files::FileMap;
use crate::text::occurs;

verus! {

/// An individual context item.
#[derive(Clone, Debug, PartialEq, Eq)]
pub struct ContextItem {
    /// The type of context.
    pub ty: String,
    /// The name of the context.
    pub name: String,
    /// The contents of the context.
    pub body: String,
}

#[derive(Clone, Copy, Debug, PartialEq, Eq, Structural)]
pub enum ContextType {
    Ruskel,
    Path,
}

/// A provider of reference material for the prompt.
pub trait ContextProvider {
    /// The type of the provider, as a value.
    spec fn typ_spec(&self) -> ContextType;

    /// The name of the provider, as a value.
    spec fn name_spec(&self) -> Seq<char>;

    /// The human-readable representation of the provider, as a value.
    spec fn human_spec(&self) -> Seq<char>;

    /// `r` is what the provider gives as context items for `project`.
    spec fn contexts_spec(
        &self,
        config: Config,
        project: Map<Seq<char>, Seq<char>>,
        r: Result<Vec<ContextItem>, TenxError>,
    ) -> bool;

    /// `r` is the number of context items the provider gives for `project`.
    spec fn count_spec(
        &self,
        config: Config,
        project: Map<Seq<char>, Seq<char>>,
        r: Result<usize, TenxError>,
    ) -> bool;

    /// The type of the context provider.
    fn typ(&self) -> (r: ContextType)
        ensures
            r == self.typ_spec(),
    ;

    /// The name of the context provider.
    fn name(&self) -> (r: String)
        ensures
            r@ == self.name_spec(),
    ;

    /// The context items of this provider, read from `project`.
    fn contexts(&self, config: &Config, project: &FileMap) -> (r: Result<Vec<ContextItem>, TenxError>)
        requires
            project.wf(),
        ensures
            self.contexts_spec(*config, project@, r),
    ;

    /// A human-readable representation of the provider.
    fn human(&self) -> (r: String)
        ensures
            r@ == self.human_spec(),
    ;

    /// The number of context items of this provider.
    fn count(&self, config: &Config, project: &FileMap) -> (r: Result<usize, TenxError>)
        requires
            project.wf(),
        ensures
            self.count_spec(*config, project@, r),
    ;
}

/// Documentation of a Rust module, rendered elsewhere and held as text.
#[derive(Clone, Debug, PartialEq, Eq)]
pub struct Ruskel {
    name: String,
    content: String,
}

impl Ruskel {
    pub fn new(name: String) -> (r: Ruskel)
        ensures
            r.name_view() == name@,
            r.content_view() == Seq::<char>::empty(),
    {
        Ruskel { name, content: String::new() }
    }

    pub closed spec fn name_view(&self) -> Seq<char> {
        self.name@
    }

    pub closed spec fn content_view(&self) -> Seq<char> {
        self.content@
    }

    /// The name of the module.
    pub fn module_name(&self) -> (r: &String)
        ensures
            r@ == self.name_view(),
    {
        &self.name
    }

    /// Sets the rendered documentation.
    pub fn set_content(&mut self, content: String)
        ensures
            final(self).content_view() == content@,
            final(self).name_view() == old(self).name_view(),
    {
        self.content = content;
    }

    /// The one item: the rendered documentation.
    pub fn items(&self) -> (r: Vec<ContextItem>)
        ensures
            r@.len() == 1,
            r@[0].ty@ == "ruskel"@,
            r@[0].name@ == self.name_view(),
            r@[0].body@ == self.content_view(),
    {
        let item = ContextItem {
            ty: String::from_str("ruskel"),
            name: self.name.clone(),
            body: self.content.clone(),
        };
        vec![item]
    }

    /// `ruskel: ` followed by the name.
    pub fn describe(&self) -> (r: String)
        ensures
            r@ == "ruskel: "@ + self.name_view(),
    {
        String::from_str("ruskel: ").concat(self.name.as_str())
    }
}

#[derive(Clone, Debug, PartialEq, Eq)]
pub enum PathType {
    SinglePath(String),
    Pattern(String),
}

/// Files of the project given by a path or a glob pattern.
#[derive(Clone, Debug, PartialEq, Eq)]
pub struct Path {
    path_type: PathType,
}

/// No two items have the same name.
pub open spec fn distinct_names(items: Seq<ContextItem>) -> bool {
    forall|a: int, b: int| 0 <= a < b < items.len() ==> items[a].name@ != items[b].name@
}

/// The items for the files of a path context: each a `file` named by its path, with the
/// file's text as body.
pub open spec fn file_items(items: Seq<ContextItem>, project: Map<Seq<char>, Seq<char>>) -> bool {
    forall|i: int|
        0 <= i < items.len() ==> #[trigger] items[i].ty@ == "file"@ && project.contains_key(
            items[i].name@,
        ) && items[i].body@ == project[items[i].name@]
}

impl Path {
    /// A path context: a pattern when it holds `*`, else a single path.
    pub fn new(_config: &Config, pattern: String) -> (r: Result<Path, TenxError>)
        ensures
            r is Ok,
            occurs(pattern@, seq!['*']) ==> r->Ok_0.kind() == PathType::Pattern(pattern),
            !occurs(pattern@, seq!['*']) ==> r->Ok_0.kind() == PathType::SinglePath(pattern),
            r->Ok_0.text_spec() == pattern@,
    {
        let star = vec!['*'];
        assert(star@ =~= seq!['*']);
        let chars = crate::text::to_chars(pattern.as_str());
        let path_type = match crate::text::find_from(&chars, &star, 0) {
            Some(i) => {
                assert(crate::text::occurs_at(pattern@, seq!['*'], i as int));
                PathType::Pattern(pattern)
            },
            None => PathType::SinglePath(pattern),
        };
        Ok(Path { path_type })
    }

    /// `r` holds the items of the files: the single path, which must exist in `project`, or
    /// every included file the pattern matches, each once.
    pub open spec fn items_spec(
        &self,
        config: Config,
        project: Map<Seq<char>, Seq<char>>,
        r: Result<Vec<ContextItem>, TenxError>,
    ) -> bool {
        match self.kind() {
            PathType::SinglePath(p) => if project.contains_key(p@) {
                r is Ok && r->Ok_0@.len() == 1 && r->Ok_0@[0].name@ == p@ && file_items(
                    r->Ok_0@,
                    project,
                )
            } else {
                r is Err && r->Err_0.kind == ErrorKind::ReadFailure && r->Err_0.subject@ == p@
            },
            PathType::Pattern(g) => r is Ok && file_items(r->Ok_0@, project) && (forall|
                k: Seq<char>,
            | (project.contains_key(k) && selected(config.inclusion, Some(g@), k)) <==> exists|
                i: int,
            | 0 <= i < r->Ok_0@.len() && #[trigger] r->Ok_0@[i].name@ == k) && distinct_names(
                r->Ok_0@,
            ),
        }
    }

    /// The number of files: one for a single path, else those the pattern matches.
    pub open spec fn file_count_spec(&self, config: Config, project: Map<Seq<char>, Seq<char>>) -> nat {
        match self.kind() {
            PathType::SinglePath(_) => 1,
            PathType::Pattern(g) => project.dom().filter(
                |k: Seq<char>| selected(config.inclusion, Some(g@), k),
            ).len(),
        }
    }

    /// The path or the pattern.
    pub open spec fn text_spec(&self) -> Seq<char> {
        match self.kind() {
            PathType::SinglePath(p) => p@,
            PathType::Pattern(p) => p@,
        }
    }

    pub closed spec fn kind(&self) -> PathType {
        self.path_type
    }

    /// The path or the pattern.
    pub fn text(&self) -> (r: &String)
        ensures
            r@ == match self.kind() {
                PathType::SinglePath(p) => p@,
                PathType::Pattern(p) => p@,
            },
    {
        match &self.path_type {
            PathType::SinglePath(p) => p,
            PathType::Pattern(p) => p,
        }
    }

    /// The items of the files: the single path, which must exist in `project`, or every
    /// included file the pattern matches.
    pub fn items(&self, config: &Config, project: &FileMap) -> (r: Result<Vec<ContextItem>, TenxError>)
        requires
            project.wf(),
        ensures
            self.items_spec(*config, project@, r),
    {
        match &self.path_type {
            PathType::SinglePath(p) => match project.get(p) {
                Some(body) => {
                    let item = ContextItem {
                        ty: String::from_str("file"),
                        name: p.clone(),
                        body: body.clone(),
                    };
                    let r = vec![item];
                    Ok(r)
                },
                None => Err(TenxError::new(ErrorKind::ReadFailure, p.clone())),
            },
            PathType::Pattern(g) => {
                let files = config.match_files_with_glob(project, g);
                let mut r: Vec<ContextItem> = Vec::new();
                let mut i: usize = 0;
                while i < files.len()
                    invariant
                        i <= files@.len(),
                        project.wf(),
                        self.path_type == PathType::Pattern(*g),
                        forall|k: Seq<char>|
                            #[trigger] crate::files::paths_view(files@).contains(k) <==> (
                            project@.contains_key(k) && selected(config.inclusion, Some(g@), k)),
                        r@.len() == i,
                        forall|j: int| 0 <= j < i ==> #[trigger] r@[j].name@ == files@[j]@,
                        file_items(r@, project@),
                        crate::files::paths_view(files@).no_duplicates(),
                    decreases files.len() - i,
                {
                    let f = &files[i];
                    assert(crate::files::paths_view(files@)[i as int] == f@);
                    assert(crate::files::paths_view(files@).contains(f@));
                    match project.get(f) {
                        Some(body) => {
                            r.push(
                                ContextItem {
                                    ty: String::from_str("file"),
                                    name: f.clone(),
                                    body: body.clone(),
                                },
                            );
                        },
                        None => {
                            assert(false);
                            return Err(TenxError::new(ErrorKind::ReadFailure, f.clone()));
                        },
                    }
                    i = i + 1;
                }
                proof {
                    assert forall|a: int, b: int| 0 <= a < b < r@.len() implies r@[a].name@
                        != r@[b].name@ by {
                        assert(crate::files::paths_view(files@)[a] == files@[a]@);
                        assert(crate::files::paths_view(files@)[b] == files@[b]@);
                    }
                    assert forall|k: Seq<char>|
                        (project@.contains_key(k) && selected(config.inclusion, Some(g@), k))
                            <==> exists|j: int| 0 <= j < r@.len() && #[trigger] r@[j].name@ == k by {
                        if project@.contains_key(k) && selected(config.inclusion, Some(g@), k) {
                            assert(crate::files::paths_view(files@).contains(k));
                            let j = choose|j: int|
                                0 <= j < files@.len() && crate::files::paths_view(files@)[j] == k;
                            assert(files@[j]@ == k);
                            assert(r@[j].name@ == k);
                        }
                        if exists|j: int| 0 <= j < r@.len() && #[trigger] r@[j].name@ == k {
                            let j = choose|j: int| 0 <= j < r@.len() && #[trigger] r@[j].name@ == k;
                            assert(crate::files::paths_view(files@)[j] == k);
                            assert(crate::files::paths_view(files@).contains(k));
                        }
                    }
                }
                Ok(r)
            },
        }
    }

    /// The number of files: one for a single path, else those the pattern matches.
    pub fn file_count(&self, config: &Config, project: &FileMap) -> (r: usize)
        requires
            project.wf(),
        ensures
            r == self.file_count_spec(*config, project@),
    {
        match &self.path_type {
            PathType::SinglePath(_) => 1,
            PathType::Pattern(g) => {
                let files = config.match_files_with_glob(project, g);
                proof {
                    lemma_count(
                        crate::files::paths_view(files@),
                        project@.dom().filter(|k: Seq<char>| selected(config.inclusion, Some(g@), k)),
                    );
                }
                files.len()
            },
        }
    }
}

/// A sequence without duplicates holds as many elements as the set of its elements.
proof fn lemma_count(s: Seq<Seq<char>>, t: Set<Seq<char>>)
    requires
        s.no_duplicates(),
        forall|k: Seq<char>| #[trigger] s.contains(k) <==> t.contains(k),
    ensures
        s.len() == t.len(),
{
    assert(s.to_set() =~= t);
    s.unique_seq_to_set();
}

impl ContextProvider for Ruskel {
    open spec fn typ_spec(&self) -> ContextType {
        ContextType::Ruskel
    }

    open spec fn name_spec(&self) -> Seq<char> {
        self.name_view()
    }

    open spec fn human_spec(&self) -> Seq<char> {
        "ruskel: "@ + self.name_view()
    }

    open spec fn contexts_spec(
        &self,
        config: Config,
        project: Map<Seq<char>, Seq<char>>,
        r: Result<Vec<ContextItem>, TenxError>,
    ) -> bool {
        r is Ok && r->Ok_0@.len() == 1 && r->Ok_0@[0].ty@ == "ruskel"@ && r->Ok_0@[0].name@
            == self.name_view() && r->Ok_0@[0].body@ == self.content_view()
    }

    open spec fn count_spec(
        &self,
        config: Config,
        project: Map<Seq<char>, Seq<char>>,
        r: Result<usize, TenxError>,
    ) -> bool {
        r == Ok::<usize, TenxError>(1)
    }

    fn typ(&self) -> ContextType {
        ContextType::Ruskel
    }

    fn name(&self) -> String {
        self.name.clone()
    }

    fn contexts(&self, _config: &Config, _project: &FileMap) -> Result<Vec<ContextItem>, TenxError> {
        Ok(self.items())
    }

    fn human(&self) -> String {
        self.describe()
    }

    fn count(&self, _config: &Config, _project: &FileMap) -> Result<usize, TenxError> {
        Ok(1)
    }
}

impl ContextProvider for Path {
    open spec fn typ_spec(&self) -> ContextType {
        ContextType::Path
    }

    open spec fn name_spec(&self) -> Seq<char> {
        self.text_spec()
    }

    open spec fn human_spec(&self) -> Seq<char> {
        self.text_spec()
    }

    open spec fn contexts_spec(
        &self,
        config: Config,
        project: Map<Seq<char>, Seq<char>>,
        r: Result<Vec<ContextItem>, TenxError>,
    ) -> bool {
        self.items_spec(config, project, r)
    }

    open spec fn count_spec(
        &self,
        config: Config,
        project: Map<Seq<char>, Seq<char>>,
        r: Result<usize, TenxError>,
    ) -> bool {
        r is Ok && r->Ok_0 as nat == self.file_count_spec(config, project)
    }

    fn typ(&self) -> ContextType {
        ContextType::Path
    }

    fn name(&self) -> String {
        self.text().clone()
    }

    fn contexts(&self, config: &Config, project: &FileMap) -> Result<Vec<ContextItem>, TenxError> {
        self.items(config, project)
    }

    fn human(&self) -> String {
        self.text().clone()
    }

    fn count(&self, config: &Config, project: &FileMap) -> Result<usize, TenxError> {
        Ok(self.file_count(config, project))
    }
}

/// A specification for reference material included in the prompt.
#[derive(Clone, Debug, PartialEq, Eq)]
pub enum ContextSpec {
    Ruskel(Ruskel),
    Path(Path),
}

impl ContextSpec {
    /// A context for a Ruskel document.
    pub fn new_ruskel(name: String) -> (r: ContextSpec)
        ensures
            r matches ContextSpec::Ruskel(k) && k.name_view() == name@ && k.content_view()
                == Seq::<char>::empty(),
    {
        ContextSpec::Ruskel(Ruskel::new(name))
    }

    /// A context for a path or a glob pattern.
    pub fn new_path(config: &Config, pattern: String) -> (r: Result<ContextSpec, TenxError>)
        ensures
            r is Ok,
            r->Ok_0 matches ContextSpec::Path(p) && (occurs(pattern@, seq!['*'])
                ==> p.kind() == PathType::Pattern(pattern)) && (!occurs(pattern@, seq!['*'])
                ==> p.kind() == PathType::SinglePath(pattern)),
    {
        match Path::new(config, pattern) {
            Ok(p) => Ok(ContextSpec::Path(p)),
            Err(e) => Err(e),
        }
    }
}

impl ContextProvider for ContextSpec {
    open spec fn typ_spec(&self) -> ContextType {
        match self {
            ContextSpec::Ruskel(r) => r.typ_spec(),
            ContextSpec::Path(p) => p.typ_spec(),
        }
    }

    open spec fn name_spec(&self) -> Seq<char> {
        match self {
            ContextSpec::Ruskel(r) => r.name_spec(),
            ContextSpec::Path(p) => p.name_spec(),
        }
    }

    open spec fn human_spec(&self) -> Seq<char> {
        match self {
            ContextSpec::Ruskel(r) => r.human_spec(),
            ContextSpec::Path(p) => p.human_spec(),
        }
    }

    open spec fn contexts_spec(
        &self,
        config: Config,
        project: Map<Seq<char>, Seq<char>>,
        r: Result<Vec<ContextItem>, TenxError>,
    ) -> bool {
        match self {
            ContextSpec::Ruskel(k) => k.contexts_spec(config, project, r),
            ContextSpec::Path(p) => p.contexts_spec(config, project, r),
        }
    }

    open spec fn count_spec(
        &self,
        config: Config,
        project: Map<Seq<char>, Seq<char>>,
        r: Result<usize, TenxError>,
    ) -> bool {
        match self {
            ContextSpec::Ruskel(k) => k.count_spec(config, project, r),
            ContextSpec::Path(p) => p.count_spec(config, project, r),
        }
    }

    fn typ(&self) -> ContextType {
        match self {
            ContextSpec::Ruskel(r) => r.typ(),
            ContextSpec::Path(p) => p.typ(),
        }
    }

    fn name(&self) -> String {
        match self {
            ContextSpec::Ruskel(r) => r.name(),
            ContextSpec::Path(p) => p.name(),
        }
    }

    fn contexts(&self, config: &Config, project: &FileMap) -> Result<Vec<ContextItem>, TenxError> {
        match self {
            ContextSpec::Ruskel(r) => r.contexts(config, project),
            ContextSpec::Path(p) => p.contexts(config, project),
        }
    }

    fn human(&self) -> String {
        match self {
            ContextSpec::Ruskel(r) => r.human(),
            ContextSpec::Path(p) => p.human(),
        }
    }

    fn count(&self, config: &Config, project: &FileMap) -> Result<usize, TenxError> {
        match self {
            ContextSpec::Ruskel(r) => r.count(config, project),
            ContextSpec::Path(p) => p.count(config, project),
        }
    }
}

} // verus!
