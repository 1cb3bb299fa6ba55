use vstd::prelude::*;

use crate::config::Config;
use crate::error::ErrorKind;
use crate::error::TenxError;
use crate::files::FileMap;
use crate::session::Session;
use crate::text::extend_chars;
use crate::text::from_chars;
use crate::text::slice_chars;
use crate::text::to_chars;
use crate::files::paths_view;

verus! {

pub struct RustCargoCheck;

pub struct RustCargoTest;

pub struct RustCargoClippy;

pub struct CargoFormatter;

/// A check run on the project after a patch is applied.
pub trait Validator {
    /// The name shown for the check.
    fn name(&self) -> String;

    /// Whether the check applies to the session's files.
    fn is_relevant(&self, config: &Config, session: &Session, project: &FileMap) -> bool
        requires
            project.wf(),
    ;
}

/// Whether a check can run here.
#[derive(Clone, Debug, PartialEq, Eq)]
pub enum Runnable {
    Ready,
    Error(String),
}

/// Cargo checks can run when cargo is installed.
pub fn cargo_runnable(installed: bool) -> (r: Runnable)
    ensures
        installed ==> r == Runnable::Ready,
        !installed ==> (r matches Runnable::Error(m) && m@ == "Cargo is not installed"@),
{
    if installed {
        Runnable::Ready
    } else {
        Runnable::Error(String::from_str("Cargo is not installed"))
    }
}

/// What a finished cargo run means for the check `name`: output on stderr from clippy, or a
/// run that did not succeed, fails the check, with cargo's output as the detail for the model.
pub fn cargo_result(name: &String, command: &String, success: bool, stdout: &String, stderr: &String) -> (r:
    Result<(), TenxError>)
    ensures
        command@ == "clippy"@ && stderr@.len() > 0 ==> r is Err && r->Err_0.kind
            == ErrorKind::ValidationFailure && r->Err_0.check == Some(*name) && r->Err_0.subject@
            == "cargo clippy found issues"@ && r->Err_0.detail@ == "stderr:\n"@ + stderr@,
        !(command@ == "clippy"@ && stderr@.len() > 0) && !success ==> r is Err && r->Err_0.kind
            == ErrorKind::ValidationFailure && r->Err_0.check == Some(*name) && r->Err_0.subject@
            == "cargo "@ + command@ + " failed"@ && r->Err_0.detail@ == "stdout:\n"@ + stdout@
            + "\n\nstderr:\n"@ + stderr@,
        !(command@ == "clippy"@ && stderr@.len() > 0) && success ==> r is Ok,
{
    let clippy = String::from_str("clippy");
    let err_chars = to_chars(stderr.as_str());
    if *command == clippy && err_chars.len() > 0 {
        let model = String::from_str("stderr:\n").concat(stderr.as_str());
        Err(TenxError::validation(name.clone(), String::from_str("cargo clippy found issues"), model))
    } else if !success {
        let user = String::from_str("cargo ").concat(command.as_str()).concat(" failed");
        let model = String::from_str("stdout:\n").concat(stdout.as_str()).concat("\n\nstderr:\n").concat(
            stderr.as_str(),
        );
        Err(TenxError::validation(name.clone(), user, model))
    } else {
        Ok(())
    }
}

/// `p` names a file with the extension `rs`.
pub open spec fn is_rust_file(p: Seq<char>) -> bool {
    p.len() > 3 && p[p.len() - 1] == 's' && p[p.len() - 2] == 'r' && p[p.len() - 3] == '.'
        && p[p.len() - 4] != '/'
}

fn rust_file(p: &String) -> (r: bool)
    ensures
        r == is_rust_file(p@),
{
    let c = to_chars(p.as_str());
    let n = c.len();
    n > 3 && c[n - 1] == 's' && c[n - 2] == 'r' && c[n - 3] == '.' && c[n - 4] != '/'
}

/// Whether one of `ps` is a Rust file.
fn any_rust_file(ps: &Vec<String>) -> (r: bool)
    ensures
        r == exists|i: int| 0 <= i < ps@.len() && is_rust_file(#[trigger] ps@[i]@),
{
    let mut i: usize = 0;
    while i < ps.len()
        invariant
            i <= ps@.len(),
            forall|j: int| 0 <= j < i ==> !is_rust_file(#[trigger] ps@[j]@),
        decreases ps.len() - i,
    {
        if rust_file(&ps[i]) {
            return true;
        }
        i = i + 1;
    }
    false
}

/// Rust checks apply when an editable file is a Rust file or, with no editable file, when an
/// included file of the project is.
pub fn should_run_rust_validator(config: &Config, session: &Session, project: &FileMap) -> (r: bool)
    requires
        project.wf(),
    ensures
        session.editables_view().len() > 0 ==> r == exists|i: int|
            0 <= i < session.editables_view().len() && is_rust_file(
                #[trigger] session.editables_view()[i],
            ),
        session.editables_view().len() == 0 ==> r == exists|k: Seq<char>|
            project@.contains_key(k) && crate::config::included(config.inclusion, k)
                && #[trigger] is_rust_file(k),
{
    let editables = session.editables();
    if editables.len() > 0 {
        let r = any_rust_file(editables);
        proof {
            if r {
                let i = choose|i: int| 0 <= i < editables@.len() && is_rust_file(#[trigger] editables@[i]@);
                assert(session.editables_view()[i] == editables@[i]@);
            }
            if exists|i: int|
                0 <= i < session.editables_view().len() && is_rust_file(
                    #[trigger] session.editables_view()[i],
                ) {
                let i = choose|i: int|
                    0 <= i < session.editables_view().len() && is_rust_file(
                        #[trigger] session.editables_view()[i],
                    );
                assert(session.editables_view()[i] == editables@[i]@);
            }
        }
        r
    } else {
        let files = config.included_files(project);
        let r = any_rust_file(&files);
        proof {
            if r {
                let i = choose|i: int| 0 <= i < files@.len() && is_rust_file(#[trigger] files@[i]@);
                assert(paths_view(files@)[i] == files@[i]@);
                assert(paths_view(files@).contains(files@[i]@));
            }
            if exists|k: Seq<char>|
                project@.contains_key(k) && crate::config::included(config.inclusion, k)
                    && #[trigger] is_rust_file(k) {
                let k = choose|k: Seq<char>|
                    project@.contains_key(k) && crate::config::included(config.inclusion, k)
                        && #[trigger] is_rust_file(k);
                assert(paths_view(files@).contains(k));
                let i = choose|i: int| 0 <= i < paths_view(files@).len() && paths_view(files@)[i] == k;
                assert(files@[i]@ == k);
            }
        }
        r
    }
}

impl Validator for RustCargoCheck {
    fn name(&self) -> String {
        String::from_str("rust: cargo check")
    }

    fn is_relevant(&self, config: &Config, session: &Session, project: &FileMap) -> bool {
        should_run_rust_validator(config, session, project)
    }
}

impl Validator for RustCargoTest {
    fn name(&self) -> String {
        String::from_str("rust: cargo test")
    }

    fn is_relevant(&self, config: &Config, session: &Session, project: &FileMap) -> bool {
        should_run_rust_validator(config, session, project)
    }
}

impl Validator for RustCargoClippy {
    fn name(&self) -> String {
        String::from_str("rust: cargo clippy")
    }

    fn is_relevant(&self, config: &Config, session: &Session, project: &FileMap) -> bool {
        should_run_rust_validator(config, session, project)
    }
}

impl Validator for CargoFormatter {
    fn name(&self) -> String {
        String::from_str("rust: cargo fmt")
    }

    fn is_relevant(&self, config: &Config, session: &Session, project: &FileMap) -> bool {
        should_run_rust_validator(config, session, project)
    }
}

/// The position of the last `/` among the first `n` characters of `d`.
pub open spec fn last_slash(d: Seq<char>, n: int) -> int
    decreases n,
{
    if n <= 0 || n > d.len() {
        -1
    } else if d[n - 1] == '/' {
        n - 1
    } else {
        last_slash(d, n - 1)
    }
}

/// The directory above `d`: the part before its last `/`, or the project root (empty) when it
/// has none.
pub open spec fn parent(d: Seq<char>) -> Seq<char> {
    let i = last_slash(d, d.len() as int);
    if i < 0 {
        Seq::empty()
    } else {
        d.subrange(0, i)
    }
}

/// `d` is `p` or a directory above it.
pub open spec fn is_ancestor(d: Seq<char>, p: Seq<char>) -> bool {
    d.len() == 0 || d == p || (d.len() < p.len() && p.subrange(0, d.len() as int) == d && p[d.len()
        as int] == '/')
}

/// `name` in directory `d`.
pub open spec fn in_dir(d: Seq<char>, name: Seq<char>) -> Seq<char> {
    if d.len() == 0 {
        name
    } else {
        d + seq!['/'] + name
    }
}

/// The deepest of `d` and the directories above it that is an ancestor of `p`.
pub open spec fn climb(d: Seq<char>, p: Seq<char>) -> Seq<char>
    decreases d.len() via climb_decreases
{
    if is_ancestor(d, p) {
        d
    } else {
        climb(parent(d), p)
    }
}

/// The common ancestor of the first `n` paths: the first, climbed up over the others in turn.
pub open spec fn common_ancestor(ps: Seq<Seq<char>>, n: int) -> Seq<char>
    decreases n,
{
    if n <= 1 || n > ps.len() {
        if ps.len() > 0 {
            ps[0]
        } else {
            Seq::empty()
        }
    } else {
        climb(common_ancestor(ps, n - 1), ps[n - 1])
    }
}

/// The nearest of `d` and the directories above it that holds a `Cargo.toml`.
pub open spec fn manifest_dir(project: Map<Seq<char>, Seq<char>>, d: Seq<char>) -> Option<Seq<char>>
    decreases d.len() via manifest_dir_decreases
{
    if project.contains_key(in_dir(d, "Cargo.toml"@)) {
        Some(d)
    } else if d.len() == 0 {
        None
    } else {
        manifest_dir(project, parent(d))
    }
}

/// The number of `/` among the first `n` characters of `d`.
pub open spec fn slashes(d: Seq<char>, n: int) -> nat
    decreases n,
{
    if n <= 0 || n > d.len() {
        0
    } else {
        slashes(d, n - 1) + if d[n - 1] == '/' {
            1nat
        } else {
            0nat
        }
    }
}

/// The number of components of the directory `d`; the root has none.
pub open spec fn depth(d: Seq<char>) -> nat {
    if d.len() == 0 {
        0
    } else {
        slashes(d, d.len() as int) + 1
    }
}

/// `d` holds a `Cargo.toml`.
pub open spec fn has_manifest(project: Map<Seq<char>, Seq<char>>, d: Seq<char>) -> bool {
    project.contains_key(in_dir(d, "Cargo.toml"@))
}

/// `best` after looking at `d` and the directories above it: a directory with a `Cargo.toml`
/// replaces it when it has fewer components.
pub open spec fn outer_walk(project: Map<Seq<char>, Seq<char>>, d: Seq<char>, best: Option<Seq<char>>) -> Option<
    Seq<char>,
>
    decreases d.len() via outer_walk_decreases
{
    let next = if has_manifest(project, d) && (best is None || depth(d) < depth(best->0)) {
        Some(d)
    } else {
        best
    };
    if d.len() == 0 {
        next
    } else {
        outer_walk(project, parent(d), next)
    }
}

/// The outermost directory with a `Cargo.toml` above the first `n` of `files`; of two with
/// as few components, the first found.
pub open spec fn outermost(project: Map<Seq<char>, Seq<char>>, files: Seq<Seq<char>>, n: int) -> Option<
    Seq<char>,
>
    decreases n,
{
    if n <= 0 || n > files.len() {
        None
    } else {
        outer_walk(project, parent(files[n - 1]), outermost(project, files, n - 1))
    }
}

proof fn lemma_last_slash(d: Seq<char>, n: int)
    requires
        0 <= n <= d.len(),
    ensures
        -1 <= last_slash(d, n) < n,
        last_slash(d, n) >= 0 ==> d[last_slash(d, n)] == '/',
        forall|j: int| last_slash(d, n) < j < n ==> d[j] != '/',
    decreases n,
{
    if n > 0 && d[n - 1] != '/' {
        lemma_last_slash(d, n - 1);
    }
}

proof fn lemma_parent_shorter(d: Seq<char>)
    requires
        d.len() > 0,
    ensures
        parent(d).len() < d.len(),
{
    lemma_last_slash(d, d.len() as int);
}

#[via_fn]
proof fn climb_decreases(d: Seq<char>, p: Seq<char>) {
    if !is_ancestor(d, p) {
        lemma_parent_shorter(d);
    }
}

/// `d` is `c` or one of the directories above it.
pub open spec fn on_chain(d: Seq<char>, c: Seq<char>) -> bool
    decreases c.len() via on_chain_decreases
{
    d == c || (c.len() > 0 && on_chain(d, parent(c)))
}

#[via_fn]
proof fn on_chain_decreases(d: Seq<char>, c: Seq<char>) {
    if c.len() > 0 {
        lemma_parent_shorter(c);
    }
}

/// `d` holds a `Cargo.toml` and stands above the `i`-th of `files`.
pub open spec fn manifest_above(
    project: Map<Seq<char>, Seq<char>>,
    files: Seq<Seq<char>>,
    i: int,
    d: Seq<char>,
) -> bool {
    0 <= i < files.len() && on_chain(d, parent(files[i])) && has_manifest(project, d)
}

/// `d` holds a `Cargo.toml` and stands above an included file of the project.
pub open spec fn workspace_above(
    project: Map<Seq<char>, Seq<char>>,
    inclusion: crate::config::Include,
    d: Seq<char>,
) -> bool {
    has_manifest(project, d) && exists|f: Seq<char>|
        project.contains_key(f) && crate::config::included(inclusion, f) && #[trigger] on_chain(
            d,
            parent(f),
        )
}

proof fn lemma_outer_walk(project: Map<Seq<char>, Seq<char>>, c: Seq<char>, best: Option<Seq<char>>)
    ensures
        outer_walk(project, c, best) is None <==> (best is None && forall|d: Seq<char>|
            #[trigger] on_chain(d, c) ==> !has_manifest(project, d)),
        outer_walk(project, c, best) matches Some(x) ==> ((best matches Some(b) && x == b) || (
        on_chain(x, c) && has_manifest(project, x))),
        outer_walk(project, c, best) matches Some(x) ==> (best matches Some(b) ==> depth(x) <= depth(
            b,
        )),
        outer_walk(project, c, best) matches Some(x) ==> forall|d: Seq<char>|
            #[trigger] on_chain(d, c) && has_manifest(project, d) ==> depth(x) <= depth(d),
    decreases c.len(),
{
    let next = if has_manifest(project, c) && (best is None || depth(c) < depth(best->0)) {
        Some(c)
    } else {
        best
    };
    assert(on_chain(c, c));
    if c.len() > 0 {
        lemma_parent_shorter(c);
        lemma_outer_walk(project, parent(c), next);
        assert forall|d: Seq<char>| #[trigger] on_chain(d, c) implies d == c || on_chain(d, parent(c)) by {}
        assert forall|d: Seq<char>| on_chain(d, parent(c)) implies #[trigger] on_chain(d, c) by {}
        if outer_walk(project, c, best) is None {
            assert forall|d: Seq<char>| #[trigger] on_chain(d, c) implies !has_manifest(project, d) by {
                if d != c {
                    assert(on_chain(d, parent(c)));
                }
            }
        }
        if best is None && forall|d: Seq<char>| #[trigger] on_chain(d, c) ==> !has_manifest(project, d) {
            assert(!has_manifest(project, c));
            assert forall|d: Seq<char>| #[trigger] on_chain(d, parent(c)) implies !has_manifest(project, d) by {
                assert(on_chain(d, c));
            }
        }
    } else {
        assert forall|d: Seq<char>| #[trigger] on_chain(d, c) implies d == c by {}
    }
}

proof fn lemma_outermost(project: Map<Seq<char>, Seq<char>>, files: Seq<Seq<char>>, n: int)
    requires
        0 <= n <= files.len(),
    ensures
        outermost(project, files, n) is None <==> forall|i: int, d: Seq<char>|
            0 <= i < n ==> !#[trigger] manifest_above(project, files, i, d),
        outermost(project, files, n) matches Some(x) ==> exists|i: int|
            0 <= i < n && #[trigger] manifest_above(project, files, i, x),
        outermost(project, files, n) matches Some(x) ==> forall|i: int, d: Seq<char>|
            0 <= i < n && #[trigger] manifest_above(project, files, i, d) ==> depth(x) <= depth(d),
    decreases n,
{
    if n > 0 {
        lemma_outermost(project, files, n - 1);
        let prev = outermost(project, files, n - 1);
        let c = parent(files[n - 1]);
        lemma_outer_walk(project, c, prev);
        assert forall|i: int, d: Seq<char>|
            0 <= i < n && #[trigger] manifest_above(project, files, i, d) implies (i < n - 1
            || on_chain(d, c)) by {}
        if let Some(x) = outermost(project, files, n) {
            if prev matches Some(b) && x == b {
                let i = choose|i: int| 0 <= i < n - 1 && #[trigger] manifest_above(project, files, i, x);
                assert(manifest_above(project, files, i, x));
            } else {
                assert(manifest_above(project, files, n - 1, x));
            }
        }
        if outermost(project, files, n) is None {
            assert forall|i: int, d: Seq<char>| 0 <= i < n implies !#[trigger] manifest_above(
                project,
                files,
                i,
                d,
            ) by {
                if i == n - 1 && manifest_above(project, files, i, d) {
                    assert(on_chain(d, c));
                }
            }
        }
    }
}

#[via_fn]
proof fn outer_walk_decreases(project: Map<Seq<char>, Seq<char>>, d: Seq<char>, best: Option<Seq<char>>) {
    if d.len() > 0 {
        lemma_parent_shorter(d);
    }
}

#[via_fn]
proof fn manifest_dir_decreases(project: Map<Seq<char>, Seq<char>>, d: Seq<char>) {
    if d.len() > 0 {
        lemma_parent_shorter(d);
    }
}

/// The directory above `d`.
pub fn parent_dir(d: &Vec<char>) -> (r: Vec<char>)
    ensures
        r@ == parent(d@),
{
    let mut n: usize = d.len();
    while n > 0 && d[n - 1] != '/'
        invariant
            n <= d@.len(),
            last_slash(d@, d@.len() as int) == last_slash(d@, n as int),
        decreases n,
    {
        n = n - 1;
    }
    if n == 0 {
        Vec::new()
    } else {
        slice_chars(d, 0, n - 1)
    }
}

fn ancestor(d: &Vec<char>, p: &Vec<char>) -> (r: bool)
    ensures
        r == is_ancestor(d@, p@),
{
    if d.len() == 0 {
        return true;
    }
    if crate::text::same_chars(d, p) {
        return true;
    }
    if d.len() >= p.len() {
        return false;
    }
    let pre = slice_chars(p, 0, d.len());
    crate::text::same_chars(&pre, d) && p[d.len()] == '/'
}

/// The common ancestor of `paths`, relative to the project root (empty for the root itself).
pub fn find_common_ancestor(paths: &Vec<String>) -> (r: Result<String, TenxError>)
    ensures
        paths@.len() == 0 <==> r is Err,
        r is Err ==> r->Err_0.kind == ErrorKind::WorkspaceNotFound && r->Err_0.subject@
            == "No paths provided"@,
        r is Ok ==> r->Ok_0@ == common_ancestor(paths_view(paths@), paths@.len() as int),
{
    if paths.len() == 0 {
        return Err(TenxError::new(ErrorKind::WorkspaceNotFound, String::from_str("No paths provided")));
    }
    let ghost pv = paths_view(paths@);
    let mut anc = to_chars(paths[0].as_str());
    let mut i: usize = 1;
    while i < paths.len()
        invariant
            1 <= i <= paths@.len(),
            pv == paths_view(paths@),
            anc@ == common_ancestor(pv, i as int),
        decreases paths.len() - i,
    {
        let p = to_chars(paths[i].as_str());
        assert(pv[i as int] == p@);
        let ghost start = anc@;
        while !ancestor(&anc, &p)
            invariant
                climb(start, p@) == climb(anc@, p@),
            decreases anc@.len(),
        {
            proof {
                lemma_parent_shorter(anc@);
            }
            anc = parent_dir(&anc);
        }
        i = i + 1;
    }
    Ok(from_chars(&anc))
}

/// The nearest of `start` and the directories above it that holds a `Cargo.toml`.
pub fn find_workspace_root(start: &String, project: &FileMap) -> (r: Result<String, TenxError>)
    requires
        project.wf(),
    ensures
        match manifest_dir(project@, start@) {
            Some(d) => r is Ok && r->Ok_0@ == d,
            None => r is Err && r->Err_0.kind == ErrorKind::WorkspaceNotFound
                && r->Err_0.subject@ == "Workspace root not found"@,
        },
{
    let manifest = to_chars("Cargo.toml");
    let mut d = to_chars(start.as_str());
    loop
        invariant
            project.wf(),
            manifest@ == "Cargo.toml"@,
            manifest_dir(project@, start@) == manifest_dir(project@, d@),
        decreases d@.len(),
    {
        let mut candidate: Vec<char> = Vec::new();
        if d.len() > 0 {
            extend_chars(&mut candidate, &d);
            candidate.push('/');
        }
        extend_chars(&mut candidate, &manifest);
        assert(candidate@ =~= in_dir(d@, "Cargo.toml"@));
        if project.contains(&from_chars(&candidate)) {
            return Ok(from_chars(&d));
        }
        if d.len() == 0 {
            return Err(
                TenxError::new(ErrorKind::WorkspaceNotFound, String::from_str("Workspace root not found")),
            );
        }
        proof {
            lemma_parent_shorter(d@);
        }
        d = parent_dir(&d);
    }
}

/// Characters of an optional directory.
pub open spec fn opt_chars(o: Option<Vec<char>>) -> Option<Seq<char>> {
    match o {
        Some(b) => Some(b@),
        None => None,
    }
}

/// The number of `/` in `d`.
fn slash_count(d: &Vec<char>) -> (r: usize)
    ensures
        r == slashes(d@, d@.len() as int),
{
    let mut n: usize = 0;
    let mut i: usize = 0;
    while i < d.len()
        invariant
            i <= d@.len(),
            n == slashes(d@, i as int),
            n <= i,
        decreases d.len() - i,
    {
        if d[i] == '/' {
            n = n + 1;
        }
        i = i + 1;
    }
    n
}

/// Whether the directory `d` has fewer components than `b`.
fn shallower(d: &Vec<char>, b: &Vec<char>) -> (r: bool)
    ensures
        r == (depth(d@) < depth(b@)),
{
    if d.len() == 0 {
        b.len() > 0
    } else if b.len() == 0 {
        false
    } else {
        slash_count(d) < slash_count(b)
    }
}

/// The outermost directory holding a `Cargo.toml` above one of `files`.
pub fn find_outermost_workspace(files: &Vec<String>, project: &FileMap) -> (r: Result<String, TenxError>)
    requires
        project.wf(),
    ensures
        match outermost(project@, paths_view(files@), files@.len() as int) {
            Some(d) => r is Ok && r->Ok_0@ == d,
            None => r is Err && r->Err_0.kind == ErrorKind::WorkspaceNotFound
                && r->Err_0.subject@ == "Workspace root not found"@,
        },
        r is Err <==> forall|i: int, d: Seq<char>|
            0 <= i < files@.len() ==> !#[trigger] manifest_above(project@, paths_view(files@), i, d),
        r is Ok ==> exists|i: int|
            0 <= i < files@.len() && #[trigger] manifest_above(project@, paths_view(files@), i, r->Ok_0@),
        r is Ok ==> forall|i: int, d: Seq<char>|
            0 <= i < files@.len() && #[trigger] manifest_above(project@, paths_view(files@), i, d)
                ==> depth(r->Ok_0@) <= depth(d),
{
    let ghost fv = paths_view(files@);
    proof {
        lemma_outermost(project@, fv, fv.len() as int);
    }
    let manifest = to_chars("Cargo.toml");
    let mut best: Option<Vec<char>> = None;
    let mut i: usize = 0;
    while i < files.len()
        invariant
            i <= files@.len(),
            fv == paths_view(files@),
            project.wf(),
            manifest@ == "Cargo.toml"@,
            outermost(project@, fv, i as int) == opt_chars(best),
        decreases files.len() - i,
    {
        let f = to_chars(files[i].as_str());
        assert(fv[i as int] == f@);
        let mut d = parent_dir(&f);
        let ghost start = opt_chars(best);
        loop
            invariant
                project.wf(),
                manifest@ == "Cargo.toml"@,
                i < files@.len(),
                fv == paths_view(files@),
                fv[i as int] == f@,
                start == outermost(project@, fv, i as int),
                outer_walk(project@, parent(f@), start) == outer_walk(
                    project@,
                    d@,
                    opt_chars(best),
                ),
            ensures
                outer_walk(project@, parent(f@), start) == opt_chars(best),
            decreases d@.len(),
        {
            let ghost before = opt_chars(best);
            let mut candidate: Vec<char> = Vec::new();
            if d.len() > 0 {
                extend_chars(&mut candidate, &d);
                candidate.push('/');
            }
            extend_chars(&mut candidate, &manifest);
            assert(candidate@ =~= in_dir(d@, "Cargo.toml"@));
            if project.contains(&from_chars(&candidate)) {
                let better = match &best {
                    None => true,
                    Some(b) => shallower(&d, b),
                };
                if better {
                    best = Some(slice_chars(&d, 0, d.len()));
                    assert(d@.subrange(0, d@.len() as int) =~= d@);
                }
            }
            if d.len() == 0 {
                assert(outer_walk(project@, d@, before) == opt_chars(best));
                break;
            }
            proof {
                lemma_parent_shorter(d@);
            }
            d = parent_dir(&d);
        }
        assert(outer_walk(project@, parent(f@), start) == opt_chars(best));
        assert(outermost(project@, fv, i + 1) == outer_walk(
            project@,
            parent(fv[i as int]),
            outermost(project@, fv, i as int),
        ));
        i = i + 1;
    }
    match best {
        Some(b) => Ok(from_chars(&b)),
        None => Err(TenxError::new(ErrorKind::WorkspaceNotFound, String::from_str("Workspace root not found"))),
    }
}

/// The root directory of the Rust workspace the session works in.
pub struct RustWorkspace {
    pub root_path: String,
}

impl RustWorkspace {
    /// The workspace of the editable files: the nearest directory holding a `Cargo.toml` at
    /// or above their common ancestor. With no editable file, the outermost directory holding
    /// a `Cargo.toml` above an included file.
    pub fn discover(config: &Config, session: &Session, project: &FileMap) -> (r: Result<
        RustWorkspace,
        TenxError,
    >)
        requires
            project.wf(),
        ensures
            session.editables_view().len() > 0 ==> match manifest_dir(
                project@,
                common_ancestor(session.editables_view(), session.editables_view().len() as int),
            ) {
                Some(d) => r is Ok && r->Ok_0.root_path@ == d,
                None => r is Err && r->Err_0.kind == ErrorKind::WorkspaceNotFound,
            },
            r is Err ==> r->Err_0.kind == ErrorKind::WorkspaceNotFound,
            session.editables_view().len() > 0 && r is Err ==> r->Err_0.subject@
                == "Workspace root not found"@,
            session.editables_view().len() == 0 ==> (r is Ok <==> exists|d: Seq<char>|
                workspace_above(project@, config.inclusion, d)),
            session.editables_view().len() == 0 && r is Ok ==> workspace_above(
                project@,
                config.inclusion,
                r->Ok_0.root_path@,
            ) && forall|d: Seq<char>|
                #[trigger] workspace_above(project@, config.inclusion, d) ==> depth(
                    r->Ok_0.root_path@,
                ) <= depth(d),
            session.editables_view().len() == 0 && r is Err ==> r->Err_0.subject@ == if exists|
                k: Seq<char>,
            | project@.contains_key(k) && crate::config::included(config.inclusion, k) {
                "Workspace root not found"@
            } else {
                "No files to check"@
            },
    {
        let editables = session.editables();
        if editables.len() > 0 {
            let common = match find_common_ancestor(editables) {
                Ok(c) => c,
                Err(e) => {
                    return Err(e);
                },
            };
            assert(paths_view(editables@) == session.editables_view());
            match find_workspace_root(&common, project) {
                Ok(root_path) => Ok(RustWorkspace { root_path }),
                Err(e) => Err(e),
            }
        } else {
            let files = config.included_files(project);
            if files.len() == 0 {
                proof {
                    assert forall|k: Seq<char>| project@.contains_key(k) implies !crate::config::included(
                        config.inclusion,
                        k,
                    ) by {
                        if crate::config::included(config.inclusion, k) {
                            assert(paths_view(files@).contains(k));
                        }
                    }
                }
                assert forall|d: Seq<char>| !workspace_above(project@, config.inclusion, d) by {
                    if workspace_above(project@, config.inclusion, d) {
                        let f = choose|f: Seq<char>|
                            project@.contains_key(f) && crate::config::included(config.inclusion, f)
                                && #[trigger] on_chain(d, parent(f));
                        assert(paths_view(files@).contains(f));
                    }
                }
                return Err(TenxError::new(ErrorKind::WorkspaceNotFound, String::from_str("No files to check")));
            }
            let ghost fv = paths_view(files@);
            proof {
                assert(fv[0] == files@[0]@);
                assert(fv.contains(files@[0]@));
                assert forall|d: Seq<char>|
                    workspace_above(project@, config.inclusion, d) <==> exists|i: int|
                        0 <= i < fv.len() && #[trigger] manifest_above(project@, fv, i, d) by {
                    if workspace_above(project@, config.inclusion, d) {
                        let f = choose|f: Seq<char>|
                            project@.contains_key(f) && crate::config::included(config.inclusion, f)
                                && #[trigger] on_chain(d, parent(f));
                        assert(fv.contains(f));
                        let i = choose|i: int| 0 <= i < fv.len() && fv[i] == f;
                        assert(manifest_above(project@, fv, i, d));
                    }
                    if exists|i: int| 0 <= i < fv.len() && #[trigger] manifest_above(project@, fv, i, d) {
                        let i = choose|i: int| 0 <= i < fv.len() && #[trigger] manifest_above(project@, fv, i, d);
                        assert(fv.contains(fv[i]));
                        assert(on_chain(d, parent(fv[i])));
                    }
                }
            }
            let found = find_outermost_workspace(&files, project);
            proof {
                if found is Err {
                    assert forall|d: Seq<char>| !workspace_above(project@, config.inclusion, d) by {
                        if workspace_above(project@, config.inclusion, d) {
                            let i = choose|i: int|
                                0 <= i < fv.len() && #[trigger] manifest_above(project@, fv, i, d);
                            assert(manifest_above(project@, fv, i, d));
                        }
                    }
                } else {
                    assert(workspace_above(project@, config.inclusion, found->Ok_0@));
                }
            }
            match found {
                Ok(root_path) => Ok(RustWorkspace { root_path }),
                Err(e) => Err(e),
            }
        }
    }
}

} // verus!
