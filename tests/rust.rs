use libtenx::config::{Config, Include};
use libtenx::files::FileMap;
use libtenx::error::ErrorKind;
use libtenx::rust::{
    cargo_result, cargo_runnable, find_common_ancestor, find_outermost_workspace, RustCargoCheck, Runnable,
    RustWorkspace, Validator,
};
use libtenx::session::Session;

fn create_dummy_project() -> FileMap {
    let mut m = FileMap::new();
    for f in [
        "Cargo.toml",
        "crate1/Cargo.toml",
        "crate1/src/lib.rs",
        "crate2/Cargo.toml",
        "crate2/src/lib.rs",
    ] {
        m.insert(f.to_string(), String::new());
    }
    m
}

#[test]
fn test_discover_workspace() {
    let project = create_dummy_project();
    let config = Config::new();
    let mut session = Session::new();
    session.add_editable("crate1/src/lib.rs".to_string());
    session.add_editable("crate2/src/lib.rs".to_string());

    let workspace = RustWorkspace::discover(&config, &session, &project).unwrap();
    assert_eq!(workspace.root_path, "");
}

#[test]
fn test_discover_single_crate() {
    let project = create_dummy_project();
    let config = Config::new();
    let mut session = Session::new();
    session.add_editable("crate1/src/lib.rs".to_string());

    let workspace = RustWorkspace::discover(&config, &session, &project).unwrap();
    assert_eq!(workspace.root_path, "crate1");
}

#[test]
fn test_no_cargo_toml() {
    let project = FileMap::new();
    let config = Config::new();
    let mut session = Session::new();
    session.add_editable(String::new());

    let result = RustWorkspace::discover(&config, &session, &project);
    assert!(result.is_err());
    let err = result.err().unwrap();
    assert!(err.message().ends_with("root not found"));
    assert_eq!(err.subject, "Workspace root not found");
}

#[test]
fn test_no_paths_provided() {
    let project = FileMap::new();
    let mut config = Config::new();
    config.inclusion = Include::Glob(vec![]);
    let session = Session::new();

    let result = RustWorkspace::discover(&config, &session, &project);
    assert!(result.is_err());
    let err = result.err().unwrap().message();
    println!("Error message: {}", err);
    assert!(err.ends_with("No files to check"));
}

#[test]
fn test_no_common_ancestor() {
    let project = FileMap::new();
    let config = Config::new();
    let mut session = Session::new();
    session.add_editable("/tmp/one".to_string());
    session.add_editable("/var/two".to_string());

    let result = RustWorkspace::discover(&config, &session, &project);
    assert!(result.is_err());
}

#[test]
fn common_ancestor_of_sibling_files() {
    let paths = vec!["a/b/c.rs".to_string(), "a/b/d.rs".to_string(), "a/e.rs".to_string()];
    assert_eq!(find_common_ancestor(&paths).unwrap(), "a");
    assert!(find_common_ancestor(&vec![]).is_err());
}

#[test]
fn rust_checks_follow_the_editable_files() {
    let project = create_dummy_project();
    let config = Config::new();
    let mut session = Session::new();
    assert!(RustCargoCheck.is_relevant(&config, &session, &project));
    session.add_editable("notes.txt".to_string());
    assert!(!RustCargoCheck.is_relevant(&config, &session, &project));
    assert_eq!(RustCargoCheck.name(), "rust: cargo check");
}

#[test]
fn without_editables_the_outermost_workspace_is_found() {
    let project = create_dummy_project();
    let config = Config::new();
    let session = Session::new();
    let workspace = RustWorkspace::discover(&config, &session, &project).unwrap();
    assert_eq!(workspace.root_path, "");

    let mut inner = FileMap::new();
    for f in ["crate1/Cargo.toml", "crate1/src/lib.rs", "crate1/sub/Cargo.toml", "crate1/sub/src/lib.rs"] {
        inner.insert(f.to_string(), String::new());
    }
    let workspace = RustWorkspace::discover(&config, &session, &inner).unwrap();
    assert_eq!(workspace.root_path, "crate1");
}

#[test]
fn outermost_workspace_needs_a_manifest() {
    let mut project = FileMap::new();
    project.insert("a/src/lib.rs".to_string(), String::new());
    let files = vec!["a/src/lib.rs".to_string()];
    assert!(find_outermost_workspace(&files, &project).is_err());
    project.insert("a/src/Cargo.toml".to_string(), String::new());
    assert_eq!(find_outermost_workspace(&files, &project).unwrap(), "a/src");
}

#[test]
fn cargo_outcomes() {
    assert_eq!(cargo_runnable(true), Runnable::Ready);
    assert_eq!(cargo_runnable(false), Runnable::Error("Cargo is not installed".to_string()));
    let name = "rust: cargo clippy".to_string();
    let clippy = cargo_result(&name, &"clippy".to_string(), true, &String::new(), &"warning: x".to_string())
        .unwrap_err();
    assert_eq!(clippy.subject, "cargo clippy found issues");
    assert_eq!(clippy.detail, "stderr:\nwarning: x");
    assert_eq!(clippy.check, Some(name.clone()));
    let failed = cargo_result(&name, &"test".to_string(), false, &"out".to_string(), &"err".to_string())
        .unwrap_err();
    assert_eq!(failed.kind, ErrorKind::ValidationFailure);
    assert_eq!(failed.subject, "cargo test failed");
    assert_eq!(failed.detail, "stdout:\nout\n\nstderr:\nerr");
    assert!(cargo_result(&name, &"check".to_string(), true, &String::new(), &"Compiling".to_string()).is_ok());
}
