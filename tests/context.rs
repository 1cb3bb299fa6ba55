use libtenx::config::{Config, Include};
use libtenx::context::{ContextProvider, ContextSpec};
use libtenx::files::FileMap;
use libtenx::glob::glob_matches;

fn test_project(files: &[&str]) -> FileMap {
    let mut m = FileMap::new();
    for f in files {
        m.insert(f.to_string(), format!("contents of {}", f));
    }
    m
}

fn read(m: &FileMap, p: &str) -> String {
    m.get(&p.to_string()).unwrap().clone()
}

#[test]
fn test_glob_context_initialization() {
    let project = test_project(&["src/main.rs", "src/lib.rs", "tests/test1.rs", "README.md", "Cargo.toml"]);

    let mut config = Config::new();
    config.inclusion = Include::Glob(vec!["**/*.rs".to_string()]);

    let context_spec = ContextSpec::new_path(&config, "**/*.rs".to_string()).unwrap();
    assert!(matches!(context_spec, ContextSpec::Path(_)));

    if let ContextSpec::Path(path) = context_spec {
        let contexts = path.items(&config, &project).unwrap();

        let mut expected_files = vec!["src/main.rs", "src/lib.rs", "tests/test1.rs"];
        expected_files.sort();

        let mut actual_files: Vec<_> = contexts.iter().map(|c| c.name.as_str()).collect();
        actual_files.sort();

        assert_eq!(actual_files, expected_files);

        for context in contexts {
            assert_eq!(context.ty, "file");
            assert_eq!(read(&project, &context.name), context.body);
        }
    } else {
        panic!("Expected ContextSpec::Path");
    }
}

#[test]
fn test_single_file_context_initialization() {
    let project = test_project(&["src/main.rs", "src/lib.rs", "tests/test1.rs", "README.md", "Cargo.toml"]);

    let config = Config::new();

    let context_spec = ContextSpec::new_path(&config, "src/main.rs".to_string()).unwrap();
    assert!(matches!(context_spec, ContextSpec::Path(_)));

    if let ContextSpec::Path(path) = context_spec {
        let contexts = path.items(&config, &project).unwrap();

        assert_eq!(contexts.len(), 1);
        let context = &contexts[0];

        assert_eq!(context.name, "src/main.rs");
        assert_eq!(context.ty, "file");
        assert_eq!(read(&project, &context.name), context.body);
    } else {
        panic!("Expected ContextSpec::Path");
    }
}

#[test]
fn single_missing_file_is_a_read_failure() {
    let project = test_project(&["a.rs"]);
    let config = Config::new();
    if let ContextSpec::Path(path) = ContextSpec::new_path(&config, "b.rs".to_string()).unwrap() {
        let err = path.items(&config, &project).unwrap_err();
        assert_eq!(err.kind, libtenx::error::ErrorKind::ReadFailure);
        assert_eq!(err.subject, "b.rs");
    } else {
        panic!("Expected ContextSpec::Path");
    }
}

#[test]
fn pattern_count_counts_matching_files() {
    let project = test_project(&["src/main.rs", "src/lib.rs", "README.md"]);
    let config = Config::new();
    if let ContextSpec::Path(path) = ContextSpec::new_path(&config, "src/*.rs".to_string()).unwrap() {
        assert_eq!(path.file_count(&config, &project), 2);
    } else {
        panic!("Expected ContextSpec::Path");
    }
}

#[test]
fn ruskel_context_holds_its_document() {
    let spec = ContextSpec::new_ruskel("serde".to_string());
    if let ContextSpec::Ruskel(mut r) = spec {
        r.set_content("pub trait Serialize {}".to_string());
        assert_eq!(r.human(), "ruskel: serde");
        let items = r.items();
        assert_eq!(items.len(), 1);
        assert_eq!(items[0].ty, "ruskel");
        assert_eq!(items[0].name, "serde");
        assert_eq!(items[0].body, "pub trait Serialize {}");
    } else {
        panic!("Expected ContextSpec::Ruskel");
    }
}

#[test]
fn globs() {
    assert!(glob_matches("**/*.rs", "src/main.rs"));
    assert!(glob_matches("**/*.rs", "main.rs"));
    assert!(glob_matches("**/*.rs", "a/b/c.rs"));
    assert!(!glob_matches("**/*.rs", "README.md"));
    assert!(!glob_matches("*.rs", "src/main.rs"));
    assert!(glob_matches("src/?ib.rs", "src/lib.rs"));
}

#[test]
fn walk_project_lists_included_files() {
    let project = test_project(&["src/main.rs", "README.md"]);
    let mut config = Config::new();
    let mut all = libtenx::config::walk_project(&config, &project);
    all.sort();
    assert_eq!(all, vec!["README.md".to_string(), "src/main.rs".to_string()]);
    config.inclusion = Include::Glob(vec!["*.md".to_string()]);
    assert_eq!(libtenx::config::walk_project(&config, &project), vec!["README.md".to_string()]);
}

#[test]
fn session_contexts_and_clear() {
    let mut session = libtenx::session::Session::new();
    session.add_context(ContextSpec::new_ruskel("tokio".to_string()));
    session.add_prompt("m".to_string(), "p".to_string(), libtenx::session::StepType::Code);
    session.clear();
    assert_eq!(session.steps().len(), 0);
    assert_eq!(session.contexts().len(), 1);
    assert_eq!(session.contexts()[0].name(), "tokio");
}
