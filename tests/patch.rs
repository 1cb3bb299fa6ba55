use libtenx::error::ErrorKind;
use libtenx::files::FileMap;
use libtenx::patch::{Change, Patch};
use libtenx::replace::Replace;
use libtenx::smart::Smart;
use libtenx::udiff::UDiff;
use libtenx::write::WriteFile;

fn tree(files: &[(&str, &str)]) -> FileMap {
    let mut m = FileMap::new();
    for (p, c) in files {
        m.insert(p.to_string(), c.to_string());
    }
    m
}

fn read(m: &FileMap, p: &str) -> String {
    m.get(&p.to_string()).unwrap().clone()
}

fn write(path: &str, content: &str) -> Change {
    Change::Write(WriteFile { path: path.to_string(), content: content.to_string() })
}

fn replace(path: &str, old: &str, new: &str) -> Change {
    Change::Replace(Replace { path: path.to_string(), old: old.to_string(), new: new.to_string() })
}

#[test]
fn test_changed_files() {
    let mut patch = Patch::new();
    patch.changes.push(write("file1.txt", "content"));
    patch.changes.push(replace("file2.txt", "old", "new"));

    let changed_files = patch.changed_files();
    assert_eq!(changed_files.len(), 2);
    assert!(changed_files.contains(&"file1.txt".to_string()));
    assert!(changed_files.contains(&"file2.txt".to_string()));
}

#[test]
fn test_apply() {
    let mut disk = tree(&[("file1.txt", "initial content"), ("file2.txt", "content with old text")]);

    let mut patch = Patch::new();
    patch.changes.push(write("file1.txt", "new content"));
    patch.changes.push(replace("file2.txt", "content with old text", "content with new text"));

    patch.apply(&mut disk).unwrap();

    assert_eq!(read(&disk, "file1.txt"), "new content");
    assert_eq!(read(&disk, "file2.txt"), "content with new text");
}

#[test]
fn ambiguous_replace_leaves_every_file_untouched() {
    let mut disk = tree(&[("a.txt", "A"), ("b.txt", "foo foo")]);
    let mut patch = Patch::new();
    patch.changes.push(write("a.txt", "X"));
    patch.changes.push(replace("b.txt", "foo", "bar"));

    let err = patch.apply(&mut disk).unwrap_err();
    assert_eq!(err.kind, ErrorKind::AmbiguousMatch);
    assert_eq!(err.subject, "b.txt");
    assert_eq!(read(&disk, "a.txt"), "A");
    assert_eq!(read(&disk, "b.txt"), "foo foo");
}

#[test]
fn replace_result_and_cache() {
    let mut disk = tree(&[("x.txt", "foo")]);
    let mut patch = Patch::new();
    patch.changes.push(replace("x.txt", "foo", "bar"));
    patch.apply(&mut disk).unwrap();
    assert_eq!(read(&disk, "x.txt"), "bar");
    assert_eq!(read(&patch.cache, "x.txt"), "foo");
}

#[test]
fn replace_without_match() {
    let mut disk = tree(&[("x.txt", "abc")]);
    let mut patch = Patch::new();
    patch.changes.push(replace("x.txt", "zzz", "y"));
    let err = patch.apply(&mut disk).unwrap_err();
    assert_eq!(err.kind, ErrorKind::NoMatch);
    assert_eq!(read(&disk, "x.txt"), "abc");
}

#[test]
fn replace_substitutes_the_single_occurrence_in_place() {
    let mut disk = tree(&[("x.txt", "let a = 1;\nlet b = 2;\n")]);
    let mut patch = Patch::new();
    patch.changes.push(replace("x.txt", "b = 2", "b = 3"));
    patch.apply(&mut disk).unwrap();
    assert_eq!(read(&disk, "x.txt"), "let a = 1;\nlet b = 3;\n");
}

#[test]
fn missing_file_is_a_read_failure() {
    let mut disk = tree(&[("a.txt", "A")]);
    let mut patch = Patch::new();
    patch.changes.push(write("a.txt", "B"));
    patch.changes.push(replace("gone.txt", "x", "y"));
    let err = patch.apply(&mut disk).unwrap_err();
    assert_eq!(err.kind, ErrorKind::ReadFailure);
    assert_eq!(err.subject, "gone.txt");
    assert_eq!(read(&disk, "a.txt"), "A");
    assert!(!disk.contains(&"gone.txt".to_string()));
    assert_eq!(read(&patch.cache, "a.txt"), "A");
    assert_eq!(patch.absent, vec!["gone.txt".to_string()]);
}

#[test]
fn apply_then_revert_restores_files() {
    let mut disk = tree(&[("a.txt", "one"), ("b.txt", "two"), ("c.txt", "three")]);
    let mut patch = Patch::new();
    patch.changes.push(write("a.txt", "uno"));
    patch.changes.push(replace("b.txt", "two", "dos"));
    patch.apply(&mut disk).unwrap();
    assert_eq!(read(&disk, "a.txt"), "uno");
    assert_eq!(read(&disk, "b.txt"), "dos");
    patch.revert(&mut disk);
    assert_eq!(read(&disk, "a.txt"), "one");
    assert_eq!(read(&disk, "b.txt"), "two");
    assert_eq!(read(&disk, "c.txt"), "three");
    assert_eq!(disk.len(), 3);
}

#[test]
fn caching_twice_keeps_the_first_preimage() {
    let disk1 = tree(&[("a.txt", "first")]);
    let disk2 = tree(&[("a.txt", "second")]);
    let mut patch = Patch::new();
    patch.changes.push(write("a.txt", "new"));
    patch.cache_preimages(&disk1);
    patch.cache_preimages(&disk2);
    assert_eq!(read(&patch.cache, "a.txt"), "first");
}

const DIFF: &str = "--- a/lib.rs\n+++ b/lib.rs\n@@ -1,3 +1,3 @@\n fn a() {}\n-fn b() {}\n+fn b() { 1 }\n fn c() {}\n";

#[test]
fn udiff_then_replace_sees_the_diff_output() {
    let mut disk = tree(&[("lib.rs", "fn a() {}\nfn b() {}\nfn c() {}\n")]);
    let mut patch = Patch::new();
    patch.changes.push(Change::UDiff(UDiff {
        patch: DIFF.to_string(),
        modified_files: vec!["lib.rs".to_string()],
    }));
    patch.changes.push(replace("lib.rs", "{ 1 }", "{ 2 }"));
    patch.apply(&mut disk).unwrap();
    assert_eq!(read(&disk, "lib.rs"), "fn a() {}\nfn b() { 2 }\nfn c() {}\n");
}

#[test]
fn udiff_anchors_up_to_whitespace() {
    let mut disk = tree(&[("lib.rs", "fn a() {}\nfn  b() {}\nfn c() {}\n")]);
    let mut patch = Patch::new();
    patch.changes.push(Change::UDiff(UDiff {
        patch: DIFF.to_string(),
        modified_files: vec!["lib.rs".to_string()],
    }));
    patch.apply(&mut disk).unwrap();
    assert_eq!(read(&disk, "lib.rs"), "fn a() {}\nfn b() { 1 }\nfn c() {}\n");
}

#[test]
fn udiff_without_anchor_fails() {
    let mut disk = tree(&[("lib.rs", "fn x() {}\n")]);
    let mut patch = Patch::new();
    patch.changes.push(Change::UDiff(UDiff {
        patch: DIFF.to_string(),
        modified_files: vec!["lib.rs".to_string()],
    }));
    let err = patch.apply(&mut disk).unwrap_err();
    assert_eq!(err.kind, ErrorKind::HunkNotApplicable);
    assert_eq!(err.subject, "lib.rs");
    assert_eq!(read(&disk, "lib.rs"), "fn x() {}\n");
}

#[test]
fn udiff_on_an_undeclared_file_fails() {
    let mut disk = tree(&[("lib.rs", "fn a() {}\nfn b() {}\nfn c() {}\n")]);
    let mut patch = Patch::new();
    patch.changes.push(Change::UDiff(UDiff {
        patch: DIFF.to_string(),
        modified_files: vec!["main.rs".to_string()],
    }));
    disk.insert("main.rs".to_string(), String::new());
    let err = patch.apply(&mut disk).unwrap_err();
    assert_eq!(err.kind, ErrorKind::HunkNotApplicable);
}

#[test]
fn udiff_hunk_before_header_does_not_parse() {
    let mut disk = tree(&[("lib.rs", "x\n")]);
    let mut patch = Patch::new();
    patch.changes.push(Change::UDiff(UDiff {
        patch: "@@ -1 +1 @@\n-x\n+y\n".to_string(),
        modified_files: vec!["lib.rs".to_string()],
    }));
    let err = patch.apply(&mut disk).unwrap_err();
    assert_eq!(err.kind, ErrorKind::ParseError);
}

#[test]
fn smart_replaces_a_declaration_with_the_same_key() {
    let before = "struct Test {}\n\nfn main() {\n    println!(\"Hello, world!\");\n}\n";
    let mut disk = tree(&[("src/main.rs", before)]);
    let mut patch = Patch::new();
    patch.changes.push(Change::Smart(Smart {
        path: "src/main.rs".to_string(),
        text: "/// The entry point.\nfn main() {\n    println!(\"Replaced!\");\n}".to_string(),
    }));
    patch.apply(&mut disk).unwrap();
    assert_eq!(
        read(&disk, "src/main.rs"),
        "struct Test {}\n\n/// The entry point.\nfn main() {\n    println!(\"Replaced!\");\n}\n"
    );
}

#[test]
fn smart_appends_a_new_declaration() {
    let mut disk = tree(&[("lib.rs", "fn a() {}\n")]);
    let mut patch = Patch::new();
    patch.changes.push(Change::Smart(Smart {
        path: "lib.rs".to_string(),
        text: "fn b() {}".to_string(),
    }));
    patch.apply(&mut disk).unwrap();
    assert_eq!(read(&disk, "lib.rs"), "fn a() {}\n\nfn b() {}\n");
}

#[test]
fn smart_rejects_unbalanced_text() {
    let mut disk = tree(&[("lib.rs", "fn a() {}\n")]);
    let mut patch = Patch::new();
    patch.changes.push(Change::Smart(Smart {
        path: "lib.rs".to_string(),
        text: "fn b() {".to_string(),
    }));
    let err = patch.apply(&mut disk).unwrap_err();
    assert_eq!(err.kind, ErrorKind::ParseError);
}

#[test]
fn smart_with_two_matching_declarations_is_ambiguous() {
    let mut disk = tree(&[("lib.rs", "fn a() {}\nfn a() {}\n")]);
    let mut patch = Patch::new();
    patch.changes.push(Change::Smart(Smart {
        path: "lib.rs".to_string(),
        text: "fn a() { 1 }".to_string(),
    }));
    let err = patch.apply(&mut disk).unwrap_err();
    assert_eq!(err.kind, ErrorKind::AmbiguousTarget);
    assert_eq!(read(&disk, "lib.rs"), "fn a() {}\nfn a() {}\n");
}

#[test]
fn change_descriptions() {
    assert_eq!(Patch::change_description(&write("a.txt", "x")), "Write to a.txt");
    assert_eq!(Patch::change_description(&replace("b.txt", "x", "y")), "Replace in b.txt");
}

#[test]
fn udiff_description_counts_its_files() {
    let c = Change::UDiff(UDiff {
        patch: String::new(),
        modified_files: vec!["a.rs".to_string(), "b.rs".to_string()],
    });
    assert_eq!(Patch::change_description(&c), "UDiff for 2 files");
    let many = Change::UDiff(UDiff {
        patch: String::new(),
        modified_files: (0..12).map(|i| format!("f{}.rs", i)).collect(),
    });
    assert_eq!(Patch::change_description(&many), "UDiff for 12 files");
}

#[test]
fn changed_files_lists_udiff_files_in_order() {
    let mut patch = Patch::new();
    patch.changes.push(Change::UDiff(UDiff {
        patch: String::new(),
        modified_files: vec!["x.rs".to_string(), "y.rs".to_string()],
    }));
    patch.changes.push(Change::Smart(Smart { path: "z.rs".to_string(), text: String::new() }));
    assert_eq!(patch.changed_files(), vec!["x.rs".to_string(), "y.rs".to_string(), "z.rs".to_string()]);
}

#[test]
fn empty_diff_does_not_parse() {
    let mut disk = tree(&[("lib.rs", "x\n")]);
    let mut patch = Patch::new();
    patch.changes.push(Change::UDiff(UDiff {
        patch: "just words\n".to_string(),
        modified_files: vec!["lib.rs".to_string()],
    }));
    assert_eq!(patch.apply(&mut disk).unwrap_err().kind, ErrorKind::ParseError);
}

#[test]
fn smart_merges_a_method_into_its_impl_block() {
    let before = "struct Test {}\n\nimpl Test {\n    fn new() -> Self {\n        Test\n    }\n}\n\nfn main() {\n    println!(\"Hello, world!\");\n}\n";
    let mut disk = tree(&[("src/main.rs", before)]);
    let mut patch = Patch::new();
    patch.changes.push(Change::Smart(Smart {
        path: "src/main.rs".to_string(),
        text: "impl Test {\n    fn another_fn() {\n        println!(\"Another function!\");\n    }\n}".to_string(),
    }));
    patch.apply(&mut disk).unwrap();
    assert_eq!(
        read(&disk, "src/main.rs"),
        "struct Test {}\n\nimpl Test {\n    fn new() -> Self {\n        Test\n    }\n\n    fn another_fn() {\n        println!(\"Another function!\");\n    }\n}\n\nfn main() {\n    println!(\"Hello, world!\");\n}\n"
    );
}

#[test]
fn smart_replaces_a_method_inside_its_impl_block() {
    let before = "impl Test {\n    fn new() -> Self {\n        Test\n    }\n}\n";
    let mut disk = tree(&[("lib.rs", before)]);
    let mut patch = Patch::new();
    patch.changes.push(Change::Smart(Smart {
        path: "lib.rs".to_string(),
        text: "impl Test {\n    fn new() -> Self {\n        Test {}\n    }\n}".to_string(),
    }));
    patch.apply(&mut disk).unwrap();
    assert_eq!(read(&disk, "lib.rs"), "impl Test {\n    fn new() -> Self {\n        Test {}\n    }\n}\n");
}

#[test]
fn write_creates_a_file_and_revert_removes_it() {
    let mut disk = tree(&[("a.txt", "A")]);
    let mut patch = Patch::new();
    patch.changes.push(write("new.txt", "fresh"));
    patch.apply(&mut disk).unwrap();
    assert_eq!(read(&disk, "new.txt"), "fresh");
    assert_eq!(patch.absent, vec!["new.txt".to_string()]);
    patch.revert(&mut disk);
    assert!(!disk.contains(&"new.txt".to_string()));
    assert_eq!(read(&disk, "a.txt"), "A");
    assert_eq!(disk.len(), 1);
}

#[test]
fn commit_writes_every_file_of_the_scratch_copy() {
    let mut disk = tree(&[("a.txt", "A"), ("b.txt", "B now")]);
    let mut patch = Patch::new();
    patch.cache.insert("b.txt".to_string(), "B before".to_string());
    patch.changes.push(write("a.txt", "A2"));
    patch.apply(&mut disk).unwrap();
    assert_eq!(read(&disk, "a.txt"), "A2");
    assert_eq!(read(&disk, "b.txt"), "B before");
}

#[test]
fn a_missing_file_fails_before_any_change_runs() {
    let mut disk = tree(&[("a.txt", "foo")]);
    let mut patch = Patch::new();
    patch.changes.push(replace("a.txt", "zzz", "y"));
    patch.changes.push(replace("b.txt", "x", "y"));
    let err = patch.apply(&mut disk).unwrap_err();
    assert_eq!(err.kind, ErrorKind::ReadFailure);
    assert_eq!(err.subject, "b.txt");
    assert_eq!(read(&disk, "a.txt"), "foo");
}

#[test]
fn a_change_after_a_write_still_needs_the_file() {
    let mut disk = tree(&[]);
    let mut patch = Patch::new();
    patch.changes.push(write("new.txt", "fresh"));
    patch.changes.push(replace("new.txt", "fresh", "fresher"));
    let err = patch.apply(&mut disk).unwrap_err();
    assert_eq!(err.kind, ErrorKind::ReadFailure);
    assert_eq!(err.subject, "new.txt");
    assert_eq!(disk.len(), 0);
}
