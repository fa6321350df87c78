use mole::data::{CargoFiles, FileEntry, FoundDependency, MoleError};
use mole::order::sort_rows;
use mole::parser::FileParser;

fn readable(path: &str, text: &str) -> FileEntry {
    FileEntry { path: path.to_string(), contents: Ok(text.to_string()) }
}

fn unreadable(path: &str, err: &str) -> FileEntry {
    FileEntry { path: path.to_string(), contents: Err(err.to_string()) }
}

fn row(name: &str, version: &str, path: &str) -> FoundDependency {
    FoundDependency {
        package_name: name.to_string(),
        dep_version: version.to_string(),
        path: path.to_string(),
    }
}

#[test]
fn result_sorted_by_path_ascending() {
    let manifest = "[package]\nname = \"app\"\n[dependencies]\nfoo = \"1.0\"\n";
    let groups = vec![
        CargoFiles { ctoml: Some(readable("/b/Cargo.toml", manifest)), clock: None },
        CargoFiles { ctoml: Some(readable("/a/Cargo.toml", manifest)), clock: None },
    ];
    let rows = FileParser::new().parse(groups, "foo").unwrap();
    assert_eq!(
        rows,
        vec![row("app", "1.0", "/a/Cargo.toml"), row("app", "1.0", "/b/Cargo.toml")]
    );
}

#[test]
fn sort_rows_orders_existing_rows() {
    let mut rows = vec![row("x", "1", "/b/Cargo.lock"), row("y", "2", "/a/Cargo.toml")];
    sort_rows(&mut rows);
    assert_eq!(rows, vec![row("y", "2", "/a/Cargo.toml"), row("x", "1", "/b/Cargo.lock")]);
}

#[test]
fn lock_only_group_contributes_nothing() {
    let lock = "[[package]]\nname = \"foo\"\nversion = \"1.0.0\"\n";
    let groups = vec![CargoFiles { ctoml: None, clock: Some(readable("/a/Cargo.lock", lock)) }];
    let rows = FileParser::new().parse(groups, "foo").unwrap();
    assert!(rows.is_empty());
}

#[test]
fn unreadable_manifest_fails_whole_scan() {
    let manifest = "[package]\nname = \"app\"\n[dependencies]\nfoo = \"1.0\"\n";
    let groups = vec![
        CargoFiles { ctoml: Some(readable("/a/Cargo.toml", manifest)), clock: None },
        CargoFiles { ctoml: Some(unreadable("/b/Cargo.toml", "permission denied")), clock: None },
    ];
    let res = FileParser::new().parse(groups, "foo");
    assert_eq!(res, Err(MoleError::Io("permission denied".to_string())));
}

#[test]
fn unreadable_lock_fails_whole_scan() {
    let manifest = "[package]\nname = \"app\"\n";
    let groups = vec![CargoFiles {
        ctoml: Some(readable("/a/Cargo.toml", manifest)),
        clock: Some(unreadable("/a/Cargo.lock", "boom")),
    }];
    let res = FileParser::new().parse(groups, "foo");
    assert_eq!(res, Err(MoleError::Io("boom".to_string())));
}

#[test]
fn unreadable_lock_without_manifest_is_ignored() {
    let groups = vec![CargoFiles {
        ctoml: None,
        clock: Some(unreadable("/a/Cargo.lock", "boom")),
    }];
    let rows = FileParser::new().parse(groups, "foo").unwrap();
    assert!(rows.is_empty());
}

#[test]
fn malformed_manifest_skipped_others_reported() {
    let good = "[package]\nname = \"app\"\n[dependencies]\nfoo = \"1.0\"\n";
    let groups = vec![
        CargoFiles { ctoml: Some(readable("/b/Cargo.toml", "not [ toml")), clock: None },
        CargoFiles { ctoml: Some(readable("/a/Cargo.toml", good)), clock: None },
    ];
    let rows = FileParser::new().parse(groups, "foo").unwrap();
    assert_eq!(rows, vec![row("app", "1.0", "/a/Cargo.toml")]);
}

#[test]
fn lock_owner_comes_from_manifest_without_match() {
    // The manifest has no matching declaration: the owner name for the lock
    // rows comes from the name-only extraction.
    let manifest = "[package]\nname = \"app\"\n";
    let lock = "[[package]]\nname = \"foo\"\nversion = \"1.2.3\"\n";
    let groups = vec![CargoFiles {
        ctoml: Some(readable("/a/Cargo.toml", manifest)),
        clock: Some(readable("/a/Cargo.lock", lock)),
    }];
    let rows = FileParser::new().parse(groups, "foo").unwrap();
    assert_eq!(rows, vec![row("app", "1.2.3", "/a/Cargo.lock")]);
}

#[test]
fn end_to_end_two_groups() {
    let manifest_a = "[package]\nname = \"app\"\n[dependencies]\nfoo = \"2.0\"\n";
    let lock_a = "[[package]]\nname = \"foo\"\nversion = \"2.0.1\"\n[[package]]\nname = \"bar\"\nversion = \"0.1.0\"\n";
    let manifest_b = "[package]\nname = \"other\"\n[dependencies]\nbaz = \"3\"\n";
    let groups = vec![
        CargoFiles {
            ctoml: Some(readable("/a/Cargo.toml", manifest_a)),
            clock: Some(readable("/a/Cargo.lock", lock_a)),
        },
        CargoFiles { ctoml: Some(readable("/b/Cargo.toml", manifest_b)), clock: None },
    ];
    let rows = FileParser::new().parse(groups, "foo").unwrap();
    assert_eq!(
        rows,
        vec![row("app", "2.0.1", "/a/Cargo.lock"), row("app", "2.0", "/a/Cargo.toml")]
    );
}

#[test]
fn equal_paths_keep_insertion_order() {
    let mut rows = vec![
        row("b", "2", "/same/Cargo.toml"),
        row("a", "1", "/a/Cargo.toml"),
        row("c", "3", "/same/Cargo.toml"),
    ];
    sort_rows(&mut rows);
    assert_eq!(
        rows,
        vec![
            row("a", "1", "/a/Cargo.toml"),
            row("b", "2", "/same/Cargo.toml"),
            row("c", "3", "/same/Cargo.toml"),
        ]
    );
}
