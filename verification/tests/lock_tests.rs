use mole::data::{CLockFile, FoundDependency, LockPackage};
use mole::parser::FileParser;

fn row(name: &str, version: &str, path: &str) -> FoundDependency {
    FoundDependency {
        package_name: name.to_string(),
        dep_version: version.to_string(),
        path: path.to_string(),
    }
}

#[test]
fn lock_row_uses_passed_owner_name() {
    let text = "[[package]]\nname = \"serde\"\nversion = \"1.0.193\"\n";
    let rows = FileParser::new().parse_lock(text, "serde", "/a/Cargo.lock", "app".to_string());
    assert_eq!(rows, vec![row("app", "1.0.193", "/a/Cargo.lock")]);
}

#[test]
fn lock_duplicate_entries_all_reported() {
    let text = "[[package]]\nname = \"serde\"\nversion = \"1.0.0\"\n[[package]]\nname = \"other\"\nversion = \"0.1.0\"\n[[package]]\nname = \"serde\"\nversion = \"2.0.0\"\n";
    let rows = FileParser::new().parse_lock(text, "serde", "/a/Cargo.lock", "app".to_string());
    assert_eq!(
        rows,
        vec![row("app", "1.0.0", "/a/Cargo.lock"), row("app", "2.0.0", "/a/Cargo.lock")]
    );
}

#[test]
fn lock_without_match_is_empty() {
    let text = "[[package]]\nname = \"libc\"\nversion = \"0.2.0\"\n";
    let rows = FileParser::new().parse_lock(text, "serde", "/a/Cargo.lock", "app".to_string());
    assert!(rows.is_empty());
}

#[test]
fn malformed_lock_is_silently_empty() {
    let rows = FileParser::new().parse_lock("( nonsense", "serde", "/a/Cargo.lock", "app".to_string());
    assert!(rows.is_empty());
}

#[test]
fn lock_entry_missing_version_drops_file() {
    let text = "[[package]]\nname = \"serde\"\n";
    let rows = FileParser::new().parse_lock(text, "serde", "/a/Cargo.lock", "app".to_string());
    assert!(rows.is_empty());
}

#[test]
fn extract_lock_reports_each_match() {
    let lock = CLockFile {
        package: vec![
            LockPackage { name: "serde".to_string(), version: "1.0.0".to_string() },
            LockPackage { name: "serde".to_string(), version: "1.0.0".to_string() },
        ],
    };
    let rows = FileParser::new().extract_lock(&lock, "serde", "/l", "app".to_string());
    assert_eq!(rows, vec![row("app", "1.0.0", "/l"), row("app", "1.0.0", "/l")]);
}

#[test]
fn lock_without_package_list_is_empty() {
    let rows = FileParser::new().parse_lock("version = 3\n", "serde", "/a/Cargo.lock", "app".to_string());
    assert!(rows.is_empty());
}
