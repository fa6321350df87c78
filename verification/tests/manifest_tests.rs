use mole::data::{CTomlFile, Dependency, DependencyDetails, FoundDependency, Package};
use mole::parser::FileParser;

fn row(name: &str, version: &str, path: &str) -> FoundDependency {
    FoundDependency {
        package_name: name.to_string(),
        dep_version: version.to_string(),
        path: path.to_string(),
    }
}

#[test]
fn no_match_returns_empty() {
    let text = "[package]\nname = \"app\"\n[dependencies]\nlibc = \"0.2\"\n";
    let rows = FileParser::new().parse_toml(text, "serde", "/a/Cargo.toml");
    assert!(rows.is_empty());
}

#[test]
fn bare_version_single_row() {
    let text = "[package]\nname = \"app\"\n[dependencies]\nserde = \"1.0\"\n";
    let rows = FileParser::new().parse_toml(text, "serde", "/a/Cargo.toml");
    assert_eq!(rows, vec![row("app", "1.0", "/a/Cargo.toml")]);
}

#[test]
fn detailed_with_version_field() {
    let text = "[package]\nname = \"app\"\n[dependencies.serde]\nversion = \"1.0.193\"\nfeatures = [\"derive\"]\n";
    let rows = FileParser::new().parse_toml(text, "serde", "/a/Cargo.toml");
    assert_eq!(rows, vec![row("app", "1.0.193", "/a/Cargo.toml")]);
}

#[test]
fn detailed_without_version_reports_sentinel() {
    let text = "[package]\nname = \"app\"\n[dependencies.serde]\npath = \"../serde\"\n";
    let rows = FileParser::new().parse_toml(text, "serde", "/a/Cargo.toml");
    assert_eq!(rows, vec![row("app", "-", "/a/Cargo.toml")]);
}

#[test]
fn target_section_additive_to_flat_table() {
    let text = "[package]\nname = \"app\"\n[dependencies]\nserde = \"1.0\"\n[target.'cfg(unix)'.dependencies]\nserde = \"1.1\"\n";
    let rows = FileParser::new().parse_toml(text, "serde", "/a/Cargo.toml");
    assert_eq!(rows.len(), 2);
    let versions: Vec<&str> = rows.iter().map(|r| r.dep_version.as_str()).collect();
    assert!(versions.contains(&"1.0"));
    assert!(versions.contains(&"1.1"));
    for r in &rows {
        assert_eq!(r.package_name, "app");
        assert_eq!(r.path, "/a/Cargo.toml");
    }
}

#[test]
fn dev_dependencies_scanned_separately() {
    let text = "[package]\nname = \"app\"\n[dependencies]\nserde = \"1.0\"\n[dev-dependencies]\nserde = \"1.2\"\n";
    let rows = FileParser::new().parse_toml(text, "serde", "/a/Cargo.toml");
    assert_eq!(rows.len(), 2);
}

#[test]
fn missing_package_section_reports_sentinel_name() {
    let text = "[dependencies]\nserde = \"1.0\"\n";
    let rows = FileParser::new().parse_toml(text, "serde", "/a/Cargo.toml");
    assert_eq!(rows, vec![row("-", "1.0", "/a/Cargo.toml")]);
}

#[test]
fn malformed_manifest_yields_no_rows() {
    let text = "this is [ not toml";
    let rows = FileParser::new().parse_toml(text, "serde", "/a/Cargo.toml");
    assert!(rows.is_empty());
}

#[test]
fn ill_shaped_dependency_value_skips_file() {
    let text = "[package]\nname = \"app\"\n[dependencies]\nserde = 5\n";
    let rows = FileParser::new().parse_toml(text, "serde", "/a/Cargo.toml");
    assert!(rows.is_empty());
}

#[test]
fn parse_name_reads_declared_name() {
    let text = "[package]\nname = \"app\"\n";
    assert_eq!(FileParser::new().parse_name(text), "app");
}

#[test]
fn parse_name_falls_back_to_sentinel() {
    assert_eq!(FileParser::new().parse_name("not [ toml"), "-");
    assert_eq!(FileParser::new().parse_name("[dependencies]\nserde = \"1\"\n"), "-");
}

#[test]
fn first_matching_entry_wins() {
    let deps = Some(vec![
        ("serde".to_string(), Dependency::Simple("1.0".to_string())),
        ("serde".to_string(), Dependency::Simple("2.0".to_string())),
    ]);
    let found = FileParser::new().parse_dependencies(&deps, "serde", "/p", "app");
    assert_eq!(found, Some(row("app", "1.0", "/p")));
}

#[test]
fn extract_toml_orders_flat_tables_first() {
    let doc = CTomlFile {
        package: Some(Package { name: "app".to_string() }),
        dependencies: Some(vec![("serde".to_string(), Dependency::Simple("1.0".to_string()))]),
        dev_dependencies: Some(vec![(
            "serde".to_string(),
            Dependency::Detailed(DependencyDetails { version: None }),
        )]),
        target: None,
    };
    let rows = FileParser::new().extract_toml(&doc, "serde", "/p");
    assert_eq!(rows, vec![row("app", "1.0", "/p"), row("app", "-", "/p")]);
}

#[test]
fn package_section_without_name_skips_file() {
    let text = "[package]\nedition = \"2021\"\n[dependencies]\nserde = \"1.0\"\n";
    let rows = FileParser::new().parse_toml(text, "serde", "/a/Cargo.toml");
    assert!(rows.is_empty());
}

#[test]
fn target_dev_dependencies_also_scanned() {
    let text = "[package]\nname = \"app\"\n[target.'cfg(windows)'.dev-dependencies]\nserde = \"0.9\"\n";
    let rows = FileParser::new().parse_toml(text, "serde", "/a/Cargo.toml");
    assert_eq!(rows, vec![row("app", "0.9", "/a/Cargo.toml")]);
}
