use sekirei::manifest::{default_entry, default_main_sk, default_toml, ManifestError, Package, SekireiToml};
use std::collections::HashMap;

#[test]
fn test_default_toml_format() {
    let t = default_toml("myapp");
    assert!(t.contains("myapp"));
    assert!(t.contains("[dependencies]"));
}

#[test]
fn default_toml_text() {
    assert_eq!(
        default_toml("app"),
        "[package]\nname    = \"app\"\nversion = \"0.1.0\"\nentry   = \"src/main.sk\"\n\n[dependencies]\n"
    );
}

#[test]
fn default_main_text() {
    assert_eq!(default_main_sk("app"), "from std import io\n\nfn main():\n    io.println(\"Hello from app!\")\n");
}

#[test]
fn entry_defaults_to_src_main() {
    assert_eq!(default_entry(), "src/main.sk");
}

fn manifest(entry: &str) -> SekireiToml {
    SekireiToml {
        package: Package { name: "a".into(), version: "0.1.0".into(), author: None, entry: entry.into() },
        dependencies: HashMap::new(),
    }
}

#[test]
fn entry_path_joins_relative_entries() {
    assert_eq!(manifest("src/main.sk").entry_path("proj"), "proj/src/main.sk");
    assert_eq!(manifest("src/main.sk").entry_path("proj/"), "proj/src/main.sk");
    assert_eq!(manifest("src/main.sk").entry_path(""), "src/main.sk");
    assert_eq!(manifest("/abs/main.sk").entry_path("proj"), "/abs/main.sk");
}

#[test]
fn manifest_error_display() {
    assert_eq!(ManifestError::Parse("bad".into()).to_display_string(), "invalid sekirei.toml: bad");
    assert_eq!(
        ManifestError::Io("x/sekirei.toml".into(), "not found".into()).to_display_string(),
        "cannot read 'x/sekirei.toml': not found"
    );
}

/// A manifest read from TOML text by hand, with the library's `default_entry` for a missing
/// entry and no dependencies when none are listed. The serde decoding of the real loader is
/// not in the library, so these tests check the TOML shape, the default entry and
/// `entry_path`, not that decoding.
fn from_toml(src: &str) -> SekireiToml {
    let t: toml::Table = src.parse().expect("valid TOML");
    let p = t["package"].as_table().expect("a [package] table");
    let text = |k: &str| p.get(k).and_then(|v| v.as_str()).map(String::from);
    let mut dependencies = HashMap::new();
    if let Some(d) = t.get("dependencies").and_then(|v| v.as_table()) {
        for (k, v) in d {
            dependencies.insert(k.clone(), v.as_str().expect("a version").to_string());
        }
    }
    SekireiToml {
        package: Package {
            name: text("name").expect("a name"),
            version: text("version").expect("a version"),
            author: text("author"),
            entry: text("entry").unwrap_or_else(default_entry),
        },
        dependencies,
    }
}

#[test]
fn test_parse_toml() {
    let src = r#"
[package]
name    = "myapp"
version = "0.1.0"
entry   = "src/main.sk"

[dependencies]
http = "1.2.0"
"#;
    let manifest = from_toml(src);
    assert_eq!(manifest.package.name, "myapp");
    assert_eq!(manifest.package.entry, "src/main.sk");
    assert_eq!(manifest.dependencies["http"], "1.2.0");
}

#[test]
fn test_default_entry() {
    let src = r#"
[package]
name    = "minimal"
version = "0.1.0"
"#;
    let manifest = from_toml(src);
    assert_eq!(manifest.package.entry, "src/main.sk");
    assert_eq!(manifest.entry_path("minimal"), "minimal/src/main.sk");
}

#[test]
fn a_new_project_manifest_reads_back() {
    let manifest = from_toml(&default_toml("fresh"));
    assert_eq!(manifest.package.name, "fresh");
    assert_eq!(manifest.package.version, "0.1.0");
    assert_eq!(manifest.entry_path("fresh"), "fresh/src/main.sk");
    assert!(manifest.dependencies.is_empty());
}
