use std::io::{Cursor, Read, Write};

use ferron_forge::archive::{
    archive_comment, archive_entries, config_contents, ArchiveEntry, EntrySource, WalkedAsset,
};
use ferron_forge::compile::{compile_kind, feature_selection, plan_build, CompileKind, TargetError};
use ferron_forge::toolchain::{toolchain_from_settings, toolchain_override, ToolchainError};

fn strings(v: &[&str]) -> Vec<String> {
    v.iter().map(|s| s.to_string()).collect()
}

fn file(path: &str) -> WalkedAsset {
    WalkedAsset { relative_path: Some(path.to_string()), is_file: true }
}

fn dir(path: &str) -> WalkedAsset {
    WalkedAsset { relative_path: Some(path.to_string()), is_file: false }
}

fn names(entries: &[ArchiveEntry]) -> Vec<String> {
    entries.iter().map(|e| e.name.clone()).collect()
}

#[test]
fn toolchain_read_from_settings() {
    let text = "version = \"12\"\nprofile = \"default\"\ndefault_toolchain = \"stable-x86_64-unknown-linux-gnu\"\n";
    assert_eq!(toolchain_from_settings(text), Ok("stable-x86_64-unknown-linux-gnu".to_string()));
}

#[test]
fn toolchain_missing_field_is_not_found() {
    assert_eq!(toolchain_from_settings("profile = \"minimal\"\n"), Err(ToolchainError::NotFound));
    assert_eq!(toolchain_from_settings(""), Err(ToolchainError::NotFound));
}

#[test]
fn toolchain_non_string_field_is_not_found() {
    assert_eq!(toolchain_from_settings("default_toolchain = 3\n"), Err(ToolchainError::NotFound));
}

#[test]
fn toolchain_malformed_settings() {
    assert_eq!(toolchain_from_settings("default_toolchain = \"stable"), Err(ToolchainError::Malformed));
    assert_eq!(toolchain_from_settings("[[[\n"), Err(ToolchainError::Malformed));
}

#[test]
fn toolchain_missing_field_falls_back_to_environment() {
    assert_eq!(toolchain_override(Some("profile = \"minimal\"\n")), None);
    assert_eq!(toolchain_override(Some("not toml at all = = =")), None);
    assert_eq!(toolchain_override(None), None);
    assert_eq!(toolchain_override(Some("default_toolchain = \"nightly\"")), Some("nightly".to_string()));
}

#[test]
fn no_target_compiles_for_host() {
    assert_eq!(compile_kind(None), Ok(CompileKind::Host));
}

#[test]
fn empty_target_is_invalid() {
    assert_eq!(compile_kind(Some("")), Err(TargetError::Empty));
    assert_eq!(compile_kind(Some(" \t\n")), Err(TargetError::Empty));
    assert_eq!(compile_kind(Some("\u{3000}")), Err(TargetError::Empty));
}

#[test]
fn json_target_is_invalid() {
    assert_eq!(compile_kind(Some("my-target.json")), Err(TargetError::JsonSpecification));
    assert_eq!(compile_kind(Some(" my-target.json\n")), Err(TargetError::JsonSpecification));
}

#[test]
fn target_triple_is_trimmed() {
    assert_eq!(
        compile_kind(Some("  aarch64-unknown-linux-musl \n")),
        Ok(CompileKind::Target("aarch64-unknown-linux-musl".to_string()))
    );
    assert_eq!(
        compile_kind(Some("x86_64-pc-windows-msvc")),
        Ok(CompileKind::Target("x86_64-pc-windows-msvc".to_string()))
    );
}

#[test]
fn invalid_target_fails_the_plan() {
    assert!(matches!(plan_build(Some(""), None), Err(TargetError::Empty)));
    let modules = strings(&["cache"]);
    assert!(matches!(plan_build(Some("t.json"), Some(&modules)), Err(TargetError::JsonSpecification)));
}

#[test]
fn absent_modules_keep_defaults() {
    let sel = feature_selection(None);
    assert!(sel.uses_default_features);
    assert!(sel.features.is_empty());
}

#[test]
fn empty_modules_keep_defaults() {
    let sel = feature_selection(Some(&[]));
    assert!(sel.uses_default_features);
    assert!(sel.features.is_empty());
}

#[test]
fn modules_become_package_features() {
    let modules = strings(&["a", "b"]);
    let sel = feature_selection(Some(&modules));
    assert!(!sel.uses_default_features);
    let mut got = sel.features.clone();
    got.sort();
    assert_eq!(got, strings(&["ferron/a", "ferron/b"]));
}

#[test]
fn release_profile_is_planned() {
    let plan = plan_build(Some("riscv64gc-unknown-linux-gnu"), None).unwrap();
    assert_eq!(plan.profile, "release");
    assert_eq!(plan.kind, CompileKind::Target("riscv64gc-unknown-linux-gnu".to_string()));
    assert!(plan.features.uses_default_features);
}

#[test]
fn cache_module_host_scenario() {
    let modules = strings(&["cache"]);
    let plan = plan_build(None, Some(&modules)).unwrap();
    assert_eq!(plan.kind, CompileKind::Host);
    assert_eq!(plan.features.features, strings(&["ferron/cache"]));
    assert!(!plan.features.uses_default_features);
    let host = "x86_64-unknown-linux-gnu";
    let comment = archive_comment(host);
    assert!(comment.contains(host));
    let entries = archive_entries(&[Some("ferron".to_string())], &[]);
    let binaries: Vec<&ArchiveEntry> =
        entries.iter().filter(|e| matches!(e.source, EntrySource::Binary(_))).collect();
    assert_eq!(binaries.len(), 1);
    assert_eq!(binaries[0].name, "ferron");
}

#[test]
fn archive_comment_text() {
    assert_eq!(
        archive_comment("aarch64-apple-darwin"),
        "Ferron built for \"aarch64-apple-darwin\" target using Ferron Forge"
    );
}

#[test]
fn config_entry_text() {
    assert_eq!(config_contents(), "global:\n  wwwroot: wwwroot");
}

#[test]
fn archive_layout() {
    let binaries = vec![Some("ferron".to_string()), None, Some("ferron-passwd".to_string())];
    let assets = vec![
        dir(""),
        file("index.html"),
        dir("css"),
        file("css/main.css"),
        WalkedAsset { relative_path: None, is_file: true },
        dir("empty"),
    ];
    let entries = archive_entries(&binaries, &assets);
    assert_eq!(
        names(&entries),
        strings(&["ferron", "ferron-passwd", "ferron.yaml", "index.html", "css/", "css/main.css", "empty/"])
    );
    let sources: Vec<EntrySource> = entries.iter().map(|e| e.source).collect();
    assert_eq!(
        sources,
        vec![
            EntrySource::Binary(0),
            EntrySource::Binary(2),
            EntrySource::Config,
            EntrySource::AssetFile(1),
            EntrySource::Directory,
            EntrySource::AssetFile(3),
            EntrySource::Directory,
        ]
    );
    let modes: Vec<Option<u32>> = entries.iter().map(|e| e.unix_permissions()).collect();
    assert_eq!(modes, vec![Some(0o755), Some(0o755), None, None, None, None, None]);
}

#[test]
fn empty_directory_gets_entry() {
    let entries = archive_entries(&[], &[dir(""), dir("assets"), dir("assets/empty")]);
    assert_eq!(names(&entries), strings(&["ferron.yaml", "assets/", "assets/empty/"]));
    assert_eq!(entries[2].source, EntrySource::Directory);
}

#[test]
fn walk_order_does_not_change_names() {
    let binaries = vec![Some("ferron".to_string())];
    let first = archive_entries(&binaries, &[dir(""), file("a.txt"), dir("img"), file("img/logo.png")]);
    let second = archive_entries(&binaries, &[dir(""), dir("img"), file("img/logo.png"), file("a.txt")]);
    let mut a = names(&first);
    let mut b = names(&second);
    assert_ne!(a, b);
    a.sort();
    b.sort();
    assert_eq!(a, b);
}

#[test]
fn archive_round_trip() {
    let binaries = vec![Some("ferron".to_string())];
    let binary_bytes: Vec<u8> = vec![0x7f, b'E', b'L', b'F', 1, 2, 3];
    let asset_bytes: &[u8] = b"<html></html>";
    let assets = vec![dir(""), file("index.html"), dir("empty")];
    let entries = archive_entries(&binaries, &assets);

    let mut zip = zip::ZipWriter::new(Cursor::new(Vec::new()));
    for entry in &entries {
        let mut options = zip::write::SimpleFileOptions::default();
        if let Some(mode) = entry.unix_permissions() {
            options = options.unix_permissions(mode);
        }
        match entry.source {
            EntrySource::Binary(_) => {
                zip.start_file(entry.name.clone(), options).unwrap();
                zip.write_all(&binary_bytes).unwrap();
            }
            EntrySource::Config => {
                zip.start_file(entry.name.clone(), options).unwrap();
                zip.write_all(config_contents().as_bytes()).unwrap();
            }
            EntrySource::AssetFile(_) => {
                zip.start_file(entry.name.clone(), options).unwrap();
                zip.write_all(asset_bytes).unwrap();
            }
            EntrySource::Directory => zip.add_directory(entry.name.clone(), options).unwrap(),
        }
    }
    zip.set_comment(archive_comment("x86_64-unknown-linux-gnu")).unwrap();
    let bytes = zip.finish().unwrap().into_inner();

    let mut archive = zip::ZipArchive::new(Cursor::new(bytes)).unwrap();
    {
        let mut bin = archive.by_name("ferron").unwrap();
        assert_eq!(bin.unix_mode().unwrap() & 0o777, 0o755);
        let mut got = Vec::new();
        bin.read_to_end(&mut got).unwrap();
        assert_eq!(got, binary_bytes);
    }
    {
        let mut config = archive.by_name("ferron.yaml").unwrap();
        let mut got = Vec::new();
        config.read_to_end(&mut got).unwrap();
        assert_eq!(got, b"global:\n  wwwroot: wwwroot");
    }
    assert!(archive.by_name("empty/").unwrap().is_dir());
    assert_eq!(archive.comment(), b"Ferron built for \"x86_64-unknown-linux-gnu\" target using Ferron Forge");
}
