use mcpm::common::{Mod, ModFile, ModVersion};
use mcpm::install::{install_plan, InstallPlan};
use mcpm::minecraft::{InstalledMod, MinecraftInstance};
use mcpm::modrinth::{resolve, ResolveOutcome};

fn version(id: &str, loaders: &[&str], games: &[&str], files: Vec<ModFile>) -> ModVersion {
    ModVersion {
        id: String::from(id),
        game_versions: games.iter().map(|s| String::from(*s)).collect(),
        loaders: loaders.iter().map(|s| String::from(*s)).collect(),
        files,
        dependencies: Vec::new(),
        date_published: String::from("2023-01-01T00:00:00Z"),
    }
}

fn file(name: &str, primary: bool) -> ModFile {
    ModFile {
        url: format!("https://cdn.example/{}", name),
        filename: String::from(name),
        size: 1024,
        primary,
    }
}

fn fabric_instance() -> MinecraftInstance {
    MinecraftInstance {
        loader: String::from("fabric"),
        minecraft_version: String::from("1.20.1"),
        mods: Vec::new(),
    }
}

fn foo_mod() -> Mod {
    Mod {
        slug: String::from("foo"),
        title: String::from("Foo"),
        description: String::from("a mod"),
        project_type: String::from("mod"),
        versions: vec![String::from("v1")],
    }
}

#[test]
fn resolve_picks_last_matching_version() {
    let versions = vec![
        version("old", &["fabric"], &["1.20.1"], vec![file("foo-0.9.jar", true)]),
        version("other", &["forge"], &["1.20.1"], vec![file("foo-forge.jar", true)]),
        version("new", &["fabric"], &["1.20.1"], vec![file("foo-1.0.jar", true)]),
    ];
    let r = resolve(&versions, &String::from("fabric"), &String::from("1.20.1"));
    match r {
        ResolveOutcome::Resolved { version, file } => {
            assert_eq!(version, 2);
            assert_eq!(file, 0);
        },
        _ => panic!("expected a resolved version"),
    }
}

#[test]
fn resolve_never_selects_incompatible_versions() {
    let versions = vec![
        version("a", &["forge"], &["1.20.1"], vec![file("a.jar", true)]),
        version("b", &["fabric"], &["1.19"], vec![file("b.jar", true)]),
    ];
    let r = resolve(&versions, &String::from("fabric"), &String::from("1.20.1"));
    assert!(matches!(r, ResolveOutcome::NoMatch));
}

#[test]
fn resolve_picks_first_primary_file() {
    let versions = vec![version(
        "v",
        &["fabric"],
        &["1.20.1"],
        vec![file("sources.jar", false), file("main.jar", true), file("extra.jar", true)],
    )];
    let r = resolve(&versions, &String::from("fabric"), &String::from("1.20.1"));
    match r {
        ResolveOutcome::Resolved { version, file } => {
            assert_eq!(version, 0);
            assert_eq!(file, 1);
        },
        _ => panic!("expected a resolved version"),
    }
}

#[test]
fn resolve_reports_missing_primary_file() {
    let versions = vec![version("v", &["fabric"], &["1.20.1"], vec![file("a.jar", false)])];
    let r = resolve(&versions, &String::from("fabric"), &String::from("1.20.1"));
    assert!(matches!(r, ResolveOutcome::NoPrimaryFile { version: 0 }));
}

#[test]
fn install_downloads_matching_primary_file() {
    // A fresh fabric 1.20.1 environment and one compatible version with one
    // primary file: install plans the download and records the mod.
    let mut inst = fabric_instance();
    let versions = vec![version("v1", &["fabric"], &["1.20.1"], vec![file("foo-1.0.jar", true)])];
    let plan = install_plan(&inst, &foo_mod(), &versions);
    match plan {
        InstallPlan::Download { url, filename } => {
            assert_eq!(filename, "foo-1.0.jar");
            assert_eq!(url, "https://cdn.example/foo-1.0.jar");
            let added = inst.install_entry(InstalledMod {
                name: String::from("Foo"),
                slug: String::from("foo"),
                version: filename,
            });
            assert!(added);
        },
        _ => panic!("expected a download plan"),
    }
    assert_eq!(inst.mods.len(), 1);
    assert_eq!(inst.mods[0].slug, "foo");
    assert_eq!(inst.mods[0].version, "foo-1.0.jar");
}

#[test]
fn install_with_wrong_loader_changes_nothing() {
    // The only returned version is for forge: no match, no mutation.
    let mut inst = fabric_instance();
    let versions = vec![version("v1", &["forge"], &["1.20.1"], vec![file("foo-1.0.jar", true)])];
    let plan = install_plan(&inst, &foo_mod(), &versions);
    assert!(matches!(plan, InstallPlan::NoMatchingVersion));
    assert!(inst.mods.is_empty());
    // The manifest would be persisted unchanged; encode it to show no change.
    let before = mcpm::lockfile::encode_instance(&fabric_instance());
    let after = mcpm::lockfile::encode_instance(&inst);
    assert_eq!(before, after);
}

#[test]
fn install_of_installed_slug_short_circuits() {
    let mut inst = fabric_instance();
    inst.add_mod(InstalledMod {
        name: String::from("Foo"),
        slug: String::from("foo"),
        version: String::from("foo-0.9.jar"),
    });
    let versions = vec![version("v1", &["fabric"], &["1.20.1"], vec![file("foo-1.0.jar", true)])];
    let plan = install_plan(&inst, &foo_mod(), &versions);
    assert!(matches!(plan, InstallPlan::AlreadyInstalled));
    assert_eq!(inst.mods.len(), 1);
    assert_eq!(inst.mods[0].version, "foo-0.9.jar");
}

#[test]
fn install_reports_missing_primary_file() {
    let inst = fabric_instance();
    let versions = vec![version("v1", &["fabric"], &["1.20.1"], vec![file("foo-1.0.jar", false)])];
    let plan = install_plan(&inst, &foo_mod(), &versions);
    assert!(matches!(plan, InstallPlan::NoPrimaryFile));
}
