use mcpm::install::{removal_proceeds, uninstall_plan, RemoveFileOutcome, UninstallPlan};
use mcpm::minecraft::{
    is_valid_loader, is_valid_minecraft_version, InstalledMod, MinecraftInstance,
};

fn sample_mod(slug: &str, file: &str) -> InstalledMod {
    InstalledMod {
        name: String::from(slug),
        slug: String::from(slug),
        version: String::from(file),
    }
}

fn sample_instance() -> MinecraftInstance {
    MinecraftInstance {
        loader: String::from("fabric"),
        minecraft_version: String::from("1.20.1"),
        mods: Vec::new(),
    }
}

#[test]
fn new_instance_is_empty() {
    let inst = MinecraftInstance::new();
    assert_eq!(inst.loader, "");
    assert_eq!(inst.minecraft_version, "");
    assert!(inst.mods.is_empty());
}

#[test]
fn add_mod_appends() {
    let mut inst = sample_instance();
    inst.add_mod(sample_mod("sodium", "sodium-1.0.jar"));
    assert_eq!(inst.mods.len(), 1);
    assert_eq!(inst.mods[0].slug, "sodium");
}

#[test]
fn install_twice_keeps_one_entry() {
    let mut inst = sample_instance();
    let added_first = inst.install_entry(sample_mod("sodium", "sodium-1.0.jar"));
    let added_second = inst.install_entry(sample_mod("sodium", "sodium-1.1.jar"));
    assert!(added_first);
    assert!(!added_second);
    let count = inst.mods.iter().filter(|m| m.slug == "sodium").count();
    assert_eq!(count, 1);
    assert_eq!(inst.mods[0].version, "sodium-1.0.jar");
}

#[test]
fn remove_mod_drops_matching_entries() {
    let mut inst = sample_instance();
    inst.add_mod(sample_mod("sodium", "sodium-1.0.jar"));
    inst.add_mod(sample_mod("lithium", "lithium-1.0.jar"));
    let target = sample_mod("sodium", "sodium-1.0.jar");
    inst.remove_mod(&target);
    assert_eq!(inst.mods.len(), 1);
    assert_eq!(inst.mods[0].slug, "lithium");
}

#[test]
fn installed_reports_presence() {
    let mut inst = sample_instance();
    assert!(!inst.installed(&String::from("sodium")));
    inst.add_mod(sample_mod("sodium", "sodium-1.0.jar"));
    assert!(inst.installed(&String::from("sodium")));
    assert!(!inst.installed(&String::from("lithium")));
}

#[test]
fn uninstall_of_absent_slug_is_not_installed() {
    let mut inst = sample_instance();
    inst.add_mod(sample_mod("lithium", "lithium-1.0.jar"));
    let plan = uninstall_plan(&inst, &String::from("sodium"));
    assert!(matches!(plan, UninstallPlan::NotInstalled));
    // Nothing was mutated: the manifest still holds exactly the old record.
    assert_eq!(inst.mods.len(), 1);
    assert_eq!(inst.mods[0].slug, "lithium");
}

#[test]
fn uninstall_of_present_slug_names_the_backing_file() {
    let mut inst = sample_instance();
    inst.add_mod(sample_mod("sodium", "sodium-1.0.jar"));
    match uninstall_plan(&inst, &String::from("sodium")) {
        UninstallPlan::Remove { index, filename } => {
            assert_eq!(index, 0);
            assert_eq!(filename, "sodium-1.0.jar");
        },
        UninstallPlan::NotInstalled => panic!("expected a removal plan"),
    }
}

#[test]
fn removal_outcomes_permission_denied_is_fatal() {
    assert!(removal_proceeds(&RemoveFileOutcome::Removed));
    assert!(removal_proceeds(&RemoveFileOutcome::NotFound));
    assert!(removal_proceeds(&RemoveFileOutcome::OtherError));
    assert!(!removal_proceeds(&RemoveFileOutcome::PermissionDenied));
}

#[test]
fn minecraft_version_pattern() {
    assert!(is_valid_minecraft_version(&String::from("1.7")));
    assert!(is_valid_minecraft_version(&String::from("1.20")));
    assert!(is_valid_minecraft_version(&String::from("1.20.1")));
    assert!(is_valid_minecraft_version(&String::from("1.8.9")));
    assert!(is_valid_minecraft_version(&String::from("1.19.42")));
    assert!(!is_valid_minecraft_version(&String::from("2.20")));
    assert!(!is_valid_minecraft_version(&String::from("1.205")));
    assert!(!is_valid_minecraft_version(&String::from("1.20.")));
    assert!(!is_valid_minecraft_version(&String::from("1.20.1.2")));
    assert!(!is_valid_minecraft_version(&String::from("")));
    assert!(!is_valid_minecraft_version(&String::from("1.x")));
}

#[test]
fn loader_names_ignore_ascii_case() {
    assert!(is_valid_loader(&String::from("forge")));
    assert!(is_valid_loader(&String::from("Fabric")));
    assert!(is_valid_loader(&String::from("QUILT")));
    assert!(!is_valid_loader(&String::from("paper")));
    assert!(!is_valid_loader(&String::from("")));
}
