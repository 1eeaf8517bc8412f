//! The install and uninstall workflows' decisions: what to do with a loaded
//! manifest, fetched metadata, and the outcomes the file system reports.
//! The surrounding process performs the fetches, the download and the file
//! operations, and applies exactly what these decisions say.

use vstd::prelude::*;
use vstd::string::StringExecFns;

use crate::common::{Mod, ModVersion};
use crate::minecraft::{has_mod, MinecraftInstance};
use crate::modrinth::{
    is_first_primary, is_last_match, no_match, no_primary, resolve, ResolveOutcome,
};

verus! {

/// What an install run does after the manifest was loaded and the mod's
/// metadata and versions were fetched.
pub enum InstallPlan {
    /// The slug is already recorded: report and change nothing.
    AlreadyInstalled,
    /// No fetched version is compatible with the environment: report and
    /// change nothing; this is a soft outcome, not an error.
    NoMatchingVersion,
    /// The newest compatible version has no file flagged primary: registry
    /// data inconsistency.
    NoPrimaryFile,
    /// Download the primary file of the newest compatible version.
    Download { url: String, filename: String },
}

/// Decides an install run: already installed wins, then the resolver's
/// outcome on the fetched versions.
pub fn install_plan(instance: &MinecraftInstance, minecraft_mod: &Mod, versions: &Vec<ModVersion>)
    -> (p: InstallPlan)
    ensures
        ({
            let vs = versions@.map_values(|v: ModVersion| v@);
            let loader = instance@.loader;
            let gv = instance@.minecraft_version;
            let present = has_mod(instance@.mods, minecraft_mod@.slug);
            &&& ((p is AlreadyInstalled) <==> present)
            &&& ((p is NoMatchingVersion) <==> (!present && no_match(vs, loader, gv)))
            &&& ((p is NoPrimaryFile) ==> !present && exists|i: int|
                #[trigger] is_last_match(vs, i, loader, gv) && no_primary(vs[i].files))
            &&& (p matches InstallPlan::Download { url, filename } ==> !present && exists|i: int, f: int|
                #[trigger] is_last_match(vs, i, loader, gv) && #[trigger] is_first_primary(
                    vs[i].files,
                    f,
                ) && url@ == vs[i].files[f].url && filename@ == vs[i].files[f].filename)
        }),
{
    let ghost vs = versions@.map_values(|v: ModVersion| v@);
    if instance.installed(&minecraft_mod.slug) {
        return InstallPlan::AlreadyInstalled;
    }
    match resolve(versions, &instance.loader, &instance.minecraft_version) {
        ResolveOutcome::NoMatch => InstallPlan::NoMatchingVersion,
        ResolveOutcome::NoPrimaryFile { version } => {
            proof {
                assert(is_last_match(vs, version as int, instance@.loader, instance@.minecraft_version)
                    && no_primary(vs[version as int].files));
            }
            InstallPlan::NoPrimaryFile
        },
        ResolveOutcome::Resolved { version, file } => {
            let mod_file = &versions[version].files[file];
            let p = InstallPlan::Download {
                url: mod_file.url.clone(),
                filename: mod_file.filename.clone(),
            };
            proof {
                assert(is_last_match(vs, version as int, instance@.loader, instance@.minecraft_version)
                    && is_first_primary(vs[version as int].files, file as int));
            }
            p
        },
    }
}

/// What an uninstall run does after the manifest was loaded.
pub enum UninstallPlan {
    /// The slug is not recorded: report and change nothing.
    NotInstalled,
    /// Delete the backing artifact file, then drop the record and persist.
    Remove { index: usize, filename: String },
}

/// Decides an uninstall run from the loaded manifest.
pub fn uninstall_plan(instance: &MinecraftInstance, slug: &String) -> (p: UninstallPlan)
    ensures
        ((p is NotInstalled) <==> !has_mod(instance@.mods, slug@)),
        p matches UninstallPlan::Remove { index, filename } ==> index < instance@.mods.len()
            && instance@.mods[index as int].slug == slug@ && filename@ == instance@.mods[
            index as int].version,
{
    match instance.find_mod(slug) {
        None => UninstallPlan::NotInstalled,
        Some(index) => {
            let filename = instance.mods[index].version.clone();
            UninstallPlan::Remove { index, filename }
        },
    }
}

/// What the file system reported when the backing file was deleted.
pub enum RemoveFileOutcome {
    /// The file was deleted.
    Removed,
    /// The file was already gone; tolerated, the record is still dropped.
    NotFound,
    /// The file exists but cannot be deleted; fatal, since dropping the
    /// record anyway would desync the manifest from the disk.
    PermissionDenied,
    /// Any other failure; tolerated like a missing file.
    OtherError,
}

/// Whether uninstall proceeds to update the manifest after the removal
/// attempt: everything but a permission failure proceeds.
pub fn removal_proceeds(outcome: &RemoveFileOutcome) -> (b: bool)
    ensures
        b == !(outcome is PermissionDenied),
{
    !matches!(outcome, RemoveFileOutcome::PermissionDenied)
}

/// The conventional local path of an artifact file: inside the `mods`
/// directory, under its own filename.
pub fn mod_file_path(filename: &String) -> (r: String)
    ensures
        r@ == "mods/"@ + filename@,
{
    let mut out = String::from_str("mods/");
    out.append(filename.as_str());
    out
}

} // verus!
