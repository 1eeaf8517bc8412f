//! Core of a package manager for game mod files: version resolution against a
//! local environment, a resumable-download model, and a persisted manifest of
//! installed mods with its own lockfile codec.

pub mod cli;
pub mod common;
pub mod download;
pub mod install;
pub mod lockfile;
pub mod minecraft;
pub mod modrinth;
pub mod strutil;
