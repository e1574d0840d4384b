//! Verified core of a Minecraft modpack maker.
#![allow(unused_imports)]

pub mod text;
pub mod types;
pub mod paths;
pub mod import;
pub mod archive_import;
pub mod java;
pub mod errors;
pub mod config;
pub mod output;
pub mod launch_args;
pub mod libraries;
pub mod launch;
pub mod init;
pub mod mrpack;
pub mod vfs;
pub mod commands;
pub mod organize;
pub mod deps;
pub mod manage;
pub mod mrpack_import;
pub mod update;
pub mod cache;
pub mod fuzzy;
pub mod manage_app;
pub mod organize_app;
pub mod help;
pub mod manage_view;
pub mod remove;
pub mod info;
pub mod launch_vfs;
pub mod export;
