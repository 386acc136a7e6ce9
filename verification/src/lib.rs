//! Verified core logic of the pkgforge AppImage builder and the soar package manager.

pub mod elf;
pub mod appimage;
pub mod config;
pub mod desktop;
pub mod dwarfs;
pub mod error;
pub mod log;
pub mod text;
pub mod uruntime;
pub mod util;
pub mod soar_error;
pub mod url_handler;
pub mod soar_config;
pub mod remote;
pub mod asset_name;
pub mod url_package;
pub mod release_source;
pub mod package;
pub mod models;
pub mod sandbox;
pub mod cli;
pub mod soar_db;
pub mod install;
pub mod commands;
