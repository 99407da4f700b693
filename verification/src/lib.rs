//! Version management for the Vyper compiler: the directory layout, the
//! registry of installed versions, the release catalog, the install pipeline
//! and the compilation cache, as verified logic over plain values.

pub mod commands;
pub mod error;
pub mod hex_string;
pub mod install;
pub mod layout;
pub mod platform;
pub mod registry;
pub mod releases;
pub mod text;
pub mod version;
pub mod vyper;

pub use error::VyperVmError;
pub use layout::{global_version_path, version_path};
pub use platform::{platform_from, Platform};
pub use registry::{
    current_version, installed_versions, remove_version, unset_global_version, use_version,
};
pub use releases::{all_releases, all_versions, artifact_url, BuildInfo, Releases};
pub use version::Version;
