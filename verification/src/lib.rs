//! A programmatic front-end to the Conan native-package manager.
//!
//! The crate renders strongly typed command configurations into the exact
//! argument vectors the `conan` executable expects, and turns the JSON
//! dependency report the tool writes back into typed data, together with the
//! logic that derives cargo build directives from a resolved package.

pub mod build_command;
pub mod build_dependency;
pub mod build_info;
pub mod install;
pub mod json;
pub mod package;
pub mod profile;
pub mod remote;
pub mod settings;
pub mod strutil;
pub mod version;

pub use build_command::{BuildCommand, BuildCommandBuilder, ConanBuildError};
pub use build_dependency::BuildDependency;
pub use build_info::BuildInfo;
pub use install::{BuildPolicy, ConanInstallError, InstallCommand, InstallCommandBuilder, ProcessEnv};
pub use json::Json;
pub use package::{ConanPackage, ConanPackageError, PackageCommand, PackageCommandBuilder};
pub use remote::Remote;
pub use settings::{BuildSettings, BuildType};
pub use version::{parse_version_output, Version};
