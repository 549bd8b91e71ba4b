use conan::{
    BuildCommand, BuildCommandBuilder, BuildPolicy, BuildSettings, BuildType, ConanBuildError,
    ConanInstallError, ConanPackageError, InstallCommandBuilder, PackageCommand,
    PackageCommandBuilder, ProcessEnv,
};

#[test]
fn test_default_build_command() {
    let build_command = BuildCommand::default();
    let args = build_command.args().unwrap();

    let expected = vec!["build", "."];

    assert_eq!(args, expected);
}

#[test]
fn test_custom_build_command() {
    let build_command = BuildCommandBuilder::new()
        .with_recipe_path(String::from("./recipe"))
        .with_build_path(String::from("./build"))
        .with_install_path(String::from("./install"))
        .with_package_path(String::from("./package"))
        .with_source_path(String::from("./source"))
        .should_configure(true)
        .should_build(true)
        .should_install(true)
        .build();

    let args = build_command.args().unwrap();

    let expected = vec![
        "build",
        "./recipe",
        "--build-folder",
        "./build",
        "--install-folder",
        "./install",
        "--package-folder",
        "./package",
        "--source-folder",
        "./source",
        "--configure",
        "--build",
        "--install",
    ];

    assert_eq!(args, expected);
}

#[test]
fn test_install_builder() {
    let build_settings = BuildSettings::new().build_type(BuildType::Release);
    let command = InstallCommandBuilder::new()
        .with_profile("linux-x86_64")
        .build_settings(build_settings)
        .build_policy(BuildPolicy::Missing)
        .build();
    assert_eq!(
        command.args(&ProcessEnv::empty()).unwrap(),
        [
            "install",
            "-g",
            "json",
            "--profile:host",
            "linux-x86_64",
            "-b",
            "missing",
            "-s",
            "build_type=Release"
        ]
    );
}

#[test]
fn test_install_builder_cross() {
    let build_settings = BuildSettings::new().build_type(BuildType::Debug);
    let command = InstallCommandBuilder::new()
        .with_host_profile("windows-x86_64")
        .with_build_profile("linux-x86_64")
        .build_settings(build_settings)
        .build_policy(BuildPolicy::Always)
        .build();
    assert_eq!(
        command.args(&ProcessEnv::empty()).unwrap(),
        [
            "install",
            "-g",
            "json",
            "--profile:host",
            "windows-x86_64",
            "--profile:build",
            "linux-x86_64",
            "-b",
            "-s",
            "build_type=Debug"
        ]
    );
}

#[test]
fn test_install_builder_with_options() {
    let build_settings = BuildSettings::new().build_type(BuildType::Release);
    let command = InstallCommandBuilder::new()
        .with_profile("linux-x86_64")
        .build_settings(build_settings)
        .with_options(&["shared=True", "build_type=Release"])
        .build_policy(BuildPolicy::Missing)
        .build();
    assert_eq!(
        command.args(&ProcessEnv::empty()).unwrap(),
        [
            "install",
            "-g",
            "json",
            "--profile:host",
            "linux-x86_64",
            "-b",
            "missing",
            "-o",
            "shared=True",
            "-o",
            "build_type=Release",
            "-s",
            "build_type=Release"
        ]
    );
}

#[test]
fn test_default_args_generation() {
    let command = PackageCommandBuilder::new().build();
    let args = command.args().expect("Failed to generate args");
    assert_eq!(args, vec!["package", "."]);
}

#[test]
fn test_successful_args_generation() {
    let recipe_path = String::from("path/to/recipe");
    let build_path = String::from("path/to/build");
    let install_path = String::from("path/to/install");
    let package_path = String::from("path/to/package");
    let source_path = String::from("path/to/source");

    let command = PackageCommandBuilder::new()
        .with_recipe_path(recipe_path.clone())
        .with_build_path(build_path.clone())
        .with_install_path(install_path.clone())
        .with_package_path(package_path.clone())
        .with_source_path(source_path.clone())
        .build();

    let args = command.args().expect("Failed to generate args");

    assert_eq!(
        args,
        vec![
            "package",
            "path/to/recipe",
            "--build-folder",
            "path/to/build",
            "--install-folder",
            "path/to/install",
            "--package-folder",
            "path/to/package",
            "--source-folder",
            "path/to/source",
        ]
    );
}

#[test]
fn test_package_args_missing_recipe() {
    let command = PackageCommand::default();
    assert_eq!(command.args(), Err(ConanPackageError::MissingRecipePath));
}

#[test]
fn test_build_args_missing_recipe() {
    let command = BuildCommand {
        recipe_path: None,
        build_path: None,
        install_path: None,
        package_path: None,
        source_path: None,
        should_configure: false,
        should_build: false,
        should_install: false,
    };
    assert_eq!(command.args(), Err(ConanBuildError::MissingRecipePath));
}

#[test]
fn test_install_args_deterministic() {
    let make = || {
        InstallCommandBuilder::new()
            .with_profile("linux-x86_64")
            .with_remote("my-remote")
            .with_options(&["shared=True"])
            .recipe_path("recipe/dir")
            .update_check()
            .build()
    };
    let env = ProcessEnv {
        build_mode: Some(String::from("release")),
        out_dir: None,
        current_dir: Some(String::from("/work")),
    };
    let first = make().args(&env).unwrap();
    let second = make().args(&env).unwrap();
    assert_eq!(first, second);
}

#[test]
fn test_install_output_dir_deduplication() {
    // resolved output directory equal to the current working directory: no pair
    let command = InstallCommandBuilder::new().output_dir("/work").build();
    let env = ProcessEnv {
        build_mode: None,
        out_dir: None,
        current_dir: Some(String::from("/work")),
    };
    let args = command.args(&env).unwrap();
    assert_eq!(args, ["install", "-g", "json"]);

    // a different resolved directory: the pair carries it
    let command = InstallCommandBuilder::new().output_dir("/elsewhere").build();
    let args = command.args(&env).unwrap();
    assert_eq!(args, ["install", "-g", "json", "-if", "/elsewhere"]);

    // the external output-location signal resolves when nothing is configured
    let command = InstallCommandBuilder::new().build();
    let env = ProcessEnv {
        build_mode: None,
        out_dir: Some(String::from("/out")),
        current_dir: Some(String::from("/work")),
    };
    let args = command.args(&env).unwrap();
    assert_eq!(args, ["install", "-g", "json", "-if", "/out"]);
}

#[test]
fn test_install_args_current_dir_unknown() {
    let command = InstallCommandBuilder::new().output_dir("/elsewhere").build();
    let env = ProcessEnv {
        build_mode: None,
        out_dir: None,
        current_dir: None,
    };
    match command.args(&env) {
        Err(ConanInstallError::ConanInstallFailed(_)) => {}
        other => panic!("expected a failed-install error, got {:?}", other),
    }
}

#[test]
fn test_install_build_mode_fallback() {
    // an unset build type picks up the external build-mode signal
    let command = InstallCommandBuilder::new().build();
    let env = ProcessEnv {
        build_mode: Some(String::from("debug")),
        out_dir: None,
        current_dir: None,
    };
    let args = command.args(&env).unwrap();
    assert_eq!(args, ["install", "-g", "json", "-s", "build_type=Debug"]);

    // a configured build type wins over the signal
    let command = InstallCommandBuilder::new()
        .build_settings(BuildSettings::new().build_type(BuildType::Release))
        .build();
    let args = command.args(&env).unwrap();
    assert_eq!(args, ["install", "-g", "json", "-s", "build_type=Release"]);

    // an unrecognized signal adds nothing
    let command = InstallCommandBuilder::new().build();
    let env = ProcessEnv {
        build_mode: Some(String::from("profiling")),
        out_dir: None,
        current_dir: None,
    };
    let args = command.args(&env).unwrap();
    assert_eq!(args, ["install", "-g", "json"]);
}

#[test]
fn test_install_recipe_and_update_check() {
    let command = InstallCommandBuilder::new()
        .recipe_path("recipe/dir")
        .update_check()
        .build_policy(BuildPolicy::Outdated)
        .build();
    let args = command.args(&ProcessEnv::empty()).unwrap();
    assert_eq!(args, ["install", "-g", "json", "-u", "-b", "outdated", "recipe/dir"]);
}

#[test]
fn test_install_output_file() {
    let command = InstallCommandBuilder::new().output_dir("/tmp/deps").build();
    let file = command.output_file(&ProcessEnv::empty()).unwrap();
    assert_eq!(file, "/tmp/deps/conanbuildinfo.json");

    let command = InstallCommandBuilder::new().build();
    assert_eq!(command.output_file(&ProcessEnv::empty()), None);
}
