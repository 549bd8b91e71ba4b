use conan::settings::read_setting;
use conan::strutil::{path_join, split_lines, trim_ws};
use conan::{
    parse_version_output, BuildSettings, BuildType, ConanPackage, Version,
};
use conan::profile::parse_profile_list;
use conan::remote::parse_remote_list;

#[test]
fn test_settings_render_and_read_back() {
    let settings = BuildSettings::new()
        .arch("x86_64".to_string())
        .build_type(BuildType::Release)
        .compiler("gcc".to_string())
        .compiler_libcxx("libstdc++".to_string())
        .os("Linux".to_string());
    let args = settings.args(None);
    assert_eq!(
        args,
        [
            "-s",
            "arch=x86_64",
            "-s",
            "build_type=Release",
            "-s",
            "compiler=gcc",
            "-s",
            "compiler.libcxx=libstdc++",
            "-s",
            "os=Linux"
        ]
    );
    // reading the pairs back by key reproduces the fields
    assert_eq!(read_setting(&args, "arch="), Some("x86_64".to_string()));
    assert_eq!(read_setting(&args, "build_type="), Some("Release".to_string()));
    assert_eq!(read_setting(&args, "compiler="), Some("gcc".to_string()));
    assert_eq!(read_setting(&args, "compiler.libcxx="), Some("libstdc++".to_string()));
    assert_eq!(read_setting(&args, "os="), Some("Linux".to_string()));
    // absent fields read back as absent
    assert_eq!(read_setting(&args, "arch_build="), None);
    assert_eq!(read_setting(&args, "compiler.version="), None);
    assert_eq!(read_setting(&args, "os_build="), None);
}

#[test]
fn test_settings_empty_renders_nothing() {
    let settings = BuildSettings::new();
    assert_eq!(settings.args(None), Vec::<String>::new());
}

#[test]
fn test_settings_args_deterministic() {
    let make = || {
        BuildSettings::new()
            .arch("x86_64".to_string())
            .os_build("Linux".to_string())
            .compiler_version("4.8".to_string())
    };
    assert_eq!(make().args(Some("release")), make().args(Some("release")));
}

#[test]
fn test_build_type_names() {
    assert_eq!(BuildType::NoneType.as_str(), "None");
    assert_eq!(BuildType::Debug.as_str(), "Debug");
    assert_eq!(BuildType::Release.as_str(), "Release");
    assert_eq!(BuildType::RelWithDebInfo.as_str(), "RelWithDebInfo");
    assert_eq!(BuildType::MinSizeRel.as_str(), "MinSizeRel");
}

#[test]
fn test_parse_version_output() {
    assert_eq!(
        parse_version_output("Conan version 1.14.3\n"),
        Some(Version { major: 1, minor: 14, micro: 3 })
    );
    assert_eq!(
        parse_version_output("Conan version 1.59.0"),
        Some(Version { major: 1, minor: 59, micro: 0 })
    );
    assert_eq!(parse_version_output("no marker here"), None);
    assert_eq!(parse_version_output("version 1.2"), None);
    assert_eq!(parse_version_output("version 1.2.x"), None);
    // a component too large for one byte fails
    assert_eq!(parse_version_output("Conan version 1.300.0"), None);
    // the triplet must reach the end of the trimmed text
    assert_eq!(parse_version_output("Conan version 1.14.3 extra"), None);
}

#[test]
fn test_parse_remote_list() {
    let text = "conan-center: https://conan.bintray.com [Verify SSL: True]\nartifactory: https://example.test/api/conan/conan-local [Verify SSL: True]\n";
    let remotes = parse_remote_list(text).unwrap();
    assert_eq!(remotes.len(), 2);
    assert_eq!(remotes[0].name, "conan-center");
    assert_eq!(remotes[0].url, "https://conan.bintray.com");
    assert_eq!(remotes[1].name, "artifactory");
    assert_eq!(remotes[1].url, "https://example.test/api/conan/conan-local");

    // a line without the listing shape fails the whole listing
    assert!(parse_remote_list("just-one-token\n").is_none());
    assert!(parse_remote_list("name: url-without-trailing-text\n").is_none());
}

#[test]
fn test_parse_profile_list() {
    let profiles = parse_profile_list("default\nclang\n");
    assert_eq!(profiles, ["default", "clang"]);
    assert_eq!(parse_profile_list(""), Vec::<String>::new());
}

#[test]
fn test_split_lines_and_trim() {
    assert_eq!(split_lines("a\r\nb\nc"), ["a", "b", "c"]);
    assert_eq!(split_lines("one\n"), ["one"]);
    assert_eq!(trim_ws("  spaced out \t\n"), "spaced out");
    assert_eq!(trim_ws("\n\t "), "");
    assert_eq!(trim_ws("bare"), "bare");
}

#[test]
fn test_path_join() {
    assert_eq!(path_join("/tmp/deps", "conanbuildinfo.json"), "/tmp/deps/conanbuildinfo.json");
    assert_eq!(path_join("./package/", "lib"), "./package/lib");
    assert_eq!(path_join("relative", "/absolute/wins"), "/absolute/wins");
    assert_eq!(path_join("", "file"), "file");
}

#[test]
fn test_cargo_libs_linkage_lines() {
    let package = ConanPackage::new("./package/".to_string());
    let files = vec![
        "libfoo.so".to_string(),
        "bar.a".to_string(),
        "README.md".to_string(),
        "libbaz.dylib".to_string(),
        "plain.lib".to_string(),
        "noextension".to_string(),
        "libonly.dll".to_string(),
        ".hidden".to_string(),
    ];
    let lines = package.cargo_libs_linkage_lines("lib", &files);
    assert_eq!(
        lines,
        [
            "cargo:rustc-link-lib=dylib=foo",
            "cargo:rustc-link-lib=static=bar",
            "cargo:rustc-link-lib=dylib=baz",
            "cargo:rustc-link-lib=static=plain",
            "cargo:rustc-link-lib=dylib=only",
            "cargo:rustc-link-search=native=./package/lib",
        ]
    );
}
