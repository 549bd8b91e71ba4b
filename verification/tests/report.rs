use conan::{BuildInfo, BuildSettings, Json};

const OPENSSL_ROOT: &str =
    "/home/awake/.conan/data/openssl/1.1.1b-2/devolutions/stable/package/de9c231f84c85def9df09875e1785a1319fa8cb6";

fn dep_json(name: &str, version: &str, root: &str, libs: &[&str], syslibs: Option<&[&str]>) -> String {
    let libs_json = libs
        .iter()
        .map(|l| format!("\"{}\"", l))
        .collect::<Vec<_>>()
        .join(",");
    let syslibs_json = match syslibs {
        Some(sl) => {
            let inner = sl
                .iter()
                .map(|l| format!("\"{}\"", l))
                .collect::<Vec<_>>()
                .join(",");
            format!(",\"system_libs\":[{}]", inner)
        }
        None => String::new(),
    };
    format!(
        "{{\"version\":\"{version}\",\"description\":\"a library\",\"rootpath\":\"{root}\",\"sysroot\":\"\",\"include_paths\":[\"{root}/include\"],\"lib_paths\":[\"{root}/lib\"],\"bin_paths\":[],\"build_paths\":[],\"res_paths\":[],\"libs\":[{libs}]{syslibs},\"defines\":[],\"cflags\":[],\"sharedlinkflags\":[],\"exelinkflags\":[],\"name\":\"{name}\"}}",
        version = version,
        root = root,
        libs = libs_json,
        syslibs = syslibs_json,
        name = name,
    )
}

fn report_json(deps: &[String], settings: &str) -> String {
    format!("{{\"dependencies\":[{}],\"settings\":{}}}", deps.join(","), settings)
}

const FULL_SETTINGS: &str = "{\"arch\":\"x86_64\",\"arch_build\":\"x86_64\",\"build_type\":\"Release\",\"compiler\":\"gcc\",\"compiler.libcxx\":\"libstdc++\",\"compiler.version\":\"4.8\",\"os\":\"Linux\",\"os_build\":\"Linux\"}";

#[test]
fn test_conan_build_info() {
    let text = report_json(
        &[dep_json("openssl", "1.1.1b-2", OPENSSL_ROOT, &["ssl", "crypto"], None)],
        FULL_SETTINGS,
    );
    let build_info = BuildInfo::from_str(&text).unwrap();

    let openssl = build_info.get_dependency("openssl").unwrap();
    assert_eq!(openssl.get_binary_dir(), None);
    let openssl_dir = openssl.get_root_dir().unwrap();
    let openssl_lib_dir = openssl.get_library_dir().unwrap();
    let openssl_inc_dir = openssl.get_include_dir().unwrap();
    assert_eq!(openssl_dir, OPENSSL_ROOT);
    assert_eq!(openssl_lib_dir, format!("{}/lib", OPENSSL_ROOT).as_str());
    assert_eq!(openssl_inc_dir, format!("{}/include", OPENSSL_ROOT).as_str());

    let dependencies = build_info.dependencies();
    assert_eq!(dependencies.len(), 1);

    let settings = build_info.settings;
    assert_eq!(settings.arch, Some("x86_64".to_string()));
    assert_eq!(settings.arch_build, Some("x86_64".to_string()));
    assert_eq!(settings.build_type, Some("Release".to_string()));
    assert_eq!(settings.compiler, Some("gcc".to_string()));
    assert_eq!(settings.compiler_libcxx, Some("libstdc++".to_string()));
    assert_eq!(settings.compiler_version, Some("4.8".to_string()));
    assert_eq!(settings.os, Some("Linux".to_string()));
    assert_eq!(settings.os_build, Some("Linux".to_string()));

    let text = report_json(
        &[
            dep_json("curl", "7.58.0", "/data/curl", &["curl"], None),
            dep_json(
                "mbedtls",
                "2.6.1",
                "/data/mbedtls",
                &["mbedtls", "mbedcrypto", "mbedx509"],
                None,
            ),
        ],
        FULL_SETTINGS,
    );
    let build_info = BuildInfo::from_str(&text).unwrap();

    let curl = build_info.get_dependency("curl").unwrap();
    assert_eq!(curl.version, "7.58.0");

    let mbedtls = build_info.get_dependency("mbedtls").unwrap();
    assert_eq!(mbedtls.libs, ["mbedtls", "mbedcrypto", "mbedx509"]);

    let dependencies = build_info.dependencies();
    assert_eq!(dependencies.len(), 2);

    let text = report_json(
        &[
            dep_json("zlib", "1.2.11", "/data/zlib", &["zlib"], None),
            dep_json("bzip2", "1.0.6", "/data/bzip2", &["bz2"], None),
        ],
        "{\"compiler\":\"Visual Studio\"}",
    );
    let build_info = BuildInfo::from_str(&text).unwrap();

    let dependencies = build_info.dependencies();
    assert_eq!(dependencies.len(), 2);

    let settings = build_info.settings;
    assert_eq!(settings.compiler, Some("Visual Studio".to_string()));

    let text = report_json(
        &[
            dep_json("zlib", "1.2.11", "/data/zlib", &["zlib"], None),
            dep_json("bzip2", "1.0.6", "/data/bzip2", &["bz2"], None),
        ],
        "{\"compiler\":\"clang\"}",
    );
    let build_info = BuildInfo::from_str(&text).unwrap();
    let dependencies = build_info.dependencies();
    assert_eq!(dependencies.len(), 2);

    let settings = build_info.settings;
    assert_eq!(settings.compiler, Some("clang".to_string()));
}

#[test]
fn test_conan_build_info_syslibs() {
    let mut deps = Vec::new();
    for name in ["zlib", "openssl", "curl", "mbedtls", "bzip2", "expat", "pcre", "sqlite3", "lz4"] {
        deps.push(dep_json(name, "1.0", &format!("/data/{}", name), &[name], None));
    }
    deps.push(dep_json(
        "libsystemd",
        "239",
        "/data/libsystemd",
        &["systemd"],
        Some(&["rt", "pthread", "dl"]),
    ));
    let text = report_json(&deps, FULL_SETTINGS);
    let build_info = BuildInfo::from_str(&text).unwrap();
    let dependencies = build_info.dependencies();
    assert_eq!(dependencies.len(), 10);

    let libsystemd = build_info.get_dependency("libsystemd").unwrap();
    assert_eq!(libsystemd.libs, ["systemd"]);

    let system_libs = libsystemd.system_libs.as_ref().unwrap().as_slice();
    assert_eq!(system_libs, ["rt", "pthread", "dl"]);
}

#[test]
fn test_description_string_and_array_parse_alike() {
    let with_description = |desc: &str| -> String {
        format!(
            "{{\"dependencies\":[{{\"version\":\"1.0\",\"description\":{},\"rootpath\":\"/r\",\"sysroot\":\"\",\"include_paths\":[],\"lib_paths\":[],\"bin_paths\":[],\"build_paths\":[],\"res_paths\":[],\"libs\":[],\"defines\":[],\"cflags\":[],\"sharedlinkflags\":[],\"exelinkflags\":[],\"name\":\"d\"}}],\"settings\":{{}}}}",
            desc
        )
    };
    let as_string = BuildInfo::from_str(&with_description("\"ab\"")).unwrap();
    let as_array = BuildInfo::from_str(&with_description("[\"a\",\"b\"]")).unwrap();
    let d1 = &as_string.get_dependency("d").unwrap().description;
    let d2 = &as_array.get_dependency("d").unwrap().description;
    assert_eq!(d1, &Some("ab".to_string()));
    assert_eq!(d1, d2);

    let absent = BuildInfo::from_str(&with_description("null")).unwrap();
    assert_eq!(absent.get_dependency("d").unwrap().description, None);

    let empty_array = BuildInfo::from_str(&with_description("[]")).unwrap();
    assert_eq!(empty_array.get_dependency("d").unwrap().description, Some(String::new()));

    // an array holding a non-string is a malformed report
    assert!(BuildInfo::from_str(&with_description("[\"a\",3]")).is_none());
    // so is a number
    assert!(BuildInfo::from_str(&with_description("7")).is_none());
}

#[test]
fn test_find_dependency_absent() {
    let text = report_json(
        &[dep_json("curl", "7.58.0", "/data/curl", &["curl"], None)],
        "{}",
    );
    let build_info = BuildInfo::from_str(&text).unwrap();
    assert!(build_info.get_dependency("openssl").is_none());
    assert!(build_info.get_dependency("").is_none());
    assert!(build_info.get_dependency("curl").is_some());
}

#[test]
fn test_malformed_reports_are_absent() {
    // not JSON at all
    assert!(BuildInfo::from_str("not json").is_none());
    // no dependencies key
    assert!(BuildInfo::from_str("{\"settings\":{}}").is_none());
    // no settings key
    assert!(BuildInfo::from_str("{\"dependencies\":[]}").is_none());
    // dependencies of the wrong shape
    assert!(BuildInfo::from_str("{\"dependencies\":3,\"settings\":{}}").is_none());
    // a dependency missing a required field
    assert!(
        BuildInfo::from_str("{\"dependencies\":[{\"name\":\"d\"}],\"settings\":{}}").is_none()
    );
    // settings of the wrong shape
    assert!(BuildInfo::from_str("{\"dependencies\":[],\"settings\":[]}").is_none());
    // a settings field of the wrong shape
    assert!(
        BuildInfo::from_str("{\"dependencies\":[],\"settings\":{\"arch\":3}}").is_none()
    );
    // the empty report is fine
    let empty = BuildInfo::from_str("{\"dependencies\":[],\"settings\":{}}").unwrap();
    assert_eq!(empty.dependencies().len(), 0);
    assert_eq!(empty.settings.arch, None);
    // a null settings field reads as absent
    let nulled =
        BuildInfo::from_str("{\"dependencies\":[],\"settings\":{\"arch\":null}}").unwrap();
    assert_eq!(nulled.settings.arch, None);
    // unknown keys are ignored
    let extra = BuildInfo::from_str(
        "{\"dependencies\":[],\"settings\":{},\"deps_env_info\":{\"PATH\":[]}}",
    )
    .unwrap();
    assert_eq!(extra.dependencies().len(), 0);
}

#[test]
fn test_settings_from_json_value() {
    let j = Json::Obj(vec![
        ("arch".to_string(), Json::Str("armv8".to_string())),
        ("os".to_string(), Json::Null),
    ]);
    let settings = BuildSettings::from_json(&j).unwrap();
    assert_eq!(settings.arch, Some("armv8".to_string()));
    assert_eq!(settings.os, None);
    assert_eq!(settings.compiler, None);

    assert!(BuildSettings::from_json(&Json::Str("x".to_string())).is_none());
    assert!(
        BuildSettings::from_json(&Json::Obj(vec![(
            "arch".to_string(),
            Json::Bool(true)
        )]))
        .is_none()
    );
}

#[test]
fn test_cargo_emit_lines() {
    let text = report_json(
        &[dep_json(
            "libsystemd",
            "239",
            "/data/libsystemd",
            &["systemd"],
            Some(&["rt", "pthread"]),
        )],
        "{}",
    );
    let build_info = BuildInfo::from_str(&text).unwrap();
    let lines = build_info.cargo_emit_lines();
    assert_eq!(
        lines,
        [
            "cargo:rustc-link-search=native=/data/libsystemd/lib",
            "cargo:rustc-link-lib=systemd",
            "cargo:rustc-link-lib=rt",
            "cargo:rustc-link-lib=pthread",
            "cargo:include=/data/libsystemd/include",
            "cargo:rerun-if-env-changed=CONAN",
        ]
    );
}

#[test]
fn test_cargo_build_info() {
    let text = report_json(
        &[dep_json("openssl", "1.1.1b-2", OPENSSL_ROOT, &["ssl", "crypto"], None)],
        FULL_SETTINGS,
    );
    let build_info = BuildInfo::from_str(&text).unwrap();
    for line in build_info.cargo_emit_lines() {
        println!("{}", line);
    }
}

#[test]
fn test_cargo_build_info_syslibs() {
    let text = report_json(
        &[dep_json(
            "libsystemd",
            "239",
            "/data/libsystemd",
            &["systemd"],
            Some(&["rt", "pthread", "dl"]),
        )],
        FULL_SETTINGS,
    );
    let build_info = BuildInfo::from_str(&text).unwrap();
    for line in build_info.cargo_emit_lines() {
        println!("{}", line);
    }
}
