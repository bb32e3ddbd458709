use wpihal::nativeutils::{
    get_local_maven, get_remote_maven, get_wpilib_maven, get_wpilib_root, header_search_path,
    latest_gcc_version, lib_search_path, local_maven_for_home, locate_sysroot, stringify_path,
    wpilib_maven_for_home, wpilib_root_for_home, Artifact, ArtifactType, FetchRequest, MavenRepo,
    NativeUtilsError, Platform, ReleaseTrain, Sysroot,
};

#[test]
fn suffixes_for_each_artifact_type() {
    let p = "linuxathena";
    assert_eq!(ArtifactType::Jar.suffix(p), ".jar");
    assert_eq!(ArtifactType::JarDebug.suffix(p), "debug.jar");
    assert_eq!(ArtifactType::JarSources.suffix(p), "sources.jar");
    assert_eq!(ArtifactType::Javadoc.suffix(p), "javadoc.jar");
    assert_eq!(ArtifactType::Headers.suffix(p), "headers.zip");
    assert_eq!(ArtifactType::Sources.suffix(p), "sources.zip");
    assert_eq!(ArtifactType::Shared.suffix(p), "linuxathena.zip");
    assert_eq!(ArtifactType::SharedDebug.suffix(p), "linuxathenadebug.zip");
    assert_eq!(ArtifactType::Static.suffix(p), "linuxathenastatic.zip");
    assert_eq!(ArtifactType::StaticDebug.suffix(p), "linuxathenastaticdebug.zip");
}

fn hal_artifact(t: ArtifactType) -> Artifact {
    Artifact {
        artifact_type: t,
        group_id: "edu.wpi.first.hal".to_string(),
        artifact_id: "hal-cpp".to_string(),
        version: "2025.1.1".to_string(),
    }
}

#[test]
fn uri_construction_turns_dots_into_directories() {
    let a = hal_artifact(ArtifactType::Headers);
    let uri = a.construct_uri("https://frcmaven.wpi.edu/artifactory/release", Platform::OsxUniversal);
    assert_eq!(
        uri,
        "https://frcmaven.wpi.edu/artifactory/release/edu/wpi/first/hal/hal-cpp/2025.1.1/hal-cpp-2025.1.1-headers.zip"
    );
}

#[test]
fn uri_construction_uses_platform_suffix() {
    let a = hal_artifact(ArtifactType::Shared);
    let uri = a.construct_uri("file:/tmp/maven", Platform::LinuxAthena);
    assert_eq!(
        uri,
        "file:/tmp/maven/edu/wpi/first/hal/hal-cpp/2025.1.1/hal-cpp-2025.1.1-linuxathena.zip"
    );
}

#[test]
fn fetch_artifact_dispatches_on_scheme() {
    let a = hal_artifact(ArtifactType::Headers);
    let https = MavenRepo("https://frcmaven.wpi.edu/artifactory/release".to_string());
    match https.fetch_artifact(&a, Platform::LinuxX86_64) {
        Ok(FetchRequest::Https(u)) => assert_eq!(
            u,
            "https://frcmaven.wpi.edu/artifactory/release/edu/wpi/first/hal/hal-cpp/2025.1.1/hal-cpp-2025.1.1-headers.zip"
        ),
        other => panic!("expected an https fetch, got {:?}", other),
    }
    let file = MavenRepo("file:/home/user/releases/maven/release".to_string());
    match file.fetch_artifact(&a, Platform::LinuxX86_64) {
        Ok(FetchRequest::File(u)) => {
            assert_eq!(
                u,
                "/home/user/releases/maven/release/edu/wpi/first/hal/hal-cpp/2025.1.1/hal-cpp-2025.1.1-headers.zip"
            );
        }
        other => panic!("expected a file fetch, got {:?}", other),
    }
    let bad = MavenRepo("ftp://example.invalid/maven".to_string());
    assert_eq!(
        bad.fetch_artifact(&a, Platform::LinuxX86_64),
        Err(NativeUtilsError::UnsupportedURI)
    );
}

#[test]
fn platform_names() {
    assert_eq!(Platform::LinuxAthena.platform_string(), "linuxathena");
    assert_eq!(Platform::LinuxArm32.platform_string(), "linuxarm32");
    assert_eq!(Platform::LinuxArm64.platform_string(), "linuxarm64");
    assert_eq!(Platform::LinuxX86_64.platform_string(), "linuxx86-64");
    assert_eq!(Platform::OsxUniversal.platform_string(), "osxuniversal");
    assert_eq!(Platform::WindowsX86_64.platform_string(), "windowsx86-64");
    assert_eq!(Platform::WindowsArm64.platform_string(), "windowsarm64");
    assert_eq!(Platform::LinuxAthena.operating_system(), "linux");
    assert_eq!(Platform::OsxUniversal.operating_system(), "osx");
    assert_eq!(Platform::WindowsArm64.operating_system(), "windows");
    assert_eq!(Platform::LinuxAthena.architecture(), "athena");
    assert_eq!(Platform::LinuxArm32.architecture(), "arm32");
    assert_eq!(Platform::WindowsX86_64.architecture(), "x86-64");
    assert_eq!(Platform::OsxUniversal.architecture(), "universal");
}

#[test]
fn rust_targets_map_to_platforms() {
    assert_eq!(
        Platform::from_rust_target("arm-unknown-linux-gnueabi"),
        Some(Platform::LinuxAthena)
    );
    assert_eq!(
        Platform::from_rust_target("arm-unknown-linux-gnueabihf"),
        Some(Platform::LinuxArm32)
    );
    assert_eq!(
        Platform::from_rust_target("aarch64-unknown-linux-gnu"),
        Some(Platform::LinuxArm64)
    );
    assert_eq!(
        Platform::from_rust_target("x86_64-unknown-linux-gnu"),
        Some(Platform::LinuxX86_64)
    );
    assert_eq!(
        Platform::from_rust_target("x86_64-apple-darwin"),
        Some(Platform::OsxUniversal)
    );
    assert_eq!(
        Platform::from_rust_target("aarch64-apple-darwin"),
        Some(Platform::OsxUniversal)
    );
    assert_eq!(
        Platform::from_rust_target("x86_64-pc-windows-msvc"),
        Some(Platform::WindowsX86_64)
    );
    assert_eq!(
        Platform::from_rust_target("aarch64-pc-windows-msvc"),
        Some(Platform::WindowsArm64)
    );
    assert_eq!(Platform::from_rust_target("riscv64gc-unknown-linux-gnu"), None);
}

#[test]
fn remote_maven_per_train() {
    assert_eq!(
        get_remote_maven(ReleaseTrain::Development).0,
        "https://frcmaven.wpi.edu/artifactory/development"
    );
    assert_eq!(
        get_remote_maven(ReleaseTrain::Release).0,
        "https://frcmaven.wpi.edu/artifactory/release"
    );
}

#[test]
fn local_maven_under_home() {
    assert_eq!(
        local_maven_for_home("/home/dev", ReleaseTrain::Development).0,
        "file:/home/dev/releases/maven/development"
    );
    assert_eq!(
        local_maven_for_home("/home/dev", ReleaseTrain::Release).0,
        "file:/home/dev/releases/maven/release"
    );
}

#[test]
fn local_maven_reads_the_environment() {
    let repo = get_local_maven(ReleaseTrain::Release);
    assert!(repo.0.starts_with("file:"));
    assert!(repo.0.ends_with("/releases/maven/release"));
}

#[test]
fn wpilib_paths_under_home() {
    assert_eq!(wpilib_root_for_home("/home/dev", "2025"), "/home/dev/wpilib/2025");
    assert_eq!(
        wpilib_maven_for_home("/home/dev", "2025").0,
        "file://home/dev/wpilib/2025/maven"
    );
}

#[test]
fn wpilib_maven_reads_the_environment() {
    let repo = get_wpilib_maven("2025");
    assert!(repo.0.starts_with("file:/"));
    assert!(repo.0.ends_with("/wpilib/2025/maven"));
    let root = get_wpilib_root("2025");
    assert!(root.ends_with("/wpilib/2025"));
}

#[test]
fn search_paths() {
    assert_eq!(
        lib_search_path("buildlibs", Platform::LinuxAthena, true, false),
        "buildlibs/release/linux/athena/shared"
    );
    assert_eq!(
        lib_search_path("buildlibs", Platform::WindowsX86_64, false, true),
        "buildlibs/debug/windows/x86-64/static"
    );
    assert_eq!(header_search_path("buildlibs"), "buildlibs/headers");
}

#[test]
fn stringify_path_strips_verbatim_prefix() {
    assert_eq!(stringify_path(r"\\?\C:\Users\Public\wpilib"), r"C:\Users\Public\wpilib");
    assert_eq!(stringify_path("/usr/local/lib"), "/usr/local/lib");
    assert_eq!(stringify_path(r"\\server\share"), r"\\server\share");
}

#[test]
fn latest_gcc_version_prefers_greatest_number() {
    let entries = vec!["9".to_string(), "12".to_string(), "10".to_string()];
    assert_eq!(latest_gcc_version(&entries), Some("12".to_string()));
}

#[test]
fn latest_gcc_version_tie_keeps_the_later_entry() {
    let entries = vec!["10".to_string(), "010".to_string()];
    assert_eq!(latest_gcc_version(&entries), Some("010".to_string()));
    let entries = vec!["010".to_string(), "10".to_string()];
    assert_eq!(latest_gcc_version(&entries), Some("10".to_string()));
}

#[test]
fn latest_gcc_version_numbers_beat_names() {
    let entries = vec!["backup".to_string(), "7".to_string(), "old".to_string()];
    assert_eq!(latest_gcc_version(&entries), Some("7".to_string()));
    let entries = vec!["backup".to_string(), "old".to_string()];
    assert_eq!(latest_gcc_version(&entries), Some("old".to_string()));
    assert_eq!(latest_gcc_version(&Vec::new()), None);
}

#[test]
fn sysroot_header_directories() {
    let s = Sysroot::new("/usr/local/arm-nilrt-linux-gnueabi/sysroot", "arm-nilrt-linux-gnueabi");
    assert_eq!(s.path(), "/usr/local/arm-nilrt-linux-gnueabi/sysroot");
    let entries = vec!["8".to_string(), "12".to_string()];
    assert_eq!(
        s.cpp_include(&entries),
        Some("/usr/local/arm-nilrt-linux-gnueabi/sysroot/usr/include/c++/12".to_string())
    );
    assert_eq!(
        s.cpp_bits_include(&entries),
        Some(
            "/usr/local/arm-nilrt-linux-gnueabi/sysroot/usr/include/c++/12/arm-nilrt-linux-gnueabi"
                .to_string()
        )
    );
    assert_eq!(s.cpp_include(&Vec::new()), None);
    assert_eq!(s.cpp_bits_include(&Vec::new()), None);
}

#[test]
fn sysroot_candidates_per_platform() {
    let athena = locate_sysroot(Platform::LinuxAthena, "2025");
    assert_eq!(athena.len(), 2);
    assert_eq!(athena[0].path(), "/usr/local/arm-nilrt-linux-gnueabi/sysroot");
    assert!(athena[1]
        .path()
        .ends_with("/wpilib/2025/roborio/arm-nilrt-linux-gnueabi/sysroot"));
    let arm32 = locate_sysroot(Platform::LinuxArm32, "2025");
    assert_eq!(arm32.len(), 1);
    assert_eq!(arm32[0].path(), "/usr/local/arm-linux-gnueabihf/sysroot");
    let arm64 = locate_sysroot(Platform::LinuxArm64, "2025");
    assert_eq!(arm64.len(), 1);
    assert_eq!(arm64[0].path(), "/usr/local/aarch64-linux-gnu/sysroot");
    assert!(locate_sysroot(Platform::OsxUniversal, "2025").is_empty());
    assert!(locate_sysroot(Platform::WindowsX86_64, "2025").is_empty());
}
