//! Naming, locating and fetching the Maven artifacts that carry the
//! native libraries, and the search paths used to link against them.
//!
//! Everything here is pure path and URI arithmetic; reading directories,
//! testing for existence and performing the actual fetches is left to the
//! caller, which hands the observations back in as plain values.

use vstd::prelude::*;
use crate::strutil::{parse_i64, parse_i64_spec, push_char, starts_with, str_eq, str_starts_with};

verus! {

/// The kind of file an artifact names within its Maven directory.
#[derive(Clone, Copy, PartialEq, Eq, Debug, Structural)]
pub enum ArtifactType {
    Jar,
    JarDebug,
    JarSources,
    Javadoc,
    Headers,
    Sources,
    Shared,
    SharedDebug,
    Static,
    StaticDebug,
}

/// The file-name suffix for an artifact of the given type, where
/// `platform` is the platform string of the target.
pub open spec fn spec_suffix(t: ArtifactType, platform: Seq<char>) -> Seq<char> {
    match t {
        ArtifactType::Jar => ".jar"@,
        ArtifactType::JarDebug => "debug.jar"@,
        ArtifactType::JarSources => "sources.jar"@,
        ArtifactType::Javadoc => "javadoc.jar"@,
        ArtifactType::Headers => "headers.zip"@,
        ArtifactType::Sources => "sources.zip"@,
        ArtifactType::Shared => platform + ".zip"@,
        ArtifactType::SharedDebug => platform + "debug.zip"@,
        ArtifactType::Static => platform + "static.zip"@,
        ArtifactType::StaticDebug => platform + "staticdebug.zip"@,
    }
}

impl ArtifactType {
    /// The file-name suffix of this artifact type for the given platform
    /// string.
    pub fn suffix(&self, platform: &str) -> (r: String)
        ensures
            r@ == spec_suffix(*self, platform@),
    {
        match self {
            ArtifactType::Jar => ".jar".to_owned(),
            ArtifactType::JarDebug => "debug.jar".to_owned(),
            ArtifactType::JarSources => "sources.jar".to_owned(),
            ArtifactType::Javadoc => "javadoc.jar".to_owned(),
            ArtifactType::Headers => "headers.zip".to_owned(),
            ArtifactType::Sources => "sources.zip".to_owned(),
            ArtifactType::Shared => platform.to_owned().concat(".zip"),
            ArtifactType::SharedDebug => platform.to_owned().concat("debug.zip"),
            ArtifactType::Static => platform.to_owned().concat("static.zip"),
            ArtifactType::StaticDebug => platform.to_owned().concat("staticdebug.zip"),
        }
    }
}

/// The sequence with every dot replaced by a slash, turning a Maven group
/// id into the directory path it names.
pub open spec fn dots_to_slashes(s: Seq<char>) -> Seq<char> {
    s.map_values(|c: char| if c == '.' { '/' } else { c })
}

/// Replaces every dot with a slash.
fn replace_dots(s: &str) -> (r: String)
    ensures
        r@ == dots_to_slashes(s@),
{
    let n = s.unicode_len();
    let mut out = String::new();
    let mut i: usize = 0;
    while i < n
        invariant
            n == s@.len(),
            i <= n,
            out@ == dots_to_slashes(s@.take(i as int)),
        decreases n - i,
    {
        let c = s.get_char(i);
        if c == '.' {
            push_char(&mut out, '/');
        } else {
            push_char(&mut out, c);
        }
        proof {
            assert(out@ =~= dots_to_slashes(s@.take(i + 1)));
        }
        i += 1;
    }
    proof {
        assert(s@.take(n as int) =~= s@);
    }
    out
}

/// A coordinate in a Maven repository: the artifact's type, group,
/// name and version.
#[derive(Clone, PartialEq, Eq, Debug)]
pub struct Artifact {
    pub artifact_type: ArtifactType,
    pub group_id: String,
    pub artifact_id: String,
    pub version: String,
}

/// The URI of an artifact under a repository base: the group id with its
/// dots turned to slashes, the artifact directory and version, and the
/// file name ending in the type's suffix.
pub open spec fn artifact_uri(
    base: Seq<char>,
    group: Seq<char>,
    artifact: Seq<char>,
    version: Seq<char>,
    t: ArtifactType,
    platform: Platform,
) -> Seq<char> {
    base + "/"@ + dots_to_slashes(group) + "/"@ + artifact + "/"@ + version + "/"@ + artifact
        + "-"@ + version + "-"@ + spec_suffix(t, spec_platform_string(platform))
}

impl Artifact {
    /// Builds the artifact's URI under the given repository base, for the
    /// given platform.
    pub fn construct_uri(&self, base: &str, platform: Platform) -> (r: String)
        ensures
            r@ == artifact_uri(
                base@,
                self.group_id@,
                self.artifact_id@,
                self.version@,
                self.artifact_type,
                platform,
            ),
    {
        let mut s = base.to_owned();
        s.append("/");
        let g = replace_dots(self.group_id.as_str());
        s.append(g.as_str());
        s.append("/");
        s.append(self.artifact_id.as_str());
        s.append("/");
        s.append(self.version.as_str());
        s.append("/");
        s.append(self.artifact_id.as_str());
        s.append("-");
        s.append(self.version.as_str());
        s.append("-");
        let suf = self.artifact_type.suffix(platform.platform_string());
        s.append(suf.as_str());
        proof {
            assert(s@ =~= artifact_uri(
                base@,
                self.group_id@,
                self.artifact_id@,
                self.version@,
                self.artifact_type,
                platform,
            ));
        }
        s
    }
}

/// Error from resolving an artifact against a repository.
#[derive(Debug, Clone, Copy, PartialEq, Eq, Structural)]
pub enum NativeUtilsError {
    /// The repository URI names a scheme the fetcher does not speak.
    UnsupportedURI,
    /// The build target maps to no supported platform.
    InvalidPlatform,
}

/// A Maven repository, named by the URI of its root.
#[derive(Clone, PartialEq, Eq, Debug)]
pub struct MavenRepo(pub String);

/// How an artifact is to be obtained: fetched over HTTPS from a remote
/// repository, or read from the local file system.
#[derive(Clone, PartialEq, Eq, Debug)]
pub enum FetchRequest {
    Https(String),
    File(String),
}

impl MavenRepo {
    /// Resolves an artifact against this repository: a repository rooted
    /// at an `https://` URI is fetched over the network, one rooted at a
    /// `file:` URI is read from disk at the path after the scheme, and
    /// any other root is rejected.
    pub fn fetch_artifact(&self, artifact: &Artifact, platform: Platform) -> (r: Result<
        FetchRequest,
        NativeUtilsError,
    >)
        ensures
            starts_with(self.0@, "https://"@) ==> (r matches Ok(FetchRequest::Https(u)) && u@
                == artifact_uri(
                self.0@,
                artifact.group_id@,
                artifact.artifact_id@,
                artifact.version@,
                artifact.artifact_type,
                platform,
            )),
            !starts_with(self.0@, "https://"@) && starts_with(self.0@, "file:"@)
                ==> (r matches Ok(FetchRequest::File(u)) && u@ == artifact_uri(
                self.0@.skip(5),
                artifact.group_id@,
                artifact.artifact_id@,
                artifact.version@,
                artifact.artifact_type,
                platform,
            )),
            !starts_with(self.0@, "https://"@) && !starts_with(self.0@, "file:"@) ==> r == Err::<
                FetchRequest,
                NativeUtilsError,
            >(NativeUtilsError::UnsupportedURI),
    {
        if str_starts_with(self.0.as_str(), "https://") {
            Ok(FetchRequest::Https(artifact.construct_uri(self.0.as_str(), platform)))
        } else if str_starts_with(self.0.as_str(), "file:") {
            proof {
                reveal_strlit("file:");
            }
            let n = self.0.as_str().unicode_len();
            let rest = self.0.as_str().substring_char(5, n);
            proof {
                assert(rest@ =~= self.0@.skip(5));
            }
            Ok(FetchRequest::File(artifact.construct_uri(rest, platform)))
        } else {
            Err(NativeUtilsError::UnsupportedURI)
        }
    }
}

/// A build target the native libraries are published for.
#[derive(Copy, Clone, Eq, PartialEq, Debug, Structural)]
pub enum Platform {
    /// The roboRIO.
    LinuxAthena,
    /// 32-bit Arm coprocessors.
    LinuxArm32,
    /// 64-bit Arm coprocessors.
    LinuxArm64,
    /// Intel Linux desktops.
    LinuxX86_64,
    /// Macs, Intel and Arm alike.
    OsxUniversal,
    /// Intel Windows.
    WindowsX86_64,
    /// Arm Windows.
    WindowsArm64,
}

/// The platform string used in artifact file names.
pub open spec fn spec_platform_string(p: Platform) -> Seq<char> {
    match p {
        Platform::LinuxAthena => "linuxathena"@,
        Platform::LinuxArm32 => "linuxarm32"@,
        Platform::LinuxArm64 => "linuxarm64"@,
        Platform::LinuxX86_64 => "linuxx86-64"@,
        Platform::OsxUniversal => "osxuniversal"@,
        Platform::WindowsX86_64 => "windowsx86-64"@,
        Platform::WindowsArm64 => "windowsarm64"@,
    }
}

/// The operating-system half of the platform name.
pub open spec fn spec_operating_system(p: Platform) -> Seq<char> {
    match p {
        Platform::LinuxAthena => "linux"@,
        Platform::LinuxArm32 => "linux"@,
        Platform::LinuxArm64 => "linux"@,
        Platform::LinuxX86_64 => "linux"@,
        Platform::OsxUniversal => "osx"@,
        Platform::WindowsX86_64 => "windows"@,
        Platform::WindowsArm64 => "windows"@,
    }
}

/// The architecture half of the platform name.
pub open spec fn spec_architecture(p: Platform) -> Seq<char> {
    match p {
        Platform::LinuxAthena => "athena"@,
        Platform::LinuxArm32 => "arm32"@,
        Platform::LinuxArm64 => "arm64"@,
        Platform::LinuxX86_64 => "x86-64"@,
        Platform::OsxUniversal => "universal"@,
        Platform::WindowsX86_64 => "x86-64"@,
        Platform::WindowsArm64 => "arm64"@,
    }
}

/// The platform a Rust target triple builds for, where one is supported.
pub open spec fn spec_from_rust_target(t: Seq<char>) -> Option<Platform> {
    if t == "arm-unknown-linux-gnueabi"@ {
        Some(Platform::LinuxAthena)
    } else if t == "arm-unknown-linux-gnueabihf"@ {
        Some(Platform::LinuxArm32)
    } else if t == "aarch64-unknown-linux-gnu"@ {
        Some(Platform::LinuxArm64)
    } else if t == "x86_64-unknown-linux-gnu"@ {
        Some(Platform::LinuxX86_64)
    } else if t == "x86_64-apple-darwin"@ {
        Some(Platform::OsxUniversal)
    } else if t == "aarch64-apple-darwin"@ {
        Some(Platform::OsxUniversal)
    } else if t == "x86_64-pc-windows-msvc"@ {
        Some(Platform::WindowsX86_64)
    } else if t == "aarch64-pc-windows-msvc"@ {
        Some(Platform::WindowsArm64)
    } else {
        None
    }
}

impl Platform {
    /// The platform string used in artifact file names.
    pub fn platform_string(&self) -> (r: &'static str)
        ensures
            r@ == spec_platform_string(*self),
    {
        match self {
            Platform::LinuxAthena => "linuxathena",
            Platform::LinuxArm32 => "linuxarm32",
            Platform::LinuxArm64 => "linuxarm64",
            Platform::LinuxX86_64 => "linuxx86-64",
            Platform::OsxUniversal => "osxuniversal",
            Platform::WindowsX86_64 => "windowsx86-64",
            Platform::WindowsArm64 => "windowsarm64",
        }
    }

    /// The operating-system half of the platform name.
    pub fn operating_system(&self) -> (r: &'static str)
        ensures
            r@ == spec_operating_system(*self),
    {
        match self {
            Platform::LinuxAthena => "linux",
            Platform::LinuxArm32 => "linux",
            Platform::LinuxArm64 => "linux",
            Platform::LinuxX86_64 => "linux",
            Platform::OsxUniversal => "osx",
            Platform::WindowsX86_64 => "windows",
            Platform::WindowsArm64 => "windows",
        }
    }

    /// The architecture half of the platform name.
    pub fn architecture(&self) -> (r: &'static str)
        ensures
            r@ == spec_architecture(*self),
    {
        match self {
            Platform::LinuxAthena => "athena",
            Platform::LinuxArm32 => "arm32",
            Platform::LinuxArm64 => "arm64",
            Platform::LinuxX86_64 => "x86-64",
            Platform::OsxUniversal => "universal",
            Platform::WindowsX86_64 => "x86-64",
            Platform::WindowsArm64 => "arm64",
        }
    }

    /// The platform a Rust target triple builds for, or nothing where the
    /// triple is unsupported.
    pub fn from_rust_target(rust_target: &str) -> (r: Option<Self>)
        ensures
            r == spec_from_rust_target(rust_target@),
    {
        if str_eq(rust_target, "arm-unknown-linux-gnueabi") {
            Some(Self::LinuxAthena)
        } else if str_eq(rust_target, "arm-unknown-linux-gnueabihf") {
            Some(Self::LinuxArm32)
        } else if str_eq(rust_target, "aarch64-unknown-linux-gnu") {
            Some(Self::LinuxArm64)
        } else if str_eq(rust_target, "x86_64-unknown-linux-gnu") {
            Some(Self::LinuxX86_64)
        } else if str_eq(rust_target, "x86_64-apple-darwin") {
            Some(Self::OsxUniversal)
        } else if str_eq(rust_target, "aarch64-apple-darwin") {
            Some(Self::OsxUniversal)
        } else if str_eq(rust_target, "x86_64-pc-windows-msvc") {
            Some(Self::WindowsX86_64)
        } else if str_eq(rust_target, "aarch64-pc-windows-msvc") {
            Some(Self::WindowsArm64)
        } else {
            None
        }
    }
}

/// Which line of releases a repository serves.
#[derive(Clone, Copy, PartialEq, Eq, Debug, Structural)]
pub enum ReleaseTrain {
    Development,
    Release,
}

/// Relies on `home::home_dir`: the current user's home directory as the
/// environment or the OS reports it, or nothing where it cannot be
/// determined; rendered as a string, lossily where it is not UTF-8.
#[verifier::external_body]
fn user_home_string() -> Option<String> {
    home::home_dir().map(|p| p.to_string_lossy().into_owned())
}

/// The URI of the per-user local Maven repository under a home directory.
pub open spec fn local_maven_uri(home: Seq<char>, release_train: ReleaseTrain) -> Seq<char> {
    "file:"@ + home + (match release_train {
        ReleaseTrain::Development => "/releases/maven/development"@,
        ReleaseTrain::Release => "/releases/maven/release"@,
    })
}

/// The per-user local Maven repository under the given home directory.
pub fn local_maven_for_home(home: &str, release_train: ReleaseTrain) -> (r: MavenRepo)
    ensures
        r.0@ == local_maven_uri(home@, release_train),
{
    let mut s = "file:".to_owned();
    s.append(home);
    match release_train {
        ReleaseTrain::Development => s.append("/releases/maven/development"),
        ReleaseTrain::Release => s.append("/releases/maven/release"),
    }
    MavenRepo(s)
}

/// The per-user local Maven repository, under the home directory the
/// environment reports; an undetermined home directory reads as empty.
pub fn get_local_maven(release_train: ReleaseTrain) -> (r: MavenRepo)
    ensures
        exists|home: Seq<char>| r.0@ == local_maven_uri(home, release_train),
{
    let home = match user_home_string() {
        Some(h) => h,
        None => String::new(),
    };
    let r = local_maven_for_home(home.as_str(), release_train);
    proof {
        assert(r.0@ == local_maven_uri(home@, release_train));
    }
    r
}

/// The remote Maven repository serving the given release train.
pub fn get_remote_maven(release_train: ReleaseTrain) -> (r: MavenRepo)
    ensures
        release_train is Development ==> r.0@
            == "https://frcmaven.wpi.edu/artifactory/development"@,
        release_train is Release ==> r.0@ == "https://frcmaven.wpi.edu/artifactory/release"@,
{
    match release_train {
        ReleaseTrain::Development => MavenRepo(
            "https://frcmaven.wpi.edu/artifactory/development".to_owned(),
        ),
        ReleaseTrain::Release => MavenRepo(
            "https://frcmaven.wpi.edu/artifactory/release".to_owned(),
        ),
    }
}

/// The per-user tool directory for a season's year under a home
/// directory.
pub open spec fn wpilib_root_path(home: Seq<char>, year: Seq<char>) -> Seq<char> {
    home + "/wpilib/"@ + year
}

/// The per-user tool directory for a season's year, under the given home
/// directory.
pub fn wpilib_root_for_home(home: &str, year: &str) -> (r: String)
    ensures
        r@ == wpilib_root_path(home@, year@),
{
    let mut s = home.to_owned();
    s.append("/wpilib/");
    s.append(year);
    s
}

/// The per-user tool directory for a season's year, under the home
/// directory the environment reports; an undetermined home directory
/// reads as empty.
pub fn get_wpilib_root(year: &str) -> (r: String)
    ensures
        exists|home: Seq<char>| r@ == wpilib_root_path(home, year@),
{
    let home = match user_home_string() {
        Some(h) => h,
        None => String::new(),
    };
    let r = wpilib_root_for_home(home.as_str(), year);
    proof {
        assert(r@ == wpilib_root_path(home@, year@));
    }
    r
}

/// The URI of the Maven repository a season's tool installation carries.
pub open spec fn wpilib_maven_uri(home: Seq<char>, year: Seq<char>) -> Seq<char> {
    "file:/"@ + wpilib_root_path(home, year) + "/maven"@
}

/// The Maven repository of the season's tool installation under the given
/// home directory.
pub fn wpilib_maven_for_home(home: &str, year: &str) -> (r: MavenRepo)
    ensures
        r.0@ == wpilib_maven_uri(home@, year@),
{
    let mut s = "file:/".to_owned();
    let root = wpilib_root_for_home(home, year);
    s.append(root.as_str());
    s.append("/maven");
    proof {
        assert(s@ =~= wpilib_maven_uri(home@, year@));
    }
    MavenRepo(s)
}

/// The Maven repository of the season's tool installation, under the home
/// directory the environment reports; an undetermined home directory
/// reads as empty.
pub fn get_wpilib_maven(year: &str) -> (r: MavenRepo)
    ensures
        exists|home: Seq<char>| r.0@ == wpilib_maven_uri(home, year@),
{
    let home = match user_home_string() {
        Some(h) => h,
        None => String::new(),
    };
    let r = wpilib_maven_for_home(home.as_str(), year);
    proof {
        assert(r.0@ == wpilib_maven_uri(home@, year@));
    }
    r
}

/// The directory the native libraries of a build flavor are unpacked
/// under: the build type, the operating system, the architecture, and the
/// linkage.
pub open spec fn lib_search_path_spec(
    dir: Seq<char>,
    platform: Platform,
    shared: bool,
    debug: bool,
) -> Seq<char> {
    dir + (if debug {
        "/debug"@
    } else {
        "/release"@
    }) + "/"@ + spec_operating_system(platform) + "/"@ + spec_architecture(platform) + (if shared {
        "/shared"@
    } else {
        "/static"@
    })
}

/// The library search path for a build flavor under an unpacked artifact
/// directory.
pub fn lib_search_path(dir: &str, platform: Platform, shared: bool, debug: bool) -> (r: String)
    ensures
        r@ == lib_search_path_spec(dir@, platform, shared, debug),
{
    let mut s = dir.to_owned();
    if debug {
        s.append("/debug");
    } else {
        s.append("/release");
    }
    s.append("/");
    s.append(platform.operating_system());
    s.append("/");
    s.append(platform.architecture());
    if shared {
        s.append("/shared");
    } else {
        s.append("/static");
    }
    proof {
        assert(s@ =~= lib_search_path_spec(dir@, platform, shared, debug));
    }
    s
}

/// The directory the artifact's headers are unpacked under.
pub fn header_search_path(dir: &str) -> (r: String)
    ensures
        r@ == dir@ + "/headers"@,
{
    let mut s = dir.to_owned();
    s.append("/headers");
    s
}

/// Renders a canonicalized path for downstream tooling: Windows
/// canonicalization prefixes the path with a verbatim marker that breaks
/// such tooling, so a leading `\\?\` is stripped; any other path passes
/// through unchanged.
pub fn stringify_path(canonical: &str) -> (r: String)
    ensures
        starts_with(canonical@, "\\\\?\\"@) ==> r@ == canonical@.skip(4),
        !starts_with(canonical@, "\\\\?\\"@) ==> r@ == canonical@,
{
    if str_starts_with(canonical, "\\\\?\\") {
        proof {
            reveal_strlit("\\\\?\\");
        }
        let n = canonical.unicode_len();
        let rest = canonical.substring_char(4, n);
        proof {
            assert(rest@ =~= canonical@.skip(4));
        }
        rest.to_owned()
    } else {
        canonical.to_owned()
    }
}

/// Whether the fold behind `latest_name` moves from its current pick to a
/// newcomer: it does unless the current pick reads as a number and the
/// newcomer reads as a smaller one, or as none at all.
pub open spec fn prefers(cur: Seq<char>, next: Seq<char>) -> bool {
    parse_i64_spec(cur) is None || (parse_i64_spec(next) is Some && parse_i64_spec(next).unwrap()
        >= parse_i64_spec(cur).unwrap())
}

/// The entry a numeric-maximum scan of the names settles on: the last
/// name carrying the greatest number, or, where no name reads as a
/// number, the last name of all.
pub open spec fn latest_name(vs: Seq<Seq<char>>) -> Option<Seq<char>>
    decreases vs.len(),
{
    if vs.len() == 0 {
        None
    } else if vs.len() == 1 {
        Some(vs[0])
    } else {
        let prev = latest_name(vs.drop_last()).unwrap();
        if prefers(prev, vs.last()) {
            Some(vs.last())
        } else {
            Some(prev)
        }
    }
}

/// The views of a list of names.
pub open spec fn name_views(entries: Seq<String>) -> Seq<Seq<char>> {
    entries.map_values(|e: String| e@)
}

/// Picks the directory entry naming the newest compiler version: the
/// entries are compared as decimal numbers, names that read as none
/// losing to names that do, and the last of the greatest winning.
pub fn latest_gcc_version(entries: &Vec<String>) -> (r: Option<String>)
    ensures
        r is Some <==> entries@.len() > 0,
        r matches Some(s) ==> s@ == latest_name(name_views(entries@)).unwrap(),
{
    let ghost vs = name_views(entries@);
    let n = entries.len();
    proof {
        assert(vs.len() == n);
    }
    if n == 0 {
        return None;
    }
    let mut best: String = entries[0].clone();
    let mut k: usize = 1;
    proof {
        assert(vs.take(1) =~= seq![vs[0]]);
        assert(latest_name(vs.take(1)) == Some(vs[0]));
    }
    while k < n
        invariant
            n == entries@.len(),
            vs == name_views(entries@),
            vs.len() == n,
            1 <= k <= n,
            latest_name(vs.take(k as int)) == Some(best@),
        decreases n - k,
    {
        let cand = &entries[k];
        proof {
            assert(vs[k as int] == entries@[k as int]@);
        }
        let move_on = match parse_i64(best.as_str()) {
            None => true,
            Some(vb) => match parse_i64(cand.as_str()) {
                Some(vc) => vc >= vb,
                None => false,
            },
        };
        proof {
            assert(move_on == prefers(best@, vs[k as int]));
            assert(vs.take(k + 1).drop_last() =~= vs.take(k as int));
            assert(vs.take(k + 1).last() == vs[k as int]);
            assert(vs.take(k + 1).len() >= 2);
        }
        if move_on {
            best = cand.clone();
        }
        k += 1;
    }
    proof {
        assert(vs.take(n as int) =~= vs);
    }
    Some(best)
}

/// A cross-compilation sysroot: the directory it is rooted at and the
/// target triple its toolchain is named by.
#[derive(Debug, PartialEq, Eq)]
pub struct Sysroot {
    path: String,
    target: String,
}

impl Sysroot {
    /// The root directory as the specification sees it.
    pub closed spec fn spec_path(&self) -> Seq<char> {
        self.path@
    }

    /// The target triple as the specification sees it.
    pub closed spec fn spec_target(&self) -> Seq<char> {
        self.target@
    }

    /// A sysroot rooted at the given directory, for the given target
    /// triple.
    pub fn new(path: &str, target: &str) -> (r: Self)
        ensures
            r.spec_path() == path@,
            r.spec_target() == target@,
    {
        Sysroot { path: path.to_owned(), target: target.to_owned() }
    }

    /// The sysroot's root directory.
    pub fn path(&self) -> (r: &str)
        ensures
            r@ == self.spec_path(),
    {
        self.path.as_str()
    }

    /// The directory the C++ headers live under, before a compiler
    /// version is chosen.
    pub fn cpp_base(&self) -> (r: String)
        ensures
            r@ == self.spec_path() + "/usr/include/c++"@,
    {
        let mut s = self.path.clone();
        s.append("/usr/include/c++");
        s
    }

    /// The C++ header directory of the newest compiler version among the
    /// given entries of the sysroot's `usr/include/c++` directory.
    pub fn cpp_include(&self, entries: &Vec<String>) -> (r: Option<String>)
        ensures
            r is Some <==> entries@.len() > 0,
            r matches Some(p) ==> p@ == self.spec_path() + "/usr/include/c++/"@ + latest_name(
                name_views(entries@),
            ).unwrap(),
    {
        match latest_gcc_version(entries) {
            None => None,
            Some(v) => {
                let mut s = self.path.clone();
                s.append("/usr/include/c++/");
                s.append(v.as_str());
                proof {
                    assert(s@ =~= self.spec_path() + "/usr/include/c++/"@ + latest_name(
                        name_views(entries@),
                    ).unwrap());
                }
                Some(s)
            },
        }
    }

    /// The target-specific `bits` header directory under the chosen C++
    /// header directory. Only some sysroots carry one: the caller must
    /// check that the directory exists before using it.
    pub fn cpp_bits_include(&self, entries: &Vec<String>) -> (r: Option<String>)
        ensures
            r is Some <==> entries@.len() > 0,
            r matches Some(p) ==> p@ == self.spec_path() + "/usr/include/c++/"@ + latest_name(
                name_views(entries@),
            ).unwrap() + "/"@ + self.spec_target(),
    {
        match self.cpp_include(entries) {
            None => None,
            Some(base) => {
                let mut s = base;
                s.append("/");
                s.append(self.target.as_str());
                Some(s)
            },
        }
    }
}

/// The sysroot candidates for a platform, in the order they are to be
/// tried: the caller takes the first whose root directory exists on
/// disk. The roboRIO looks first at the system location and then inside
/// the season's per-user tool directory; the other Linux cross targets
/// have a system location only; native builds need none.
pub fn locate_sysroot(platform: Platform, year: &str) -> (r: Vec<Sysroot>)
    ensures
        platform is LinuxAthena ==> r@.len() == 2 && r@[0].spec_path()
            == "/usr/local/arm-nilrt-linux-gnueabi/sysroot"@ && r@[0].spec_target()
            == "arm-nilrt-linux-gnueabi"@ && (exists|home: Seq<char>|
            r@[1].spec_path() == wpilib_root_path(home, year@)
                + "/roborio/arm-nilrt-linux-gnueabi/sysroot"@) && r@[1].spec_target()
            == "arm-nilrt-linux-gnueabi"@,
        platform is LinuxArm32 ==> r@.len() == 1 && r@[0].spec_path()
            == "/usr/local/arm-linux-gnueabihf/sysroot"@ && r@[0].spec_target()
            == "arm-linux-gnueabihf"@,
        platform is LinuxArm64 ==> r@.len() == 1 && r@[0].spec_path()
            == "/usr/local/aarch64-linux-gnu/sysroot"@ && r@[0].spec_target()
            == "aarch64-linux-gnu"@,
        !(platform is LinuxAthena) && !(platform is LinuxArm32) && !(platform is LinuxArm64)
            ==> r@.len() == 0,
{
    let mut out: Vec<Sysroot> = Vec::new();
    match platform {
        Platform::LinuxAthena => {
            out.push(
                Sysroot::new("/usr/local/arm-nilrt-linux-gnueabi/sysroot", "arm-nilrt-linux-gnueabi"),
            );
            let root = get_wpilib_root(year);
            let ghost rootv = root@;
            let mut user_path = root;
            user_path.append("/roborio/arm-nilrt-linux-gnueabi/sysroot");
            out.push(Sysroot::new(user_path.as_str(), "arm-nilrt-linux-gnueabi"));
            proof {
                let home = choose|home: Seq<char>| rootv == wpilib_root_path(home, year@);
                assert(out@[1].spec_path() == wpilib_root_path(home, year@)
                    + "/roborio/arm-nilrt-linux-gnueabi/sysroot"@);
            }
        },
        Platform::LinuxArm32 => {
            out.push(Sysroot::new("/usr/local/arm-linux-gnueabihf/sysroot", "arm-linux-gnueabihf"));
        },
        Platform::LinuxArm64 => {
            out.push(Sysroot::new("/usr/local/aarch64-linux-gnu/sysroot", "aarch64-linux-gnu"));
        },
        _ => {},
    }
    out
}

} // verus!
