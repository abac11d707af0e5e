//! Managed ffmpeg downloads: the release of each platform, where the cache
//! lives, and the errors of an install.
//!
//! The sources are explicit on purpose:
//! - macOS x64 uses Evermeet release ZIP downloads;
//! - macOS arm64 uses osxexperts.net FFmpeg 6 ZIP downloads;
//! - Linux x64 uses johnvansickle.com static tar.xz builds;
//! - Windows x64 uses gyan.dev release-essentials ZIP builds.
use vstd::prelude::*;

use crate::config::{env_get, env_lookup};
use crate::ffmpeg::{platform_name, RuntimePlatform, RuntimePlatformKind};
use crate::paths::{join_path, path_join};
use crate::text::{chars_of, push_all, push_str, string_of};

verus! {

/// The package name under which managed tools are cached.
pub const PACKAGE_NAME: &'static str = "burn-in-zh-subtitles";

/// The package version.
pub const PACKAGE_VERSION: &'static str = "0.1.6";

/// Why a managed install failed.
#[derive(Clone, Debug)]
pub enum ManagedInstallError {
    UnsupportedPlatform { platform: RuntimePlatform },
    CacheDirectoryUnavailable { platform: RuntimePlatform, details: String },
    CacheDirectoryCreateFailed { path: String, details: String },
    StaleInstallCleanupFailed { path: String, details: String },
    DownloadFailed { provider: String, url: String, details: String },
    ExtractionFailed { provider: String, archive_name: String, details: String },
    ArchiveMemberMissing { provider: String, archive_name: String, member: String },
    MetadataWriteFailed { path: String, details: String },
    InstallFinalizeFailed { install_dir: String, details: String },
    InstalledToolsInvalid { install_dir: String, details: String },
}

/// The message of a managed install error.
pub open spec fn managed_error_message(e: ManagedInstallError) -> Seq<char> {
    match e {
        ManagedInstallError::UnsupportedPlatform { platform } =>
            "managed downloads are not implemented for "@ + platform_name(platform@),
        ManagedInstallError::CacheDirectoryUnavailable { platform, details } =>
            "could not determine a cache directory for "@ + platform_name(platform@) + ": "@
                + details@,
        ManagedInstallError::CacheDirectoryCreateFailed { path, details } =>
            "could not create cache directory "@ + path@ + ": "@ + details@,
        ManagedInstallError::StaleInstallCleanupFailed { path, details } =>
            "failed to remove stale install directory "@ + path@ + ": "@ + details@,
        ManagedInstallError::DownloadFailed { provider, url, details } =>
            "failed to download "@ + url@ + " from "@ + provider@ + ": "@ + details@,
        ManagedInstallError::ExtractionFailed { provider, archive_name, details } =>
            "failed to extract "@ + archive_name@ + " from "@ + provider@ + ": "@ + details@,
        ManagedInstallError::ArchiveMemberMissing { provider, archive_name, member } =>
            archive_name@ + " from "@ + provider@ + " did not contain "@ + member@,
        ManagedInstallError::MetadataWriteFailed { path, details } =>
            "failed to write managed install metadata into "@ + path@ + ": "@ + details@,
        ManagedInstallError::InstallFinalizeFailed { install_dir, details } =>
            "failed to finalize managed install in "@ + install_dir@ + ": "@ + details@,
        ManagedInstallError::InstalledToolsInvalid { install_dir, details } =>
            "managed install at "@ + install_dir@ + " is invalid: "@ + details@,
    }
}

impl ManagedInstallError {
    /// The message that describes the error.
    pub fn message(&self) -> (r: String)
        ensures
            r@ == managed_error_message(*self),
    {
        let mut v: Vec<char> = Vec::new();
        match self {
            ManagedInstallError::UnsupportedPlatform { platform } => {
                push_str(&mut v, "managed downloads are not implemented for ");
                push_str(&mut v, platform.name().as_str());
            },
            ManagedInstallError::CacheDirectoryUnavailable { platform, details } => {
                push_str(&mut v, "could not determine a cache directory for ");
                push_str(&mut v, platform.name().as_str());
                push_str(&mut v, ": ");
                push_str(&mut v, details.as_str());
            },
            ManagedInstallError::CacheDirectoryCreateFailed { path, details } => {
                push_str(&mut v, "could not create cache directory ");
                push_str(&mut v, path.as_str());
                push_str(&mut v, ": ");
                push_str(&mut v, details.as_str());
            },
            ManagedInstallError::StaleInstallCleanupFailed { path, details } => {
                push_str(&mut v, "failed to remove stale install directory ");
                push_str(&mut v, path.as_str());
                push_str(&mut v, ": ");
                push_str(&mut v, details.as_str());
            },
            ManagedInstallError::DownloadFailed { provider, url, details } => {
                push_str(&mut v, "failed to download ");
                push_str(&mut v, url.as_str());
                push_str(&mut v, " from ");
                push_str(&mut v, provider.as_str());
                push_str(&mut v, ": ");
                push_str(&mut v, details.as_str());
            },
            ManagedInstallError::ExtractionFailed { provider, archive_name, details } => {
                push_str(&mut v, "failed to extract ");
                push_str(&mut v, archive_name.as_str());
                push_str(&mut v, " from ");
                push_str(&mut v, provider.as_str());
                push_str(&mut v, ": ");
                push_str(&mut v, details.as_str());
            },
            ManagedInstallError::ArchiveMemberMissing { provider, archive_name, member } => {
                push_str(&mut v, archive_name.as_str());
                push_str(&mut v, " from ");
                push_str(&mut v, provider.as_str());
                push_str(&mut v, " did not contain ");
                push_str(&mut v, member.as_str());
            },
            ManagedInstallError::MetadataWriteFailed { path, details } => {
                push_str(&mut v, "failed to write managed install metadata into ");
                push_str(&mut v, path.as_str());
                push_str(&mut v, ": ");
                push_str(&mut v, details.as_str());
            },
            ManagedInstallError::InstallFinalizeFailed { install_dir, details } => {
                push_str(&mut v, "failed to finalize managed install in ");
                push_str(&mut v, install_dir.as_str());
                push_str(&mut v, ": ");
                push_str(&mut v, details.as_str());
            },
            ManagedInstallError::InstalledToolsInvalid { install_dir, details } => {
                push_str(&mut v, "managed install at ");
                push_str(&mut v, install_dir.as_str());
                push_str(&mut v, " is invalid: ");
                push_str(&mut v, details.as_str());
            },
        }
        string_of(v.as_slice())
    }
}

// ---------------------------------------------------------------------------
// Releases
// ---------------------------------------------------------------------------

/// How a downloaded archive is packed.
#[derive(Clone, Copy, Debug, PartialEq, Eq, Structural)]
pub enum ArchiveKind {
    Zip,
    TarXz,
}

/// A file taken out of an archive: the entry whose name ends in `suffix`,
/// saved as `destination_name`.
#[derive(Clone, Debug)]
pub struct ArchiveMember {
    pub suffix: String,
    pub destination_name: String,
}

/// One archive of a release.
#[derive(Clone, Debug)]
pub struct ArchiveSpec {
    pub archive_name: String,
    pub url: String,
    pub kind: ArchiveKind,
    pub members: Vec<ArchiveMember>,
}

/// Where a platform's managed ffmpeg comes from.
#[derive(Clone, Debug)]
pub struct ManagedRelease {
    pub provider: String,
    pub install_id: String,
    pub assumption: String,
    pub archives: Vec<ArchiveSpec>,
}

/// The mathematical value of an archive member.
pub struct MemberModel {
    pub suffix: Seq<char>,
    pub destination_name: Seq<char>,
}

/// The mathematical value of an archive.
pub struct ArchiveModel {
    pub archive_name: Seq<char>,
    pub url: Seq<char>,
    pub kind: ArchiveKind,
    pub members: Seq<MemberModel>,
}

/// The mathematical value of a release.
pub struct ReleaseModel {
    pub provider: Seq<char>,
    pub install_id: Seq<char>,
    pub assumption: Seq<char>,
    pub archives: Seq<ArchiveModel>,
}

impl View for ArchiveMember {
    type V = MemberModel;

    open spec fn view(&self) -> MemberModel {
        MemberModel { suffix: self.suffix@, destination_name: self.destination_name@ }
    }
}

impl View for ArchiveSpec {
    type V = ArchiveModel;

    open spec fn view(&self) -> ArchiveModel {
        ArchiveModel {
            archive_name: self.archive_name@,
            url: self.url@,
            kind: self.kind,
            members: self.members@.map_values(|m: ArchiveMember| m@),
        }
    }
}

impl View for ManagedRelease {
    type V = ReleaseModel;

    open spec fn view(&self) -> ReleaseModel {
        ReleaseModel {
            provider: self.provider@,
            install_id: self.install_id@,
            assumption: self.assumption@,
            archives: self.archives@.map_values(|a: ArchiveSpec| a@),
        }
    }
}

/// A member whose saved name is its suffix.
pub open spec fn same_name(name: Seq<char>) -> MemberModel {
    MemberModel { suffix: name, destination_name: name }
}

/// The release of each supported platform; `None` where managed downloads
/// are not implemented.
pub open spec fn release_model(p: RuntimePlatformKind) -> Option<ReleaseModel> {
    match p {
        RuntimePlatformKind::MacosX64 => Some(
            ReleaseModel {
                provider: "evermeet.cx macOS x64 release ZIPs"@,
                install_id: "evermeet-getrelease"@,
                assumption: "Evermeet publishes standalone Intel macOS release ZIPs for ffmpeg and ffprobe."@,
                archives: seq![
                    ArchiveModel {
                        archive_name: "ffmpeg-macos-x64.zip"@,
                        url: "https://evermeet.cx/ffmpeg/getrelease/zip"@,
                        kind: ArchiveKind::Zip,
                        members: seq![same_name("ffmpeg"@)],
                    },
                    ArchiveModel {
                        archive_name: "ffprobe-macos-x64.zip"@,
                        url: "https://evermeet.cx/ffmpeg/getrelease/ffprobe/zip"@,
                        kind: ArchiveKind::Zip,
                        members: seq![same_name("ffprobe"@)],
                    },
                ],
            },
        ),
        RuntimePlatformKind::MacosArm64 => Some(
            ReleaseModel {
                provider: "osxexperts.net macOS arm64 FFmpeg 6 ZIPs"@,
                install_id: "osxexperts-ffmpeg6arm"@,
                assumption: "osxexperts.net exposes Apple Silicon ZIPs at ffmpeg6arm.zip and ffprobe6arm.zip."@,
                archives: seq![
                    ArchiveModel {
                        archive_name: "ffmpeg-macos-arm64.zip"@,
                        url: "https://www.osxexperts.net/ffmpeg6arm.zip"@,
                        kind: ArchiveKind::Zip,
                        members: seq![same_name("ffmpeg"@)],
                    },
                    ArchiveModel {
                        archive_name: "ffprobe-macos-arm64.zip"@,
                        url: "https://www.osxexperts.net/ffprobe6arm.zip"@,
                        kind: ArchiveKind::Zip,
                        members: seq![same_name("ffprobe"@)],
                    },
                ],
            },
        ),
        RuntimePlatformKind::LinuxX64 => Some(
            ReleaseModel {
                provider: "johnvansickle.com Linux x64 static tar.xz"@,
                install_id: "johnvansickle-release-amd64-static"@,
                assumption: "johnvansickle.com publishes a static amd64 tar.xz that contains ffmpeg and ffprobe."@,
                archives: seq![
                    ArchiveModel {
                        archive_name: "ffmpeg-linux-x64.tar.xz"@,
                        url: "https://johnvansickle.com/ffmpeg/releases/ffmpeg-release-amd64-static.tar.xz"@,
                        kind: ArchiveKind::TarXz,
                        members: seq![same_name("ffmpeg"@), same_name("ffprobe"@)],
                    },
                ],
            },
        ),
        RuntimePlatformKind::WindowsX64 => Some(
            ReleaseModel {
                provider: "gyan.dev Windows x64 release-essentials ZIP"@,
                install_id: "gyan-release-essentials"@,
                assumption: "gyan.dev publishes a Windows release-essentials ZIP that contains ffmpeg.exe and ffprobe.exe under bin/."@,
                archives: seq![
                    ArchiveModel {
                        archive_name: "ffmpeg-windows-x64.zip"@,
                        url: "https://www.gyan.dev/ffmpeg/builds/ffmpeg-release-essentials.zip"@,
                        kind: ArchiveKind::Zip,
                        members: seq![
                            MemberModel {
                                suffix: "bin/ffmpeg.exe"@,
                                destination_name: "ffmpeg.exe"@,
                            },
                            MemberModel {
                                suffix: "bin/ffprobe.exe"@,
                                destination_name: "ffprobe.exe"@,
                            },
                        ],
                    },
                ],
            },
        ),
        RuntimePlatformKind::Unsupported { .. } => None,
    }
}

fn one<T>(a: T) -> (r: Vec<T>)
    ensures
        r@ == seq![a],
{
    let mut v = Vec::new();
    v.push(a);
    v
}

fn two<T>(a: T, b: T) -> (r: Vec<T>)
    ensures
        r@ == seq![a, b],
{
    let mut v = Vec::new();
    v.push(a);
    v.push(b);
    v
}

fn member(suffix: &str, destination_name: &str) -> (r: ArchiveMember)
    ensures
        r@ == (MemberModel { suffix: suffix@, destination_name: destination_name@ }),
        r.suffix@ == suffix@,
        r.destination_name@ == destination_name@,
{
    ArchiveMember { suffix: suffix.to_owned(), destination_name: destination_name.to_owned() }
}

fn archive(archive_name: &str, url: &str, kind: ArchiveKind, members: Vec<ArchiveMember>) -> (r:
    ArchiveSpec)
    ensures
        r@ == (ArchiveModel {
            archive_name: archive_name@,
            url: url@,
            kind,
            members: members@.map_values(|m: ArchiveMember| m@),
        }),
        r.archive_name@ == archive_name@,
        r.url@ == url@,
        r.kind == kind,
        r.members@ == members@,
{
    ArchiveSpec { archive_name: archive_name.to_owned(), url: url.to_owned(), kind, members }
}

fn release(provider: &str, install_id: &str, assumption: &str, archives: Vec<ArchiveSpec>) -> (r:
    ManagedRelease)
    ensures
        r@ == (ReleaseModel {
            provider: provider@,
            install_id: install_id@,
            assumption: assumption@,
            archives: archives@.map_values(|a: ArchiveSpec| a@),
        }),
        r.archives@ == archives@,
{
    ManagedRelease {
        provider: provider.to_owned(),
        install_id: install_id.to_owned(),
        assumption: assumption.to_owned(),
        archives,
    }
}

proof fn lemma_release_views(r: ManagedRelease, p: RuntimePlatformKind)
    requires
        release_model(p) is Some,
        r@.provider == release_model(p)->0.provider,
        r@.install_id == release_model(p)->0.install_id,
        r@.assumption == release_model(p)->0.assumption,
        r.archives@.len() == release_model(p)->0.archives.len(),
        forall|i: int|
            0 <= i < r.archives@.len() ==> {
                let a = #[trigger] r.archives@[i];
                let m = release_model(p)->0.archives[i];
                &&& a.archive_name@ == m.archive_name
                &&& a.url@ == m.url
                &&& a.kind == m.kind
                &&& a.members@.len() == m.members.len()
                &&& forall|j: int|
                    0 <= j < a.members@.len() ==> (#[trigger] a.members@[j])@ == m.members[j]
            },
    ensures
        r@ == release_model(p)->0,
{
    let m = release_model(p)->0;
    assert forall|i: int| 0 <= i < r.archives@.len() implies (#[trigger] r.archives@[i])@
        == m.archives[i] by {
        let a = r.archives@[i];
        assert(a@.members =~= m.archives[i].members);
    }
    assert(r@.archives =~= m.archives);
}

/// The release of the platform, or `UnsupportedPlatform` where managed
/// downloads are not implemented.
pub fn managed_release(platform: &RuntimePlatform) -> (r: Result<ManagedRelease, ManagedInstallError>)
    ensures
        match release_model(platform@) {
            Some(m) => r matches Ok(rel) && rel@ == m,
            None => r matches Err(ManagedInstallError::UnsupportedPlatform { platform: p })
                && p@ == platform@,
        },
{
    match platform {
        RuntimePlatform::MacosX64 => {
            let a = archive(
                "ffmpeg-macos-x64.zip",
                "https://evermeet.cx/ffmpeg/getrelease/zip",
                ArchiveKind::Zip,
                one(member("ffmpeg", "ffmpeg")),
            );
            let b = archive(
                "ffprobe-macos-x64.zip",
                "https://evermeet.cx/ffmpeg/getrelease/ffprobe/zip",
                ArchiveKind::Zip,
                one(member("ffprobe", "ffprobe")),
            );
            let r = release(
                "evermeet.cx macOS x64 release ZIPs",
                "evermeet-getrelease",
                "Evermeet publishes standalone Intel macOS release ZIPs for ffmpeg and ffprobe.",
                two(a, b),
            );
            proof {
                lemma_release_views(r, platform@);
            }
            Ok(r)
        },
        RuntimePlatform::MacosArm64 => {
            let a = archive(
                "ffmpeg-macos-arm64.zip",
                "https://www.osxexperts.net/ffmpeg6arm.zip",
                ArchiveKind::Zip,
                one(member("ffmpeg", "ffmpeg")),
            );
            let b = archive(
                "ffprobe-macos-arm64.zip",
                "https://www.osxexperts.net/ffprobe6arm.zip",
                ArchiveKind::Zip,
                one(member("ffprobe", "ffprobe")),
            );
            let r = release(
                "osxexperts.net macOS arm64 FFmpeg 6 ZIPs",
                "osxexperts-ffmpeg6arm",
                "osxexperts.net exposes Apple Silicon ZIPs at ffmpeg6arm.zip and ffprobe6arm.zip.",
                two(a, b),
            );
            proof {
                lemma_release_views(r, platform@);
            }
            Ok(r)
        },
        RuntimePlatform::LinuxX64 => {
            let a = archive(
                "ffmpeg-linux-x64.tar.xz",
                "https://johnvansickle.com/ffmpeg/releases/ffmpeg-release-amd64-static.tar.xz",
                ArchiveKind::TarXz,
                two(member("ffmpeg", "ffmpeg"), member("ffprobe", "ffprobe")),
            );
            let r = release(
                "johnvansickle.com Linux x64 static tar.xz",
                "johnvansickle-release-amd64-static",
                "johnvansickle.com publishes a static amd64 tar.xz that contains ffmpeg and ffprobe.",
                one(a),
            );
            proof {
                lemma_release_views(r, platform@);
            }
            Ok(r)
        },
        RuntimePlatform::WindowsX64 => {
            let a = archive(
                "ffmpeg-windows-x64.zip",
                "https://www.gyan.dev/ffmpeg/builds/ffmpeg-release-essentials.zip",
                ArchiveKind::Zip,
                two(member("bin/ffmpeg.exe", "ffmpeg.exe"), member("bin/ffprobe.exe", "ffprobe.exe")),
            );
            let r = release(
                "gyan.dev Windows x64 release-essentials ZIP",
                "gyan-release-essentials",
                "gyan.dev publishes a Windows release-essentials ZIP that contains ffmpeg.exe and ffprobe.exe under bin/.",
                one(a),
            );
            proof {
                lemma_release_views(r, platform@);
            }
            Ok(r)
        },
        RuntimePlatform::Unsupported { .. } => Err(
            ManagedInstallError::UnsupportedPlatform { platform: platform.duplicate() },
        ),
    }
}

// ---------------------------------------------------------------------------
// The cache directory
// ---------------------------------------------------------------------------

/// The home directory: `HOME`, else `USERPROFILE`.
pub open spec fn home_dir(env: Seq<(String, String)>) -> Option<Seq<char>> {
    match env_get(env, "HOME"@) {
        Some(h) => Some(h),
        None => env_get(env, "USERPROFILE"@),
    }
}

/// Where a platform keeps caches.
pub enum CacheConvention {
    /// `~/Library/Caches`
    MacCaches,
    /// `LOCALAPPDATA`, else `~/AppData/Local`
    WindowsLocalAppData,
    /// `XDG_CACHE_HOME`, else `~/.cache`
    XdgCache,
}

/// The cache convention of a platform; an unsupported platform follows its
/// operating system.
pub open spec fn cache_convention(p: RuntimePlatformKind) -> CacheConvention {
    match p {
        RuntimePlatformKind::MacosArm64 | RuntimePlatformKind::MacosX64 => CacheConvention::MacCaches,
        RuntimePlatformKind::WindowsX64 => CacheConvention::WindowsLocalAppData,
        RuntimePlatformKind::LinuxX64 => CacheConvention::XdgCache,
        RuntimePlatformKind::Unsupported { os, .. } => if os == "macos"@ {
            CacheConvention::MacCaches
        } else if os == "windows"@ {
            CacheConvention::WindowsLocalAppData
        } else {
            CacheConvention::XdgCache
        },
    }
}

/// The base cache directory of a platform under an environment, if it can
/// be determined. The XDG convention needs a home directory only when
/// `XDG_CACHE_HOME` is not set.
pub open spec fn cache_base(p: RuntimePlatformKind, env: Seq<(String, String)>) -> Option<Seq<char>> {
    let w = crate::ffmpeg::is_windows_spec(p);
    match cache_convention(p) {
        CacheConvention::MacCaches => match home_dir(env) {
            Some(h) => Some(path_join(path_join(h, "Library"@, w), "Caches"@, w)),
            None => None,
        },
        CacheConvention::WindowsLocalAppData => match env_get(env, "LOCALAPPDATA"@) {
            Some(l) => Some(l),
            None => match home_dir(env) {
                Some(h) => Some(path_join(path_join(h, "AppData"@, w), "Local"@, w)),
                None => None,
            },
        },
        CacheConvention::XdgCache => match env_get(env, "XDG_CACHE_HOME"@) {
            Some(x) => Some(x),
            None => match home_dir(env) {
                Some(h) => Some(path_join(h, ".cache"@, w)),
                None => None,
            },
        },
    }
}

/// What is missing when no base cache directory can be determined.
pub open spec fn cache_unavailable_details(p: RuntimePlatformKind) -> Seq<char> {
    match cache_convention(p) {
        CacheConvention::WindowsLocalAppData => "LOCALAPPDATA/USERPROFILE is not set"@,
        _ => "HOME/USERPROFILE is not set"@,
    }
}

fn home_of(env: &Vec<(String, String)>) -> (r: Option<Vec<char>>)
    ensures
        r matches Some(v) ==> home_dir(env@) == Some(v@),
        r is None ==> home_dir(env@) is None,
{
    match env_lookup(env, "HOME") {
        Some(h) => Some(h),
        None => env_lookup(env, "USERPROFILE"),
    }
}

fn join2(base: &[char], a: &str, b: &str, windows: bool) -> (r: String)
    ensures
        r@ == path_join(path_join(base@, a@, windows), b@, windows),
{
    let s = string_of(base);
    let first = join_path(s.as_str(), a, windows);
    join_path(first.as_str(), b, windows)
}

/// The base cache directory of the platform under the environment pairs
/// (see `cache_base`), or `CacheDirectoryUnavailable`.
pub fn cache_base_dir_from_env(platform: &RuntimePlatform, env: &Vec<(String, String)>) -> (r:
    Result<String, ManagedInstallError>)
    ensures
        match cache_base(platform@, env@) {
            Some(b) => r matches Ok(s) && s@ == b,
            None => {
                &&& r matches Err(ManagedInstallError::CacheDirectoryUnavailable { platform: p, details })
                &&& p@ == platform@
                &&& details@ == cache_unavailable_details(platform@)
            },
        },
{
    let convention: u8 = match platform {
        RuntimePlatform::MacosArm64 | RuntimePlatform::MacosX64 => 0,
        RuntimePlatform::WindowsX64 => 1,
        RuntimePlatform::LinuxX64 => 2,
        RuntimePlatform::Unsupported { os, .. } => {
            let o = chars_of(os.as_str());
            if crate::text::chars_eq_str(o.as_slice(), "macos") {
                0
            } else if crate::text::chars_eq_str(o.as_slice(), "windows") {
                1
            } else {
                2
            }
        },
    };
    assert(convention == 0 <==> cache_convention(platform@) is MacCaches);
    assert(convention == 1 <==> cache_convention(platform@) is WindowsLocalAppData);
    let home = home_of(env);
    let windows = platform.is_windows();
    if convention == 0 {
        match home {
            Some(h) => Ok(join2(h.as_slice(), "Library", "Caches", windows)),
            None => Err(
                ManagedInstallError::CacheDirectoryUnavailable {
                    platform: platform.duplicate(),
                    details: "HOME/USERPROFILE is not set".to_owned(),
                },
            ),
        }
    } else if convention == 1 {
        match env_lookup(env, "LOCALAPPDATA") {
            Some(l) => Ok(string_of(l.as_slice())),
            None => match home {
                Some(h) => Ok(join2(h.as_slice(), "AppData", "Local", windows)),
                None => Err(
                    ManagedInstallError::CacheDirectoryUnavailable {
                        platform: platform.duplicate(),
                        details: "LOCALAPPDATA/USERPROFILE is not set".to_owned(),
                    },
                ),
            },
        }
    } else {
        match env_lookup(env, "XDG_CACHE_HOME") {
            Some(x) => Ok(string_of(x.as_slice())),
            None => match home {
                Some(h) => {
                    let hs = string_of(h.as_slice());
                    Ok(join_path(hs.as_str(), ".cache", windows))
                },
                None => Err(
                    ManagedInstallError::CacheDirectoryUnavailable {
                        platform: platform.duplicate(),
                        details: "HOME/USERPROFILE is not set".to_owned(),
                    },
                ),
            },
        }
    }
}

/// The directory of managed tools under a base cache directory.
pub open spec fn tool_cache_dir(base: Seq<char>, windows: bool) -> Seq<char> {
    path_join(path_join(path_join(base, PACKAGE_NAME@, windows), "tools"@, windows), "ffmpeg"@, windows)
}

/// The directory of managed tools under `base` (see `tool_cache_dir`).
pub fn tool_cache_dir_of(base: &str, windows: bool) -> (r: String)
    ensures
        r@ == tool_cache_dir(base@, windows),
{
    let a = join_path(base, PACKAGE_NAME, windows);
    let b = join_path(a.as_str(), "tools", windows);
    join_path(b.as_str(), "ffmpeg", windows)
}

/// The directory of one release's install: per platform, per release.
pub open spec fn install_root(cache_dir: Seq<char>, p: RuntimePlatformKind, install_id: Seq<char>) -> Seq<
    char,
> {
    let w = crate::ffmpeg::is_windows_spec(p);
    path_join(path_join(cache_dir, crate::ffmpeg::cache_segment_spec(p), w), install_id, w)
}

/// The install directory of a release (see `install_root`).
pub fn install_root_of(cache_dir: &str, platform: &RuntimePlatform, release: &ManagedRelease) -> (r:
    String)
    ensures
        r@ == install_root(cache_dir@, platform@, release@.install_id),
{
    let seg = platform.cache_segment();
    let windows = platform.is_windows();
    let a = join_path(cache_dir, seg.as_str(), windows);
    join_path(a.as_str(), release.install_id.as_str(), windows)
}

/// The name of a tool's executable on a platform.
pub open spec fn executable_spec(p: RuntimePlatformKind, base: Seq<char>) -> Seq<char> {
    if crate::ffmpeg::is_windows_spec(p) {
        base + ".exe"@
    } else {
        base
    }
}

/// The path of a managed tool inside an install directory.
pub open spec fn managed_tool_path(root: Seq<char>, p: RuntimePlatformKind, tool: Seq<char>) -> Seq<
    char,
> {
    path_join(root, executable_spec(p, tool), crate::ffmpeg::is_windows_spec(p))
}

/// The path of the managed tool `tool` (see `managed_tool_path`).
pub fn managed_tool_path_of(root: &str, platform: &RuntimePlatform, tool: &str) -> (r: String)
    ensures
        r@ == managed_tool_path(root@, platform@, tool@),
{
    let name = platform.executable_name(tool);
    join_path(root, name.as_str(), platform.is_windows())
}

// ---------------------------------------------------------------------------
// Archive entries
// ---------------------------------------------------------------------------

/// `s` with each backslash turned into a slash.
pub open spec fn forward_slashes(s: Seq<char>) -> Seq<char> {
    s.map_values(|c: char| if c == '\\' { '/' } else { c })
}

/// `s` without its leading `/` characters.
pub open spec fn strip_leading_slashes(s: Seq<char>) -> Seq<char>
    decreases s.len(),
{
    if s.len() > 0 && s[0] == '/' {
        strip_leading_slashes(s.drop_first())
    } else {
        s
    }
}

/// Whether `s` ends with `t`.
pub open spec fn has_suffix(s: Seq<char>, t: Seq<char>) -> bool {
    t.len() <= s.len() && s.subrange(s.len() - t.len(), s.len() as int) == t
}

/// Whether an archive entry is the member with `suffix`: after turning
/// backslashes into slashes, the entry's name is the suffix (without
/// leading slashes) or ends with `/` and the suffix.
pub open spec fn entry_matches(entry_name: Seq<char>, suffix: Seq<char>) -> bool {
    let name = forward_slashes(entry_name);
    let wanted = strip_leading_slashes(suffix);
    name == wanted || has_suffix(name, seq!['/'] + wanted)
}

/// Whether the archive entry `entry_name` is the member with `suffix` (see
/// `entry_matches`).
pub fn archive_entry_matches(entry_name: &str, suffix: &str) -> (r: bool)
    ensures
        r == entry_matches(entry_name@, suffix@),
{
    let raw = chars_of(entry_name);
    let mut name: Vec<char> = Vec::new();
    let mut i: usize = 0;
    while i < raw.len()
        invariant
            i <= raw@.len(),
            name@ == forward_slashes(raw@.subrange(0, i as int)),
        decreases raw@.len() - i,
    {
        let c = raw[i];
        name.push(if c == '\\' { '/' } else { c });
        assert(raw@.subrange(0, i + 1) == raw@.subrange(0, i as int).push(c));
        assert(name@ =~= forward_slashes(raw@.subrange(0, i + 1)));
        i = i + 1;
    }
    assert(raw@.subrange(0, raw@.len() as int) == raw@);
    let sv = chars_of(suffix);
    assert(sv@.subrange(0, sv@.len() as int) == sv@);
    let mut k: usize = 0;
    while k < sv.len() && sv[k] == '/'
        invariant
            k <= sv@.len(),
            strip_leading_slashes(sv@) == strip_leading_slashes(sv@.subrange(k as int, sv@.len() as int)),
        decreases sv@.len() - k,
    {
        assert(sv@.subrange(k as int, sv@.len() as int).drop_first() == sv@.subrange(k + 1, sv@.len() as int));
        k = k + 1;
    }
    let wanted = crate::text::slice_to_vec(sv.as_slice(), k, sv.len());
    assert(strip_leading_slashes(wanted@) == wanted@);
    if crate::text::chars_eq(name.as_slice(), wanted.as_slice()) {
        return true;
    }
    let mut tail: Vec<char> = Vec::new();
    tail.push('/');
    push_all(&mut tail, wanted.as_slice());
    if tail.len() > name.len() {
        return false;
    }
    let start = name.len() - tail.len();
    let end_part = crate::text::slice_to_vec(name.as_slice(), start, name.len());
    crate::text::chars_eq(end_part.as_slice(), tail.as_slice())
}

/// The next move of the search of a zip archive for its members: for each
/// member in turn, the entries are read in order until one matches.
#[derive(Clone, Copy, Debug, PartialEq, Eq, Structural)]
pub enum ZipStep {
    /// Read entry `entry` and test it against member `member`.
    Read { member: usize, entry: usize },
    /// No entry matched this member.
    Missing(usize),
    /// Every member was found.
    Done,
}

/// The first move for `members` members and `entries` entries.
pub open spec fn zip_begin_spec(members: nat, entries: nat) -> ZipStep {
    if members == 0 {
        ZipStep::Done
    } else if entries == 0 {
        ZipStep::Missing(0)
    } else {
        ZipStep::Read { member: 0, entry: 0 }
    }
}

/// The first move of the search (see `zip_begin_spec`).
pub fn zip_begin(members: usize, entries: usize) -> (r: ZipStep)
    ensures
        r == zip_begin_spec(members as nat, entries as nat),
{
    if members == 0 {
        ZipStep::Done
    } else if entries == 0 {
        ZipStep::Missing(0)
    } else {
        ZipStep::Read { member: 0, entry: 0 }
    }
}

/// The move after entry `entry` was tested against member `member`: a match
/// goes on to the next member from the first entry, a miss to the next
/// entry; a member that no entry matched is missing.
pub open spec fn zip_after_entry_spec(members: nat, entries: nat, member: nat, entry: nat, matched: bool) -> ZipStep {
    if matched {
        if member + 1 >= members {
            ZipStep::Done
        } else {
            ZipStep::Read { member: (member + 1) as usize, entry: 0 }
        }
    } else if entry + 1 >= entries {
        ZipStep::Missing(member as usize)
    } else {
        ZipStep::Read { member: member as usize, entry: (entry + 1) as usize }
    }
}

/// The move after testing an entry (see `zip_after_entry_spec`).
pub fn zip_after_entry(members: usize, entries: usize, member: usize, entry: usize, matched: bool) -> (r:
    ZipStep)
    requires
        member < members,
        entry < entries,
    ensures
        r == zip_after_entry_spec(members as nat, entries as nat, member as nat, entry as nat, matched),
{
    if matched {
        if member + 1 >= members {
            ZipStep::Done
        } else {
            ZipStep::Read { member: member + 1, entry: 0 }
        }
    } else if entry + 1 >= entries {
        ZipStep::Missing(member)
    } else {
        ZipStep::Read { member, entry: entry + 1 }
    }
}

/// Which member a tar entry fills: the first member not yet found whose
/// suffix matches the entry's name.
pub open spec fn tar_member_index(found: Seq<bool>, suffixes: Seq<Seq<char>>, entry_name: Seq<char>, from: int) -> Option<int>
    decreases suffixes.len() - from,
{
    if from >= suffixes.len() || from >= found.len() {
        None
    } else if !found[from] && entry_matches(entry_name, suffixes[from]) {
        Some(from)
    } else {
        tar_member_index(found, suffixes, entry_name, from + 1)
    }
}

/// The suffixes of `members`.
pub open spec fn suffixes_of(members: Seq<ArchiveMember>) -> Seq<Seq<char>> {
    members.map_values(|m: ArchiveMember| m.suffix@)
}

/// The member that the tar entry `entry_name` fills, if any (see
/// `tar_member_index`).
pub fn tar_member_for(found: &Vec<bool>, members: &Vec<ArchiveMember>, entry_name: &str) -> (r:
    Option<usize>)
    ensures
        match tar_member_index(found@, suffixes_of(members@), entry_name@, 0) {
            Some(i) => r == Some(i as usize),
            None => r is None,
        },
{
    let ghost suffixes = suffixes_of(members@);
    let mut i: usize = 0;
    while i < members.len() && i < found.len()
        invariant
            i <= members@.len(),
            suffixes == suffixes_of(members@),
            tar_member_index(found@, suffixes, entry_name@, 0) == tar_member_index(
                found@,
                suffixes,
                entry_name@,
                i as int,
            ),
        decreases members@.len() - i,
    {
        if !found[i] && archive_entry_matches(entry_name, members[i].suffix.as_str()) {
            return Some(i);
        }
        i = i + 1;
    }
    None
}

/// The first member that was not found, if any.
pub open spec fn first_missing(found: Seq<bool>, from: int) -> Option<int>
    decreases found.len() - from,
{
    if from >= found.len() {
        None
    } else if !found[from] {
        Some(from)
    } else {
        first_missing(found, from + 1)
    }
}

/// The first member that was not found (see `first_missing`).
pub fn first_missing_member(found: &Vec<bool>) -> (r: Option<usize>)
    ensures
        match first_missing(found@, 0) {
            Some(i) => r == Some(i as usize),
            None => r is None,
        },
{
    let mut i: usize = 0;
    while i < found.len()
        invariant
            i <= found@.len(),
            first_missing(found@, 0) == first_missing(found@, i as int),
        decreases found@.len() - i,
    {
        if !found[i] {
            return Some(i);
        }
        i = i + 1;
    }
    None
}

// ---------------------------------------------------------------------------
// The metadata of an install
// ---------------------------------------------------------------------------

/// One `- URL` line per archive.
pub open spec fn url_lines(archives: Seq<ArchiveModel>) -> Seq<char>
    decreases archives.len(),
{
    if archives.len() == 0 {
        Seq::<char>::empty()
    } else {
        url_lines(archives.drop_last()) + "- "@ + archives.last().url + "\n"@
    }
}

/// The text of `SOURCE.txt` in an install: the platform, the provider, the
/// assumption about the source and the URLs of its archives.
pub open spec fn source_metadata(p: RuntimePlatformKind, release: ReleaseModel) -> Seq<char> {
    "Managed ffmpeg install for "@ + platform_name(p) + "\nProvider: "@ + release.provider
        + "\nAssumption: "@ + release.assumption + "\nURLs:\n"@ + url_lines(release.archives)
}

/// The text of `SOURCE.txt` (see `source_metadata`).
pub fn source_metadata_text(platform: &RuntimePlatform, release: &ManagedRelease) -> (r: String)
    ensures
        r@ == source_metadata(platform@, release@),
{
    let mut v = chars_of("Managed ffmpeg install for ");
    push_str(&mut v, platform.name().as_str());
    push_str(&mut v, "\nProvider: ");
    push_str(&mut v, release.provider.as_str());
    push_str(&mut v, "\nAssumption: ");
    push_str(&mut v, release.assumption.as_str());
    push_str(&mut v, "\nURLs:\n");
    let ghost head = v@;
    let ghost archives = release@.archives;
    let mut i: usize = 0;
    while i < release.archives.len()
        invariant
            i <= release.archives@.len(),
            archives == release@.archives,
            archives.len() == release.archives@.len(),
            v@ == head + url_lines(archives.take(i as int)),
        decreases release.archives@.len() - i,
    {
        push_str(&mut v, "- ");
        push_str(&mut v, release.archives[i].url.as_str());
        push_str(&mut v, "\n");
        assert(archives.take(i + 1).drop_last() == archives.take(i as int));
        assert(archives[i as int] == release.archives@[i as int]@);
        i = i + 1;
    }
    assert(archives.take(archives.len() as int) == archives);
    string_of(v.as_slice())
}

// ---------------------------------------------------------------------------
// Laws of archive members
// ---------------------------------------------------------------------------

/// A tar entry fills the first member that is not yet found and whose
/// suffix matches the entry's name, and no member when there is none.
pub proof fn lemma_tar_member_index(found: Seq<bool>, suffixes: Seq<Seq<char>>, name: Seq<char>, from: int)
    requires
        0 <= from,
    ensures
        tar_member_index(found, suffixes, name, from) matches Some(i) ==> {
            &&& from <= i < suffixes.len()
            &&& i < found.len()
            &&& !found[i]
            &&& entry_matches(name, suffixes[i])
            &&& forall|j: int| from <= j < i ==> found[j] || !entry_matches(name, #[trigger] suffixes[j])
        },
        tar_member_index(found, suffixes, name, from) is None ==> forall|j: int|
            from <= j < suffixes.len() && j < found.len() ==> found[j] || !entry_matches(
                name,
                #[trigger] suffixes[j],
            ),
    decreases suffixes.len() - from,
{
    if from < suffixes.len() && from < found.len() && !(!found[from] && entry_matches(
        name,
        suffixes[from],
    )) {
        lemma_tar_member_index(found, suffixes, name, from + 1);
    }
}

/// The member reported missing is the first one not found.
pub proof fn lemma_first_missing(found: Seq<bool>, from: int)
    requires
        0 <= from,
    ensures
        first_missing(found, from) matches Some(i) ==> from <= i < found.len() && !found[i]
            && forall|j: int| from <= j < i ==> #[trigger] found[j],
        first_missing(found, from) is None ==> forall|j: int| from <= j < found.len() ==> #[trigger] found[j],
    decreases found.len() - from,
{
    if from < found.len() && found[from] {
        lemma_first_missing(found, from + 1);
    }
}

/// The search of a zip archive reads the entries in order for each member:
/// a match moves on to the next member from the first entry, a miss to the
/// next entry, and a member is reported missing only once the last entry
/// failed to match it.
pub proof fn lemma_zip_search(members: nat, entries: nat, member: nat, entry: nat, matched: bool)
    requires
        member < members,
        entry < entries,
    ensures
        zip_after_entry_spec(members, entries, member, entry, matched) == ZipStep::Missing(
            member as usize,
        ) <==> !matched && entry + 1 == entries,
        zip_after_entry_spec(members, entries, member, entry, matched) == ZipStep::Done <==> matched
            && member + 1 == members,
        matched && member + 1 < members ==> zip_after_entry_spec(
            members,
            entries,
            member,
            entry,
            matched,
        ) == (ZipStep::Read { member: (member + 1) as usize, entry: 0 }),
        !matched && entry + 1 < entries ==> zip_after_entry_spec(
            members,
            entries,
            member,
            entry,
            matched,
        ) == (ZipStep::Read { member: member as usize, entry: (entry + 1) as usize }),
{
}

} // verus!
