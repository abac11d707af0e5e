use burn_in_zh_subtitles::config::{AppConfig, StyleConfig};
use burn_in_zh_subtitles::ffmpeg::{
    collect_supported_filters, parse_subtitle_filter, parse_video_dimensions, plan,
    subtitle_filter_expression, FfmpegToolset, ManualInstallAdvice, RuntimePlatform,
    SubtitleFilter, SubtitleFilterIssue, SystemDiscoveryError, ToolOrigin, ToolStatus,
    VideoDimensions,
};
use burn_in_zh_subtitles::managed::{cache_base_dir_from_env, managed_release};

fn pairs(items: &[(&str, &str)]) -> Vec<(String, String)> {
    items.iter().map(|(k, v)| (k.to_string(), v.to_string())).collect()
}

#[test]
fn plan_requires_ffmpeg_and_ffprobe() {
    let config = AppConfig {
        video: "video.mp4".to_owned(),
        subtitle: "subtitle.ass".to_owned(),
        output: "output.mp4".to_owned(),
        overwrite_output: false,
        open_output: false,
        style: StyleConfig {
            font_name: "Test".to_owned(),
            font_dir: "/fonts".to_owned(),
            font_size: None,
            margin_v: None,
            outline_size: None,
            shadow_size: None,
        },
    };

    let plan = plan(&config);

    assert!(plan.requires_ffmpeg);
    assert!(plan.requires_ffprobe);
    assert!(plan.probe_before_render);
}

#[test]
fn parse_subtitle_filter_prefers_ass() {
    let output = " TSC ass              V->V       Render ASS subtitles\n TSC subtitles        V->V       Render text subtitles";

    assert_eq!(parse_subtitle_filter(output), Some(SubtitleFilter::Ass));
}

#[test]
fn parse_subtitle_filter_accepts_subtitles_when_ass_is_missing() {
    let output = " TSC subtitles        V->V       Render text subtitles";

    assert_eq!(parse_subtitle_filter(output), Some(SubtitleFilter::Subtitles));
}

#[test]
fn parse_subtitle_filter_returns_none_without_supported_filters() {
    let output = " .. scale            V->V       Scale video";

    assert_eq!(parse_subtitle_filter(output), None);
    assert!(collect_supported_filters(output).is_empty());
}

#[test]
fn manual_install_advice_mentions_path_and_required_filters() {
    let advice = ManualInstallAdvice::for_platform(&RuntimePlatform::WindowsX64).message;

    assert!(advice.contains("ffmpeg"));
    assert!(advice.contains("ffprobe"));
    assert!(advice.contains("ass` or `subtitles"));
    assert!(advice.contains("PATH"));
}

#[test]
fn system_discovery_error_display_includes_all_issues() {
    let error = SystemDiscoveryError {
        ffmpeg_status: ToolStatus::Missing { command: "ffmpeg".to_owned() },
        ffprobe_status: ToolStatus::Unusable {
            command: "ffprobe".to_owned(),
            path: "/usr/local/bin/ffprobe".to_owned(),
            details: "exit code 1".to_owned(),
        },
        subtitle_filter_issue: Some(SubtitleFilterIssue {
            ffmpeg_path: "/usr/local/bin/ffmpeg".to_owned(),
            available_supported_filters: Vec::new(),
        }),
    };

    let display = error.message();
    assert!(display.contains("`ffmpeg` was not found"));
    assert!(display.contains("`ffprobe` at /usr/local/bin/ffprobe could not be used"));
    assert!(display.contains("does not expose the required `ass` or `subtitles` filter"));
}

#[test]
fn runtime_platform_detect_maps_supported_matrix() {
    assert_eq!(RuntimePlatform::detect("macos", "aarch64"), RuntimePlatform::MacosArm64);
    assert_eq!(RuntimePlatform::detect("macos", "x86_64"), RuntimePlatform::MacosX64);
    assert_eq!(RuntimePlatform::detect("linux", "x86_64"), RuntimePlatform::LinuxX64);
    assert_eq!(RuntimePlatform::detect("windows", "x86_64"), RuntimePlatform::WindowsX64);
    assert_eq!(
        RuntimePlatform::detect("linux", "aarch64"),
        RuntimePlatform::Unsupported { os: "linux".to_owned(), arch: "aarch64".to_owned() }
    );
}

#[test]
fn managed_release_selection_is_explicit_about_platform_sources() {
    assert!(managed_release(&RuntimePlatform::MacosArm64)
        .expect("macOS arm64 should be supported")
        .provider
        .contains("osxexperts"));
    assert!(managed_release(&RuntimePlatform::MacosX64)
        .expect("macOS x64 should be supported")
        .provider
        .contains("evermeet"));
    assert!(managed_release(&RuntimePlatform::LinuxX64)
        .expect("linux x64 should be supported")
        .provider
        .contains("johnvansickle"));
    assert!(managed_release(&RuntimePlatform::WindowsX64)
        .expect("windows x64 should be supported")
        .provider
        .contains("gyan.dev"));
}

#[test]
fn managed_cache_dir_prefers_platform_conventions() {
    let linux_cache = cache_base_dir_from_env(
        &RuntimePlatform::LinuxX64,
        &pairs(&[("XDG_CACHE_HOME", "/cache"), ("HOME", "/home/will")]),
    )
    .expect("linux cache dir should resolve");
    assert_eq!(linux_cache, "/cache");

    let mac_cache =
        cache_base_dir_from_env(&RuntimePlatform::MacosArm64, &pairs(&[("HOME", "/Users/will")]))
            .expect("macOS cache dir should resolve");
    assert_eq!(mac_cache, "/Users/will/Library/Caches");
}

#[test]
fn parse_video_dimensions_reads_first_valid_line() {
    assert_eq!(
        parse_video_dimensions("\n1920x1080\n"),
        Some(VideoDimensions { width: 1920, height: 1080 })
    );
    assert_eq!(parse_video_dimensions("not-a-dimension"), None);
}

#[test]
fn subtitle_filter_expression_quotes_paths_for_ffmpeg() {
    let toolset = FfmpegToolset {
        ffmpeg: "/usr/local/bin/ffmpeg".to_owned(),
        ffprobe: "/usr/local/bin/ffprobe".to_owned(),
        subtitle_filter: SubtitleFilter::Ass,
        origin: ToolOrigin::System,
    };

    let filter = subtitle_filter_expression(
        &toolset,
        "/Users/will/it's.ass",
        "/Users/will/Font Folder",
    );

    assert_eq!(
        filter,
        "ass=filename='/Users/will/it\\'s.ass':fontsdir='/Users/will/Font Folder'"
    );
}
