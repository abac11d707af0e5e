use burn_in_zh_subtitles::chars::estimate_char_width;
use burn_in_zh_subtitles::config::{default_output_path, AppConfig, Cli, ConfigError, StyleConfig};
use burn_in_zh_subtitles::managed::{zip_after_entry, zip_begin, ZipStep};
use burn_in_zh_subtitles::pipeline::{
    after_work_dir_attempt, work_dir_name, CreateDirOutcome, WorkDirFailure, WorkDirStep,
    WORK_DIR_ATTEMPTS,
};
use burn_in_zh_subtitles::ffmpeg::{
    collect_supported_filters, command_result, dimensions_from_probe, escape_filter_value,
    parse_video_dimensions, CommandOutcome, FfmpegExecutionError, ProbeError, SubtitleFilter,
};
use burn_in_zh_subtitles::managed::{
    archive_entry_matches, cache_base_dir_from_env, first_missing_member, tar_member_for,
    ArchiveMember, ManagedInstallError,
};
use burn_in_zh_subtitles::ffmpeg::RuntimePlatform;
use burn_in_zh_subtitles::paths::{directory_for, join_path, parent_of, with_extension};
use burn_in_zh_subtitles::platform::{open_result, plan, OpenError};
use burn_in_zh_subtitles::subtitle::{render_ass, resolve_layout, split_dialogue_fields, SubtitleError};
use burn_in_zh_subtitles::wrap::{wrap_ass_text, MaxUnits};
use burn_in_zh_subtitles::{run, Launch};

fn style() -> StyleConfig {
    StyleConfig {
        font_name: "LINE Seed TW_OTF Regular".to_owned(),
        font_dir: "/Library/Fonts".to_owned(),
        font_size: None,
        margin_v: None,
        outline_size: None,
        shadow_size: None,
    }
}

fn wrap(text: &str, num: u64, den: u64) -> String {
    let chars: Vec<char> = text.chars().collect();
    wrap_ass_text(&chars, MaxUnits { num, den }).into_iter().collect()
}

fn pairs(items: &[(&str, &str)]) -> Vec<(String, String)> {
    items.iter().map(|(k, v)| (k.to_string(), v.to_string())).collect()
}

#[test]
fn fitting_text_is_left_as_it_is() {
    assert_eq!(wrap("短句", 60, 1), "短句");
    assert_eq!(wrap("{\\i1}Hi there", 60, 1), "{\\i1}Hi there");
}

#[test]
fn wrapped_lines_do_not_start_with_closing_punctuation() {
    let wrapped = wrap("一二三四五，六七八九十", 5, 1);
    for line in wrapped.split("\\N") {
        assert!(!line.starts_with('，'), "line {:?} of {:?}", line, wrapped);
        assert!(!line.starts_with(' '));
    }
    assert!(wrapped.contains("\\N"));
    assert_eq!(wrapped.replace("\\N", ""), "一二三四五，六七八九十");
}

#[test]
fn wrapping_drops_only_the_spaces_at_a_break() {
    let wrapped = wrap("aaaa bbbb cccc dddd", 3, 1);
    assert!(wrapped.contains("\\N"));
    for line in wrapped.split("\\N") {
        assert!(!line.starts_with(' '));
    }
    assert_eq!(wrapped.replace("\\N", " "), "aaaa bbbb cccc dddd");
}

#[test]
fn existing_breaks_are_kept() {
    assert_eq!(wrap("上\\N下", 60, 1), "上\\N下");
}

#[test]
fn char_widths_follow_unicode_properties() {
    assert_eq!(estimate_char_width('A'), 62);
    assert_eq!(estimate_char_width('a'), 52);
    assert_eq!(estimate_char_width('α'), 68);
    assert_eq!(estimate_char_width('中'), 100);
    assert_eq!(estimate_char_width('1'), 56);
    assert_eq!(estimate_char_width(','), 45);
    assert_eq!(estimate_char_width(' '), 35);
    assert_eq!(estimate_char_width('\u{0301}'), 0);
    assert_eq!(estimate_char_width('😀'), 200);
}

#[test]
fn layout_stays_within_bounds_and_honours_overrides() {
    assert_eq!(resolve_layout(&style(), 100).font_size, 24);
    assert_eq!(resolve_layout(&style(), 10000).font_size, 140);
    let mut s = style();
    s.font_size = Some(64);
    s.margin_v = Some(48);
    s.outline_size = Some(5);
    s.shadow_size = Some(2);
    let layout = resolve_layout(&s, 1080);
    assert_eq!(
        (layout.font_size, layout.margin_v, layout.outline_size, layout.shadow_size),
        (64, 48, 5, 2)
    );
}

#[test]
fn escaping_filter_values_quotes_backslashes_and_quotes() {
    assert_eq!(escape_filter_value("a\\b'c"), "a\\\\b\\'c");
    assert_eq!(escape_filter_value("plain"), "plain");
}

#[test]
fn split_dialogue_fields_keeps_commas_of_the_text() {
    let body: Vec<char> = "0,0:00:00.00,0:00:03.00,Default,,0,0,0,,你好，世界, again".chars().collect();
    let fields = split_dialogue_fields(&body, 9);
    assert_eq!(fields.len(), 10);
    let last: String = fields[9].iter().collect();
    assert_eq!(last, "你好，世界, again");
    let joined: Vec<String> = fields.iter().map(|f| f.iter().collect()).collect();
    assert_eq!(joined.join(","), body.iter().collect::<String>());
}

#[test]
fn supported_filters_are_listed_once() {
    let output = " T ass a\n T ass b\n T subtitles c\n T subtitles d";
    assert_eq!(
        collect_supported_filters(output),
        vec![SubtitleFilter::Ass, SubtitleFilter::Subtitles]
    );
}

#[test]
fn zero_dimensions_are_rejected() {
    assert_eq!(parse_video_dimensions("0x1080"), None);
    assert_eq!(parse_video_dimensions("1920x0"), None);
    assert_eq!(parse_video_dimensions("  \n 640x360 \n"), Some(burn_in_zh_subtitles::ffmpeg::VideoDimensions { width: 640, height: 360 }));
}

#[test]
fn command_results_report_failures() {
    let failed = CommandOutcome::Exited {
        success: false,
        code: Some(1),
        stdout: String::new(),
        stderr: "  bad input \n".to_owned(),
    };
    assert_eq!(command_result(&failed), Err("exit code 1: bad input".to_owned()));
    let ok = CommandOutcome::Exited {
        success: true,
        code: Some(0),
        stdout: "out".to_owned(),
        stderr: "err".to_owned(),
    };
    assert_eq!(command_result(&ok), Ok("out\nerr".to_owned()));
    let signal = CommandOutcome::Exited { success: false, code: None, stdout: String::new(), stderr: String::new() };
    assert_eq!(command_result(&signal), Err("terminated by signal".to_owned()));
    let spawn = CommandOutcome::SpawnFailed("No such file or directory".to_owned());
    assert_eq!(command_result(&spawn), Err("failed to execute: No such file or directory".to_owned()));
}

#[test]
fn execution_errors_name_the_video() {
    match dimensions_from_probe("v.mp4", Err("exit code 1".to_owned())) {
        Err(e @ FfmpegExecutionError::ProbeDimensions { .. }) => assert_eq!(
            e.message(),
            "ffprobe failed to read video dimensions from v.mp4: exit code 1"
        ),
        _ => panic!("expected a probe error"),
    }
    match dimensions_from_probe("v.mp4", Ok(" junk \n".to_owned())) {
        Err(e @ FfmpegExecutionError::InvalidDimensions { .. }) => assert_eq!(
            e.message(),
            "ffprobe returned invalid video dimensions for v.mp4: junk"
        ),
        _ => panic!("expected invalid dimensions"),
    }
    let convert = FfmpegExecutionError::ConvertSubtitle {
        input: "a.vtt".to_owned(),
        output: "raw.ass".to_owned(),
        details: "d".to_owned(),
    };
    assert_eq!(convert.message(), "ffmpeg failed to convert subtitle a.vtt to ASS at raw.ass: d");
    let burn = FfmpegExecutionError::BurnSubtitles {
        video: "v.mp4".to_owned(),
        subtitle: "w.ass".to_owned(),
        output: "o.mp4".to_owned(),
        details: "d".to_owned(),
    };
    assert_eq!(burn.message(), "ffmpeg failed to burn subtitles from w.ass into o.mp4: d");
    assert_eq!(
        ProbeError::MissingSubtitleFilter { available_supported_filters: Vec::new() }.message(),
        "ffmpeg does not expose the `ass` or `subtitles` filter"
    );
}

#[test]
fn config_errors_and_reports() {
    let mut cli = Cli { version: false, force: false, open: false, video: None, subtitle: None, output: None };
    let e = AppConfig::from_env_map(&cli, &Vec::new()).unwrap_err();
    assert_eq!(e, ConfigError::MissingVideo);
    assert_eq!(e.message(), "video input is required unless --version is used");
    cli.video = Some("v.mp4".to_owned());
    let e = AppConfig::from_env_map(&cli, &Vec::new()).unwrap_err();
    assert_eq!(e.message(), "subtitle input is required unless --version is used");
    cli.subtitle = Some("s.vtt".to_owned());
    let e = AppConfig::from_env_map(&cli, &pairs(&[("MARGIN_V", "12x")])).unwrap_err();
    assert_eq!(e.report(), "MARGIN_V must be an unsigned integer: invalid digit found in string");
    let e = AppConfig::from_env_map(&cli, &pairs(&[("FONT_SIZE", "99999999999")])).unwrap_err();
    assert_eq!(e.report(), "FONT_SIZE must be an unsigned integer: number too large to fit in target type");
    let ok = AppConfig::from_env_map(&cli, &pairs(&[("FONT_SIZE", "1"), ("FONT_SIZE", "+30")])).unwrap();
    assert_eq!(ok.style.font_size, Some(30));
    assert_eq!(ok.output, "v.zh-tw.burned.mp4");
}

#[test]
fn subtitle_errors_report_the_line() {
    let raw = "[Events]\nDialogue: 0,0:00:00.00\n";
    let e = render_ass(raw, &style(), 640, 360).unwrap_err();
    assert!(matches!(e, SubtitleError::MalformedDialogue { .. }));
    assert!(e.message().starts_with("converted ASS contains a malformed dialogue line: "));
}

#[test]
fn managed_install_errors_read_as_sentences() {
    let e = ManagedInstallError::ArchiveMemberMissing {
        provider: "p".to_owned(),
        archive_name: "a.zip".to_owned(),
        member: "ffmpeg".to_owned(),
    };
    assert_eq!(e.message(), "a.zip from p did not contain ffmpeg");
    let e = ManagedInstallError::UnsupportedPlatform {
        platform: RuntimePlatform::Unsupported { os: "linux".to_owned(), arch: "riscv64".to_owned() },
    };
    assert_eq!(e.message(), "managed downloads are not implemented for linux/riscv64");
    let e = ManagedInstallError::DownloadFailed { provider: "p".to_owned(), url: "u".to_owned(), details: "d".to_owned() };
    assert_eq!(e.message(), "failed to download u from p: d");
    let e = ManagedInstallError::InstalledToolsInvalid { install_dir: "/i".to_owned(), details: "d".to_owned() };
    assert_eq!(e.message(), "managed install at /i is invalid: d");
}

#[test]
fn cache_dir_follows_xdg_then_home() {
    let x = cache_base_dir_from_env(&RuntimePlatform::LinuxX64, &pairs(&[("XDG_CACHE_HOME", "/cache")])).unwrap();
    assert_eq!(x, "/cache");
    let e = cache_base_dir_from_env(&RuntimePlatform::LinuxX64, &Vec::new()).unwrap_err();
    assert_eq!(e.message(), "could not determine a cache directory for Linux x64: HOME/USERPROFILE is not set");
    let w = cache_base_dir_from_env(&RuntimePlatform::WindowsX64, &pairs(&[("LOCALAPPDATA", "C:/L")])).unwrap();
    assert_eq!(w, "C:/L");
    let e = cache_base_dir_from_env(&RuntimePlatform::WindowsX64, &Vec::new()).unwrap_err();
    assert!(e.message().ends_with("LOCALAPPDATA/USERPROFILE is not set"));
    let l = cache_base_dir_from_env(&RuntimePlatform::LinuxX64, &pairs(&[("HOME", "/home/u")])).unwrap();
    assert_eq!(l, "/home/u/.cache");
}

#[test]
fn archive_entries_match_by_suffix() {
    assert!(archive_entry_matches("ffmpeg", "ffmpeg"));
    assert!(archive_entry_matches("ffmpeg-7.0-static/ffmpeg", "ffmpeg"));
    assert!(archive_entry_matches("ffmpeg-7.1-essentials\\bin\\ffmpeg.exe", "bin/ffmpeg.exe"));
    assert!(archive_entry_matches("x/bin/ffmpeg.exe", "/bin/ffmpeg.exe"));
    assert!(!archive_entry_matches("ffmpeg-7.0-static/ffmpeg.txt", "ffmpeg"));
    assert!(!archive_entry_matches("notffmpeg", "ffmpeg"));
    let members = vec![
        ArchiveMember { suffix: "ffmpeg".to_owned(), destination_name: "ffmpeg".to_owned() },
        ArchiveMember { suffix: "ffprobe".to_owned(), destination_name: "ffprobe".to_owned() },
    ];
    assert_eq!(tar_member_for(&vec![false, false], &members, "d/ffprobe"), Some(1));
    assert_eq!(tar_member_for(&vec![false, true], &members, "d/ffprobe"), None);
    assert_eq!(first_missing_member(&vec![true, false]), Some(1));
    assert_eq!(first_missing_member(&vec![true, true]), None);
}

#[test]
fn paths_join_and_split_with_slashes() {
    assert_eq!(join_path("/a", "b", false), "/a/b");
    assert_eq!(join_path("/a/", "b", false), "/a/b");
    assert_eq!(join_path("", "b", false), "b");
    assert_eq!(join_path("/a", "/b", false), "/b");
    assert_eq!(parent_of("clips/demo.mp4", false), Some("clips".to_owned()));
    assert_eq!(parent_of("demo.mp4", false), Some(String::new()));
    assert_eq!(parent_of("/demo.mp4", false), Some("/".to_owned()));
    assert_eq!(parent_of("a//b/", false), Some("a".to_owned()));
    assert_eq!(parent_of("/", false), None);
    assert_eq!(directory_for("", false), ".");
    assert_eq!(
        with_extension("/c/linux-x64/release", "installing", false),
        "/c/linux-x64/release.installing"
    );
    assert_eq!(with_extension("/c/x.tar", "installing", false), "/c/x.installing");
    assert_eq!(with_extension("/c.d/x", "installing", false), "/c.d/x.installing");
}

#[test]
fn windows_paths_use_backslashes() {
    assert_eq!(join_path("C:\\Users\\w", "AppData", true), "C:\\Users\\w\\AppData");
    assert_eq!(join_path("C:/Users/w/", "AppData", true), "C:/Users/w/AppData");
    assert_eq!(parent_of("C:\\videos\\out.mp4", true), Some("C:\\videos".to_owned()));
    assert_eq!(parent_of("C:\\videos\\out.mp4", false), Some(String::new()));
    assert_eq!(
        cache_base_dir_from_env(&RuntimePlatform::WindowsX64, &pairs(&[("USERPROFILE", "C:\\Users\\w")])).unwrap(),
        "C:\\Users\\w\\AppData\\Local"
    );
}

#[test]
fn open_failures_describe_the_opener() {
    let p = plan(true, "linux");
    let failed = CommandOutcome::Exited {
        success: false,
        code: Some(4),
        stdout: "out ".to_owned(),
        stderr: " err".to_owned(),
    };
    match open_result(&p, "o.mp4", &failed) {
        Err(e @ OpenError::Failed { .. }) => {
            assert_eq!(e.message(), "`xdg-open` failed while opening o.mp4: exit code 4: err | out")
        }
        _ => panic!("expected a failure"),
    }
    let spawn = CommandOutcome::SpawnFailed("not found".to_owned());
    match open_result(&p, "o.mp4", &spawn) {
        Err(e @ OpenError::Launch { .. }) => {
            assert_eq!(e.message(), "failed to launch `xdg-open` for o.mp4: not found")
        }
        _ => panic!("expected a launch failure"),
    }
}

#[test]
fn version_launch_prints_name_and_version() {
    let cli = Cli { version: true, force: false, open: false, video: None, subtitle: None, output: None };
    match run(&cli, Vec::new(), "linux", "x86_64") {
        Ok(Launch::ShowVersion(line)) => assert_eq!(line, "burn-in-zh-subtitles 0.1.6"),
        _ => panic!("expected the version"),
    }
}

#[test]
fn default_output_keeps_the_directory_and_takes_the_file_stem() {
    assert_eq!(default_output_path("clips/demo.mp4"), "clips/demo.zh-tw.burned.mp4");
    assert_eq!(default_output_path("clips.v2/demo"), "clips.v2/demo.zh-tw.burned.mp4");
    assert_eq!(default_output_path("movie.final.mkv"), "movie.final.zh-tw.burned.mp4");
    assert_eq!(default_output_path("dir/.hidden"), "dir/.hidden.zh-tw.burned.mp4");
    assert_eq!(default_output_path("C:\\v.2\\demo"), "C:\\v.2\\demo.zh-tw.burned.mp4");
}

#[test]
fn work_dir_attempts_retry_only_taken_names() {
    assert_eq!(work_dir_name(42, 1700000000000000000, 3, 0), ".subembed-work.42.1700000000000000000.3.0");
    assert!(matches!(
        after_work_dir_attempt(0, "p".to_owned(), CreateDirOutcome::AlreadyExists),
        WorkDirStep::TryAgain(1)
    ));
    assert!(matches!(
        after_work_dir_attempt(WORK_DIR_ATTEMPTS - 1, "p".to_owned(), CreateDirOutcome::AlreadyExists),
        WorkDirStep::Done(Err(WorkDirFailure::Exhausted))
    ));
    match after_work_dir_attempt(3, "p".to_owned(), CreateDirOutcome::Created) {
        WorkDirStep::Done(Ok(path)) => assert_eq!(path, "p"),
        other => panic!("unexpected {:?}", other),
    }
    match after_work_dir_attempt(3, "p".to_owned(), CreateDirOutcome::Failed("denied".to_owned())) {
        WorkDirStep::Done(Err(WorkDirFailure::CreateFailed { path, details })) => {
            assert_eq!((path.as_str(), details.as_str()), ("p", "denied"))
        }
        other => panic!("unexpected {:?}", other),
    }
}

#[test]
fn zip_search_reads_entries_in_order_per_member() {
    assert_eq!(zip_begin(2, 3), ZipStep::Read { member: 0, entry: 0 });
    assert_eq!(zip_begin(0, 3), ZipStep::Done);
    assert_eq!(zip_begin(2, 0), ZipStep::Missing(0));
    assert_eq!(zip_after_entry(2, 3, 0, 0, false), ZipStep::Read { member: 0, entry: 1 });
    assert_eq!(zip_after_entry(2, 3, 0, 1, true), ZipStep::Read { member: 1, entry: 0 });
    assert_eq!(zip_after_entry(2, 3, 1, 2, false), ZipStep::Missing(1));
    assert_eq!(zip_after_entry(2, 3, 1, 0, true), ZipStep::Done);
}

#[test]
fn filters_come_in_the_order_of_their_first_line() {
    let output = " T.. subtitles V->V Render text subtitles\n T.. ass V->V Render ASS\n T.. subtitles V->V again";
    assert_eq!(
        collect_supported_filters(output),
        vec![SubtitleFilter::Subtitles, SubtitleFilter::Ass]
    );
}
