use burn_in_zh_subtitles::config::{AppConfig, Cli, StyleConfig};
use burn_in_zh_subtitles::ffmpeg::CommandOutcome;
use burn_in_zh_subtitles::pipeline::{Action, Event, Pipeline};
use burn_in_zh_subtitles::{run, Launch};

fn style_config(font_dir: &str) -> StyleConfig {
    StyleConfig {
        font_name: "Test Font".to_owned(),
        font_dir: font_dir.to_owned(),
        font_size: None,
        margin_v: None,
        outline_size: None,
        shadow_size: None,
    }
}

fn step(p: &mut Pipeline, e: Event) -> Action {
    assert!(p.accepts(&e));
    p.step(e)
}

#[test]
fn execute_rejects_missing_video_before_invoking_ffmpeg() {
    let mut p = Pipeline::new(
        AppConfig {
            video: "work/missing.mp4".to_owned(),
            subtitle: "work/subtitle.vtt".to_owned(),
            output: "work/output.mp4".to_owned(),
            overwrite_output: false,
            open_output: false,
            style: style_config("work"),
        },
        "linux",
        "x86_64",
        Vec::new(),
    );

    match step(&mut p, Event::Begin) {
        Action::IsFile(path) => assert_eq!(path, "work/missing.mp4"),
        other => panic!("unexpected action {:?}", other),
    }
    let error = match step(&mut p, Event::Checked(false)) {
        Action::Finish(Err(message)) => message,
        other => panic!("missing video should fail: {:?}", other),
    };

    assert!(error.contains("video input does not exist or is not a file"));
}

#[test]
fn execute_rejects_existing_output_without_force() {
    let output_path = "work/output.mp4";
    let mut p = Pipeline::new(
        AppConfig {
            video: "work/video.mp4".to_owned(),
            subtitle: "work/subtitle.vtt".to_owned(),
            output: output_path.to_owned(),
            overwrite_output: false,
            open_output: false,
            style: style_config("work"),
        },
        "linux",
        "x86_64",
        Vec::new(),
    );

    assert!(matches!(step(&mut p, Event::Begin), Action::IsFile(_)));
    assert!(matches!(step(&mut p, Event::Checked(true)), Action::IsFile(_)));
    assert!(matches!(step(&mut p, Event::Checked(true)), Action::IsDir(_)));
    match step(&mut p, Event::Checked(true)) {
        Action::CreateDirAll(dir) => assert_eq!(dir, "work"),
        other => panic!("unexpected action {:?}", other),
    }
    assert!(matches!(step(&mut p, Event::Completed(Ok(()))), Action::Exists(_)));
    let error = match step(&mut p, Event::Checked(true)) {
        Action::Finish(Err(message)) => message,
        other => panic!("existing output should fail: {:?}", other),
    };

    assert!(error.contains(&format!("output file already exists: {}", output_path)));
}

#[test]
fn execute_opens_existing_output_without_force_when_open_enabled() {
    let mut p = Pipeline::new(
        AppConfig {
            video: "work/nonexistent_video.mp4".to_owned(),
            subtitle: "work/nonexistent_subtitle.vtt".to_owned(),
            output: "work/output.mp4".to_owned(),
            overwrite_output: false,
            open_output: true,
            style: style_config("work"),
        },
        "linux",
        "x86_64",
        Vec::new(),
    );

    match step(&mut p, Event::Begin) {
        Action::Exists(path) => assert_eq!(path, "work/output.mp4"),
        other => panic!("unexpected action {:?}", other),
    }
    match step(&mut p, Event::Checked(true)) {
        Action::PrintPath(path) => assert_eq!(path, "work/output.mp4"),
        other => panic!("unexpected action {:?}", other),
    }
    match step(&mut p, Event::Completed(Ok(()))) {
        Action::Open(command) => {
            assert_eq!(command.program, "xdg-open");
            assert_eq!(command.args, vec!["work/output.mp4".to_owned()]);
        },
        other => panic!("unexpected action {:?}", other),
    }
    let done = step(
        &mut p,
        Event::Ran(CommandOutcome::Exited {
            success: true,
            code: Some(0),
            stdout: String::new(),
            stderr: String::new(),
        }),
    );
    assert!(matches!(done, Action::Finish(Ok(()))));
}

#[test]
fn run_with_cli_surfaces_validation_errors_from_pipeline() {
    let cli = Cli {
        version: false,
        force: false,
        open: false,
        video: Some("input.mp4".to_owned()),
        subtitle: Some("subtitles.vtt".to_owned()),
        output: None,
    };

    let mut p = match run(&cli, Vec::new(), "linux", "x86_64") {
        Ok(Launch::Burn(p)) => p,
        _ => panic!("a burn should start"),
    };
    assert!(matches!(step(&mut p, Event::Begin), Action::IsFile(_)));
    let error = match step(&mut p, Event::Checked(false)) {
        Action::Finish(Err(message)) => message,
        other => panic!("missing video should fail validation: {:?}", other),
    };
    assert!(error.contains("video input does not exist or is not a file"));
}

fn ok_run(stdout: &str) -> Event {
    Event::Ran(CommandOutcome::Exited {
        success: true,
        code: Some(0),
        stdout: stdout.to_owned(),
        stderr: String::new(),
    })
}

fn burn_config(overwrite: bool) -> AppConfig {
    AppConfig {
        video: "/w/v.mp4".to_owned(),
        subtitle: "/w/s.vtt".to_owned(),
        output: "/w/out.mp4".to_owned(),
        overwrite_output: overwrite,
        open_output: false,
        style: style_config("/fonts"),
    }
}

/// Drives a pipeline through validation and the system tools up to the
/// creation of its working directory.
fn up_to_work_dir(p: &mut Pipeline, output_exists: bool) {
    assert!(matches!(step(p, Event::Begin), Action::IsFile(_)));
    assert!(matches!(step(p, Event::Checked(true)), Action::IsFile(_)));
    assert!(matches!(step(p, Event::Checked(true)), Action::IsDir(_)));
    assert!(matches!(step(p, Event::Checked(true)), Action::CreateDirAll(_)));
    assert!(matches!(step(p, Event::Completed(Ok(()))), Action::Exists(_)));
    match step(p, Event::Checked(output_exists)) {
        Action::ProbeSystemTools { ffmpeg, ffmpeg_args, ffprobe, ffprobe_args } => {
            assert_eq!(ffmpeg, "ffmpeg");
            assert_eq!(ffmpeg_args, vec!["-hide_banner".to_owned(), "-filters".to_owned()]);
            assert_eq!(ffprobe, "ffprobe");
            assert_eq!(ffprobe_args, vec!["-hide_banner".to_owned(), "-version".to_owned()]);
        },
        other => panic!("unexpected action {:?}", other),
    }
    let probed = Event::ToolsProbed {
        ffmpeg: Some(("/usr/bin/ffmpeg".to_owned(), CommandOutcome::Exited {
            success: true,
            code: Some(0),
            stdout: " T.. ass  V->V  Render ASS subtitles".to_owned(),
            stderr: String::new(),
        })),
        ffprobe: Some(("/usr/bin/ffprobe".to_owned(), CommandOutcome::Exited {
            success: true,
            code: Some(0),
            stdout: "ffprobe version 6".to_owned(),
            stderr: String::new(),
        })),
    };
    match step(p, probed) {
        Action::RunCommand { program, args } => {
            assert_eq!(program, "/usr/bin/ffprobe");
            assert_eq!(args.last().map(String::as_str), Some("/w/v.mp4"));
        },
        other => panic!("unexpected action {:?}", other),
    }
    match step(p, ok_run("1920x1080\n")) {
        Action::CreateDirAll(dir) => assert_eq!(dir, "/w"),
        other => panic!("unexpected action {:?}", other),
    }
    match step(p, Event::Completed(Ok(()))) {
        Action::CreateWorkDir(dir) => assert_eq!(dir, "/w"),
        other => panic!("unexpected action {:?}", other),
    }
}

#[test]
fn a_full_burn_overwrites_only_when_forced() {
    let mut p = Pipeline::new(burn_config(true), "linux", "x86_64", Vec::new());
    up_to_work_dir(&mut p, true);
    match step(&mut p, Event::WorkDirMade(Ok("/w/.work".to_owned()))) {
        Action::RunCommand { program, args } => {
            assert_eq!(program, "/usr/bin/ffmpeg");
            assert_eq!(args[args.len() - 2..], ["/w/s.vtt".to_owned(), "/w/.work/raw.ass".to_owned()]);
        },
        other => panic!("unexpected action {:?}", other),
    }
    match step(&mut p, ok_run("")) {
        Action::ReadFile(path) => assert_eq!(path, "/w/.work/raw.ass"),
        other => panic!("unexpected action {:?}", other),
    }
    let raw = "[Events]\nDialogue: 0,0:00:00.00,0:00:01.00,Default,,0,0,0,,測試\n".to_owned();
    match step(&mut p, Event::Read(Ok(raw))) {
        Action::WriteFile { path, contents } => {
            assert_eq!(path, "/w/.work/wrapped.ass");
            assert!(contents.contains("PlayResX: 1920"));
            assert!(contents.contains("Style: Default,Test Font,70"));
            assert!(contents.contains("Dialogue: 0,0:00:00.00,0:00:01.00,Default,,0,0,0,,測試"));
        },
        other => panic!("unexpected action {:?}", other),
    }
    match step(&mut p, Event::Completed(Ok(()))) {
        Action::RunCommand { program, args } => {
            assert_eq!(program, "/usr/bin/ffmpeg");
            assert!(args.contains(&"ass=filename='/w/.work/wrapped.ass':fontsdir='/fonts'".to_owned()));
            assert!(args.contains(&"libx264".to_owned()));
            assert!(args.contains(&"+faststart".to_owned()));
            assert_eq!(args.last().map(String::as_str), Some("/w/.work/burned-output.mp4"));
        },
        other => panic!("unexpected action {:?}", other),
    }
    assert!(matches!(step(&mut p, ok_run("")), Action::IsFile(_)));
    match step(&mut p, Event::Checked(true)) {
        Action::Exists(path) => assert_eq!(path, "/w/out.mp4"),
        other => panic!("unexpected action {:?}", other),
    }
    match step(&mut p, Event::Checked(true)) {
        Action::RemoveFile(path) => assert_eq!(path, "/w/out.mp4"),
        other => panic!("unexpected action {:?}", other),
    }
    match step(&mut p, Event::Completed(Ok(()))) {
        Action::Rename { from, to } => {
            assert_eq!(from, "/w/.work/burned-output.mp4");
            assert_eq!(to, "/w/out.mp4");
        },
        other => panic!("unexpected action {:?}", other),
    }
    assert!(matches!(step(&mut p, Event::Completed(Ok(()))), Action::PrintPath(_)));
    match step(&mut p, Event::Completed(Ok(()))) {
        Action::RemoveDirAll(path) => assert_eq!(path, "/w/.work"),
        other => panic!("unexpected action {:?}", other),
    }
    assert!(matches!(step(&mut p, Event::Completed(Ok(()))), Action::Finish(Ok(()))));
    assert!(matches!(step(&mut p, Event::Begin), Action::Finish(Ok(()))));
}

#[test]
fn a_failed_burn_removes_its_working_directory() {
    let mut p = Pipeline::new(burn_config(false), "linux", "x86_64", Vec::new());
    up_to_work_dir(&mut p, false);
    assert!(matches!(step(&mut p, Event::WorkDirMade(Ok("/w/.work".to_owned()))), Action::RunCommand { .. }));
    let failed = Event::Ran(CommandOutcome::Exited {
        success: false,
        code: Some(1),
        stdout: String::new(),
        stderr: "Invalid data".to_owned(),
    });
    match step(&mut p, failed) {
        Action::RemoveDirAll(path) => assert_eq!(path, "/w/.work"),
        other => panic!("unexpected action {:?}", other),
    }
    match step(&mut p, Event::Completed(Ok(()))) {
        Action::Finish(Err(message)) => assert_eq!(
            message,
            "ffmpeg failed to convert subtitle /w/s.vtt to ASS at /w/.work/raw.ass: exit code 1: Invalid data"
        ),
        other => panic!("unexpected action {:?}", other),
    }
}

#[test]
fn missing_system_tools_fall_back_to_a_managed_download() {
    let env = vec![("HOME".to_owned(), "/home/u".to_owned())];
    let mut p = Pipeline::new(burn_config(false), "linux", "x86_64", env);
    assert!(matches!(step(&mut p, Event::Begin), Action::IsFile(_)));
    assert!(matches!(step(&mut p, Event::Checked(true)), Action::IsFile(_)));
    assert!(matches!(step(&mut p, Event::Checked(true)), Action::IsDir(_)));
    assert!(matches!(step(&mut p, Event::Checked(true)), Action::CreateDirAll(_)));
    assert!(matches!(step(&mut p, Event::Completed(Ok(()))), Action::Exists(_)));
    assert!(matches!(step(&mut p, Event::Checked(false)), Action::ProbeSystemTools { .. }));
    let cache = "/home/u/.cache/burn-in-zh-subtitles/tools/ffmpeg";
    let root = format!("{cache}/linux-x64/johnvansickle-release-amd64-static");
    match step(&mut p, Event::ToolsProbed { ffmpeg: None, ffprobe: None }) {
        Action::CreateDirAll(dir) => assert_eq!(dir, cache),
        other => panic!("unexpected action {:?}", other),
    }
    match step(&mut p, Event::Completed(Ok(()))) {
        Action::Exists(path) => assert_eq!(path, root),
        other => panic!("unexpected action {:?}", other),
    }
    match step(&mut p, Event::Checked(false)) {
        Action::CreateDirAll(dir) => assert_eq!(dir, format!("{cache}/linux-x64")),
        other => panic!("unexpected action {:?}", other),
    }
    match step(&mut p, Event::Completed(Ok(()))) {
        Action::Exists(path) => assert_eq!(path, format!("{root}.installing")),
        other => panic!("unexpected action {:?}", other),
    }
    assert!(matches!(step(&mut p, Event::Checked(false)), Action::CreateDirAll(_)));
    match step(&mut p, Event::Completed(Ok(()))) {
        Action::Download { url, destination } => {
            assert_eq!(url, "https://johnvansickle.com/ffmpeg/releases/ffmpeg-release-amd64-static.tar.xz");
            assert_eq!(destination, format!("{root}.installing/ffmpeg-linux-x64.tar.xz"));
        },
        other => panic!("unexpected action {:?}", other),
    }
    match step(&mut p, Event::Completed(Err("timed out".to_owned()))) {
        Action::Finish(Err(message)) => {
            assert!(message.starts_with("failed to locate or provision ffmpeg/ffprobe: usable system ffmpeg/ffprobe were not found for Linux x64; system probe failed: `ffmpeg` was not found on PATH; `ffprobe` was not found on PATH; managed install failed: failed to download https://johnvansickle.com/ffmpeg/releases/ffmpeg-release-amd64-static.tar.xz from johnvansickle.com Linux x64 static tar.xz: timed out. Install both"));
        },
        other => panic!("unexpected action {:?}", other),
    }
}

#[test]
fn unsupported_platforms_get_manual_install_advice() {
    let mut p = Pipeline::new(burn_config(false), "linux", "riscv64", Vec::new());
    assert!(matches!(step(&mut p, Event::Begin), Action::IsFile(_)));
    assert!(matches!(step(&mut p, Event::Checked(true)), Action::IsFile(_)));
    assert!(matches!(step(&mut p, Event::Checked(true)), Action::IsDir(_)));
    assert!(matches!(step(&mut p, Event::Checked(true)), Action::CreateDirAll(_)));
    assert!(matches!(step(&mut p, Event::Completed(Ok(()))), Action::Exists(_)));
    assert!(matches!(step(&mut p, Event::Checked(false)), Action::ProbeSystemTools { .. }));
    match step(&mut p, Event::ToolsProbed { ffmpeg: None, ffprobe: None }) {
        Action::Finish(Err(message)) => {
            assert!(message.contains("not found for linux/riscv64"));
            assert!(message.contains("Managed downloads are only implemented for macOS arm64/x64, Linux x64, and Windows x64."));
        },
        other => panic!("unexpected action {:?}", other),
    }
}
