use burn_in_zh_subtitles::config::{
    AppConfig, Cli, DEFAULT_FONT_DIR, DEFAULT_FONT_NAME, FONT_DIR_KEY, FONT_NAME_KEY,
    FONT_SIZE_KEY, MARGIN_V_KEY, OUTLINE_SIZE_KEY, SHADOW_SIZE_KEY,
};

fn cli(video: &str, subtitle: &str) -> Cli {
    Cli {
        version: false,
        force: false,
        open: false,
        video: Some(video.to_owned()),
        subtitle: Some(subtitle.to_owned()),
        output: None,
    }
}

fn pairs(items: &[(&str, &str)]) -> Vec<(String, String)> {
    items.iter().map(|(k, v)| (k.to_string(), v.to_string())).collect()
}

#[test]
fn derives_default_output_from_video_path() {
    let cli = cli("clips/demo.mp4", "subs/demo.vtt");
    let env = Vec::new();

    let config = AppConfig::from_env_map(&cli, &env).expect("config should build");

    assert_eq!(config.output, "clips/demo.zh-tw.burned.mp4");
    assert!(!config.overwrite_output);
    assert!(!config.open_output);
}

#[test]
fn uses_style_overrides_from_environment() {
    let cli = cli("demo.mp4", "demo.vtt");
    let env = pairs(&[
        (FONT_NAME_KEY, "Noto Sans CJK TC"),
        (FONT_DIR_KEY, "/custom/fonts"),
        (FONT_SIZE_KEY, "64"),
        (MARGIN_V_KEY, "48"),
        (OUTLINE_SIZE_KEY, "5"),
        (SHADOW_SIZE_KEY, "2"),
    ]);

    let config = AppConfig::from_env_map(&cli, &env).expect("config should build");

    assert_eq!(config.style.font_name, "Noto Sans CJK TC");
    assert_eq!(config.style.font_dir, "/custom/fonts");
    assert_eq!(config.style.font_size, Some(64));
    assert_eq!(config.style.margin_v, Some(48));
    assert_eq!(config.style.outline_size, Some(5));
    assert_eq!(config.style.shadow_size, Some(2));
}

#[test]
fn rejects_invalid_numeric_overrides() {
    let cli = cli("demo.mp4", "demo.vtt");
    let env = pairs(&[(FONT_SIZE_KEY, "big")]);

    let error = AppConfig::from_env_map(&cli, &env).expect_err("FONT_SIZE should be numeric");

    assert!(error.message().contains("FONT_SIZE"));
}

#[test]
fn empty_string_overrides_fall_back_to_defaults() {
    let cli = cli("demo.mp4", "demo.vtt");
    let env = pairs(&[(FONT_NAME_KEY, "   "), (FONT_DIR_KEY, "")]);

    let config = AppConfig::from_env_map(&cli, &env).expect("config should build");

    assert_eq!(config.style.font_name, DEFAULT_FONT_NAME);
    assert_eq!(config.style.font_dir, DEFAULT_FONT_DIR);
}
