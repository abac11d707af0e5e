use burn_in_zh_subtitles::config::{AppConfig, StyleConfig};
use burn_in_zh_subtitles::subtitle::{parse_positive_u32, plan, render_ass, resolve_layout, SubtitleError};
use burn_in_zh_subtitles::wrap::{wrap_ass_text, MaxUnits};

fn style_config() -> StyleConfig {
    StyleConfig {
        font_name: "LINE Seed TW_OTF Regular".to_owned(),
        font_dir: "/Library/Fonts".to_owned(),
        font_size: None,
        margin_v: None,
        outline_size: None,
        shadow_size: None,
    }
}

#[test]
fn plan_requires_ass_staging_and_wrapping() {
    let config = AppConfig {
        video: "video.mp4".to_owned(),
        subtitle: "subtitle.vtt".to_owned(),
        output: "output.mp4".to_owned(),
        overwrite_output: false,
        open_output: false,
        style: style_config(),
    };

    let plan = plan(&config);

    assert!(plan.requires_ass_staging);
    assert!(plan.wraps_dialogue_lines);
}

#[test]
fn resolve_layout_scales_defaults_from_video_height() {
    let layout = resolve_layout(&style_config(), 1080);

    assert_eq!(layout.font_size, 70);
    assert_eq!(layout.margin_l, 48);
    assert_eq!(layout.margin_r, 48);
    assert_eq!(layout.margin_v, 35);
    assert_eq!(layout.outline_size, 5);
    assert_eq!(layout.shadow_size, 2);
}

#[test]
fn render_ass_builds_header_and_wraps_dialogue_text() {
    let raw_ass = "[Script Info]\n[Events]\nDialogue: 0,0:00:00.00,0:00:03.00,Default,,0,0,0,,這是一段很長的中文字幕需要自動換行讓畫面更容易閱讀並且保持自然節奏。\n";

    let rendered = render_ass(raw_ass, &style_config(), 640, 360).expect("rendered ASS should build");

    assert!(rendered.contains("PlayResX: 640"));
    assert!(rendered.contains("PlayResY: 360"));
    assert!(rendered.contains("Style: Default,LINE Seed TW_OTF Regular,24"));
    assert!(rendered.contains("Dialogue: 0,0:00:00.00,0:00:03.00,Default,,0,0,0,,"));
    assert!(rendered.matches("\\N").count() >= 1);
}

#[test]
fn render_ass_keeps_override_tags_and_existing_breaks() {
    let raw_ass = "[Events]\nDialogue: 0,0:00:00.00,0:00:03.00,Default,,0,0,0,,{\\i1}這是一段測試文字會保留標籤\\N並且在需要時再換行。\n";

    let rendered = render_ass(raw_ass, &style_config(), 640, 360).expect("rendered ASS should build");

    assert!(rendered.contains("{\\i1}這是一段測試文字會保留標籤\\N並且在需要時再換行。"));
}

#[test]
fn render_ass_rejects_missing_events_section() {
    let error = render_ass("[Script Info]\n", &style_config(), 640, 360)
        .expect_err("missing events should fail");

    assert_eq!(error, SubtitleError::MissingEventsSection);
}

#[test]
fn wrap_segment_breaks_after_preferred_punctuation() {
    let text: Vec<char> = "第一句，第二句，第三句，第四句".chars().collect();
    let wrapped: String = wrap_ass_text(&text, MaxUnits { num: 6, den: 1 }).into_iter().collect();

    assert_eq!(wrapped, "第一句，\\N第二句，\\N第三句，\\N第四句");
}

#[test]
fn parse_positive_u32_falls_back_for_zero_or_invalid_values() {
    assert_eq!(parse_positive_u32("18", 4), 18);
    assert_eq!(parse_positive_u32("0", 4), 4);
    assert_eq!(parse_positive_u32("abc", 4), 4);
}
