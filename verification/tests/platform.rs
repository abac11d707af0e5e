use burn_in_zh_subtitles::platform::{open_output, plan};

#[test]
fn plan_uses_platform_open_command() {
    let mac = plan(true, "macos");
    assert_eq!(mac.open_command_hint, "open");
    let windows = plan(true, "windows");
    assert_eq!(windows.open_command_hint, "start");
    let linux = plan(true, "linux");
    assert_eq!(linux.open_command_hint, "xdg-open");
    assert!(linux.should_open_output);
}

#[test]
fn disabled_open_plan_is_a_no_op() {
    let plan = plan(false, "linux");

    assert!(!plan.should_open_output);
    assert!(open_output(&plan, "ignored.mp4").is_none());
}
