use seed_helper::config::Config;
use seed_helper::ini::{restore_ini_keys, write_fps_keys, write_resolution_keys};

const SECTION: &str = "[/Script/Squad.SQGameUserSettings]";

#[test]
fn fps_keys_replaced_in_section() {
    let content = format!("{SECTION}\r\nFrameRateLimit=60.000000\r\nMenuFrameRateLimit=30.000000\r\nOther=1\r\n[Next]\r\nFrameRateLimit=5\r\n");
    let out = write_fps_keys(&content, Some(144), Some(60));
    assert_eq!(
        out,
        format!("{SECTION}\nFrameRateLimit=144.000000\nMenuFrameRateLimit=60.000000\nOther=1\n[Next]\nFrameRateLimit=5")
    );
}

#[test]
fn fps_key_removed_with_none() {
    let content = format!("{SECTION}\nFrameRateLimit=60.000000\n  MenuFrameRateLimit=30.000000\nOther=1");
    let out = write_fps_keys(&content, None, Some(100));
    assert_eq!(out, format!("{SECTION}\nMenuFrameRateLimit=100.000000\nOther=1"));
}

#[test]
fn missing_fps_keys_inserted_at_section_end() {
    let content = format!("[A]\nx=1\n{SECTION}\nOther=1\n[B]\ny=2");
    let out = write_fps_keys(&content, Some(6), Some(100));
    assert_eq!(
        out,
        format!("[A]\nx=1\n{SECTION}\nOther=1\nFrameRateLimit=6.000000\nMenuFrameRateLimit=100.000000\n[B]\ny=2")
    );
}

#[test]
fn missing_keys_appended_when_section_is_last() {
    let content = format!("{SECTION}\nOther=1\n");
    let out = write_fps_keys(&content, Some(0), None);
    assert_eq!(out, format!("{SECTION}\nOther=1\nFrameRateLimit=0.000000"));
}

#[test]
fn no_section_keeps_lines_and_drops_bom() {
    let content = "\u{feff}\u{feff}[Other]\r\nFrameRateLimit=1\r\n\r\nend\n";
    let out = write_fps_keys(content, Some(30), Some(30));
    assert_eq!(out, "[Other]\nFrameRateLimit=1\n\nend");
}

#[test]
fn empty_file_stays_empty() {
    assert_eq!(write_fps_keys("", Some(1), Some(2)), "");
    assert_eq!(write_resolution_keys("", Some(1), Some(2)), "");
}

#[test]
fn resolution_keys_written_and_floats_reset() {
    let content = format!("{SECTION}\nResolutionSizeX=800\nLastRecommendedScreenWidth=1920.000000\nDesiredScreenHeight=600");
    let out = write_resolution_keys(&content, Some(1920), None);
    assert_eq!(
        out,
        format!(
            "{SECTION}\nResolutionSizeX=1920\nLastRecommendedScreenWidth=-1.000000\n\
LastUserConfirmedResolutionSizeX=1920\nDesiredScreenWidth=1920\nLastUserConfirmedDesiredScreenWidth=1920\n\
LastRecommendedScreenHeight=-1.000000"
        )
    );
}

#[test]
fn restore_writes_both_key_sets() {
    let mut cfg = Config::default();
    cfg.preferred_fps = Some(90);
    cfg.preferred_menu_fps = None;
    cfg.preferred_res_x = None;
    cfg.preferred_res_y = Some(1080);
    let content = format!("{SECTION}\nFrameRateLimit=6.000000\nMenuFrameRateLimit=100.000000\nResolutionSizeY=1");
    let out = restore_ini_keys(&cfg, &content);
    assert_eq!(
        out,
        format!(
            "{SECTION}\nFrameRateLimit=90.000000\nResolutionSizeY=1080\nLastUserConfirmedResolutionSizeY=1080\n\
DesiredScreenHeight=1080\nLastUserConfirmedDesiredScreenHeight=1080\n\
LastRecommendedScreenWidth=-1.000000\nLastRecommendedScreenHeight=-1.000000"
        )
    );
}

#[test]
fn rewriting_twice_changes_nothing_more() {
    let content = format!("x\r\n{SECTION}\r\n  FrameRateLimit=60.000000  \r\nFoo=bar\r\n[Z]\r\nq");
    let once = write_fps_keys(&content, Some(75), None);
    let twice = write_fps_keys(&once, Some(75), None);
    assert_eq!(once, twice);
}

#[test]
fn key_outside_section_untouched() {
    let content = "MenuFrameRateLimit=1\n[/Script/Squad.SQGameUserSettings]\nA=1";
    let out = write_fps_keys(content, None, None);
    assert_eq!(out, content);
}
