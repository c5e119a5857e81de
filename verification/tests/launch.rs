use seed_helper::config::Config;
use seed_helper::launch::{LaunchAction, LaunchError, LaunchEvent, LaunchFlow, LaunchNotice};

/// Feeds the events in turn (never stopped) and collects the actions.
fn run(cfg: &Config, events: &[LaunchEvent], stop_at: Option<usize>) -> (Vec<LaunchAction>, Vec<LaunchNotice>) {
    let (mut flow, action, notes) = LaunchFlow::new(cfg);
    let mut actions = vec![action];
    let mut all_notes = notes;
    for (i, e) in events.iter().enumerate() {
        let (f, a, n) = flow.step(*e, stop_at == Some(i));
        flow = f;
        actions.push(a);
        all_notes.extend(n);
    }
    (actions, all_notes)
}

fn eco() -> Config {
    let mut c = Config::default();
    c.eco_mode = true;
    c.render_toggle = false;
    c.disable_sound = true;
    c.delete_startup_video = false;
    c.game_launch_delay = 3;
    c.preferred_fps = Some(144);
    c.preferred_menu_fps = None;
    c.preferred_res_x = Some(1920);
    c.preferred_res_y = Some(1080);
    c
}

#[test]
fn eco_launch_limits_then_restores() {
    let c = eco();
    let (flow, _, _) = LaunchFlow::new(&c);
    assert_eq!(flow.plan.args, vec!["-windowed", "-ResX=1", "-ResY=1", "-nosound"]);
    let (actions, notes) = run(
        &c,
        &[
            LaunchEvent::Launcher(true),
            LaunchEvent::Written(true),
            LaunchEvent::Started(true),
            LaunchEvent::Slept,
            LaunchEvent::Written(true),
            LaunchEvent::Written(true),
            LaunchEvent::Done,
            LaunchEvent::Slept,
        ],
        None,
    );
    assert_eq!(
        actions,
        vec![
            LaunchAction::FindLauncher,
            LaunchAction::WriteFps(Some(6), Some(100)),
            LaunchAction::StartLauncher,
            LaunchAction::Sleep(10),
            LaunchAction::WriteFps(Some(144), None),
            LaunchAction::WriteResolution(Some(1920), Some(1080)),
            LaunchAction::Toast,
            LaunchAction::Sleep(170),
            LaunchAction::Finish(None),
        ]
    );
    assert_eq!(
        notes,
        vec![
            LaunchNotice::EcoWindow,
            LaunchNotice::Settling,
            LaunchNotice::Loading { secs: 170, rest: true }
        ]
    );
}

#[test]
fn eco_launch_stopped_while_settling_restores() {
    let c = eco();
    let (actions, _) = run(
        &c,
        &[
            LaunchEvent::Launcher(true),
            LaunchEvent::Written(true),
            LaunchEvent::Started(true),
            LaunchEvent::Slept,
            LaunchEvent::Written(false),
            LaunchEvent::Written(false),
            LaunchEvent::Done,
        ],
        Some(3),
    );
    assert_eq!(
        &actions[4..],
        &[
            LaunchAction::WriteFps(Some(144), None),
            LaunchAction::WriteResolution(Some(1920), Some(1080)),
            LaunchAction::Toast,
            LaunchAction::Finish(None),
        ]
    );
}

#[test]
fn launch_errors() {
    let c = eco();
    let (actions, _) = run(&c, &[LaunchEvent::Launcher(false)], None);
    assert_eq!(actions[1], LaunchAction::Finish(Some(LaunchError::LauncherMissing)));
    let (actions, _) = run(&c, &[LaunchEvent::Launcher(true), LaunchEvent::Written(false)], None);
    assert_eq!(actions[2], LaunchAction::Finish(Some(LaunchError::SettingsFailed)));
    let mut s = Config::default();
    s.eco_mode = false;
    s.disable_sound = false;
    s.delete_startup_video = true;
    let (actions, notes) = run(&s, &[LaunchEvent::Done, LaunchEvent::Started(false)], None);
    assert_eq!(
        actions,
        vec![
            LaunchAction::RemoveVideo,
            LaunchAction::OpenSteam,
            LaunchAction::Finish(Some(LaunchError::SteamFailed))
        ]
    );
    assert!(notes.is_empty());
}

#[test]
fn steam_launch_waits_full_delay() {
    let mut s = Config::default();
    s.eco_mode = false;
    s.disable_sound = false;
    s.delete_startup_video = false;
    s.game_launch_delay = 2;
    let (actions, notes) = run(&s, &[LaunchEvent::Started(true), LaunchEvent::Slept], None);
    assert_eq!(
        actions,
        vec![LaunchAction::OpenSteam, LaunchAction::Sleep(120), LaunchAction::Finish(None)]
    );
    assert_eq!(
        notes,
        vec![LaunchNotice::LaunchedSteam, LaunchNotice::Loading { secs: 120, rest: false }]
    );
}

#[test]
fn no_render_launch_skips_limit() {
    let mut c = eco();
    c.render_toggle = true;
    c.game_launch_delay = 0;
    let (actions, notes) = run(&c, &[LaunchEvent::Launcher(true), LaunchEvent::Started(true)], None);
    assert_eq!(
        actions,
        vec![LaunchAction::FindLauncher, LaunchAction::StartLauncher, LaunchAction::Finish(None)]
    );
    assert_eq!(notes, vec![LaunchNotice::NoRender]);
}
