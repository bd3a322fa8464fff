use edbookmark::config::{expand_home, Config, ThemeConfig};
use edbookmark::keybinding::{handle_key, Action, AppMode, FormField, KeyCode, KeyEvent};
use edbookmark::launcher::{
    browser_args, desktop_exec, first_exec_token, next_launch_stage, resolve_browser,
    resolve_uwsm_stack, systemd_run_args, LaunchOutcome, LaunchStage, launch_result, systemd_run_result, SystemdRunReport,
};
use edbookmark::theme::{parse_color, Theme, ThemeColor};

fn key(c: char) -> KeyEvent {
    KeyEvent { code: KeyCode::Char(c), ctrl: false }
}

fn ctrl(c: char) -> KeyEvent {
    KeyEvent { code: KeyCode::Char(c), ctrl: true }
}

#[test]
fn colors_in_any_case() {
    assert_eq!(parse_color("#39BAE6"), Some(ThemeColor::Rgb(0x39, 0xBA, 0xE6)));
    assert_eq!(parse_color("#39bae6"), Some(ThemeColor::Rgb(0x39, 0xBA, 0xE6)));
    assert_eq!(parse_color("RED"), Some(ThemeColor::Red));
    assert_eq!(parse_color("Transparent"), Some(ThemeColor::Reset));
    assert_eq!(parse_color("none"), Some(ThemeColor::Reset));
    assert_eq!(parse_color("purple"), Some(ThemeColor::Reset));
    assert_eq!(parse_color("#12345"), Some(ThemeColor::Reset));
    assert_eq!(parse_color("#GG0000"), Some(ThemeColor::Rgb(0, 0, 0)));
    assert_eq!(parse_color("#1é234"), None);
    assert_eq!(parse_color("#é1234"), Some(ThemeColor::Rgb(0, 0x12, 0x34)));
}

#[test]
fn theme_from_default_config() {
    let config = Config::default();
    let theme = Theme::from_config(&config.theme);
    assert_eq!(theme.bg(), ThemeColor::Reset);
    assert_eq!(theme.fg(), ThemeColor::Rgb(0xBF, 0xBD, 0xB6));
    assert_eq!(theme.selected_bg(), ThemeColor::Rgb(0x2D, 0x4F, 0x67));
    assert_eq!(theme.button_delete_bg(), ThemeColor::Rgb(0xF0, 0x71, 0x78));
    assert_eq!(theme.get("no_such_slot"), ThemeColor::Reset);
}

#[test]
fn theme_rejects_unsliceable_color() {
    let tc = ThemeConfig {
        preset: "x".to_string(),
        transparent_bg: false,
        colors: vec![("fg".to_string(), "#a€12".to_string())],
    };
    assert!(Theme::try_from_config(&tc).is_none());
    let ok = ThemeConfig {
        preset: "x".to_string(),
        transparent_bg: false,
        colors: vec![("fg".to_string(), "Blue".to_string())],
    };
    let t = Theme::try_from_config(&ok).unwrap();
    assert_eq!(t.fg(), ThemeColor::Blue);
    assert_eq!(t.url(), ThemeColor::Reset);
}

#[test]
fn default_config_values() {
    let c = Config::default();
    assert_eq!(c.window.width, 100);
    assert_eq!(c.window.height, 30);
    assert_eq!(c.launcher.command, "omarchy-launch-webapp");
    assert_eq!(c.launcher.args, vec!["--isolate".to_string()]);
    assert_eq!(c.paths.bookmarks, "~/.local/share/edbookmark/bookmarks.json");
    assert_eq!(c.theme.preset, "ayu-dark");
    assert!(c.theme.transparent_bg);
    assert_eq!(c.theme.colors.len(), 34);
    assert!(c.keybindings.is_empty());
}

#[test]
fn tilde_expansion() {
    assert_eq!(expand_home("~/a/~b", "/home/u"), "/home/u/a//home/ub");
    assert_eq!(expand_home("/abs", "/home/u"), "/abs");
}

#[test]
fn normal_mode_keys() {
    let m = AppMode::Normal;
    assert_eq!(handle_key(&m, key('j')), Action::MoveDown);
    assert_eq!(handle_key(&m, key('G')), Action::GoBottom);
    assert_eq!(handle_key(&m, key('D')), Action::BulkDelete);
    assert_eq!(handle_key(&m, KeyEvent { code: KeyCode::Esc, ctrl: false }), Action::Quit);
    assert_eq!(handle_key(&m, key('z')), Action::Nothing);
}

#[test]
fn search_mode_keys() {
    let m = AppMode::Search;
    assert_eq!(handle_key(&m, ctrl('w')), Action::SearchDeleteWord);
    assert_eq!(handle_key(&m, ctrl('u')), Action::SearchClear);
    assert_eq!(handle_key(&m, key('w')), Action::SearchInput('w'));
    assert_eq!(handle_key(&m, KeyEvent { code: KeyCode::Down, ctrl: false }), Action::SearchNavigateDown);
}

#[test]
fn form_and_dialog_keys() {
    assert_eq!(handle_key(&AppMode::Add, ctrl('s')), Action::FormSave);
    assert_eq!(handle_key(&AppMode::Edit, KeyEvent { code: KeyCode::Tab, ctrl: false }), Action::FormNextField);
    assert_eq!(handle_key(&AppMode::Add, key('x')), Action::FormInput('x'));
    assert_eq!(handle_key(&AppMode::DeleteConfirm, key('y')), Action::ConfirmDelete);
    assert_eq!(handle_key(&AppMode::DeleteConfirm, key('n')), Action::CancelDelete);
}

#[test]
fn form_field_cycle() {
    assert_eq!(FormField::Name.next(), FormField::Url);
    assert_eq!(FormField::Folder.next(), FormField::Name);
    assert_eq!(FormField::Name.prev(), FormField::Folder);
    assert_eq!(FormField::Url.next().prev(), FormField::Url);
}

#[test]
fn exec_tokens() {
    assert_eq!(first_exec_token("/usr/bin/chromium %U"), Some("/usr/bin/chromium".to_string()));
    assert_eq!(first_exec_token("\"/opt/My Browser/bin\" --x"), Some("/opt/My Browser/bin".to_string()));
    assert_eq!(first_exec_token("   "), None);
    let desktop = "[Desktop Entry]\nName=Chromium\nExec=\nExec=chromium --new-window %U\nExec=other\n";
    assert_eq!(desktop_exec(desktop), Some("chromium".to_string()));
    assert_eq!(desktop_exec("[Desktop Entry]\n"), None);
}

#[test]
fn launch_arguments() {
    let args = browser_args("https://x", &vec!["--isolate".to_string()]);
    assert_eq!(args, vec!["--app=https://x".to_string(), "--isolate".to_string()]);
    let envs = vec![
        ("HOME".to_string(), "/home/u".to_string()),
        ("DISPLAY".to_string(), "".to_string()),
    ];
    let r = systemd_run_args(1234, &envs, "chromium", &args);
    assert_eq!(
        r,
        vec![
            "--user".to_string(),
            "--quiet".to_string(),
            "--collect".to_string(),
            "--service-type=exec".to_string(),
            "--unit=edbookmark-webapp-1234".to_string(),
            "--setenv=HOME=/home/u".to_string(),
            "chromium".to_string(),
            "--app=https://x".to_string(),
            "--isolate".to_string(),
        ]
    );
}

#[test]
fn launch_fallback_order() {
    let mut s = LaunchStage::SystemdRun;
    s = next_launch_stage(s, LaunchOutcome::Failed);
    assert_eq!(s, LaunchStage::Uwsm);
    s = next_launch_stage(s, LaunchOutcome::Unavailable);
    assert_eq!(s, LaunchStage::Setsid);
    s = next_launch_stage(s, LaunchOutcome::Failed);
    assert_eq!(s, LaunchStage::Direct);
    assert_eq!(next_launch_stage(s, LaunchOutcome::Failed), LaunchStage::GaveUp);
    assert_eq!(next_launch_stage(s, LaunchOutcome::Started), LaunchStage::Launched);
    assert_eq!(next_launch_stage(LaunchStage::Launched, LaunchOutcome::Failed), LaunchStage::Launched);
}

#[test]
fn browser_choice() {
    assert_eq!(resolve_browser(Some("/usr/bin/brave".to_string()), Some("/usr/bin/chromium".to_string())), "/usr/bin/brave");
    assert_eq!(resolve_browser(None, Some("/usr/bin/chromium".to_string())), "/usr/bin/chromium");
    assert_eq!(resolve_browser(None, None), "chromium");
    assert_eq!(
        resolve_uwsm_stack(Some("/usr/bin/setsid".to_string()), Some("/usr/bin/uwsm-app".to_string())),
        Some(("/usr/bin/setsid".to_string(), "/usr/bin/uwsm-app".to_string()))
    );
    assert_eq!(resolve_uwsm_stack(None, Some("u".to_string())), None);
}

#[test]
fn bookmark_path_has_home_expanded() {
    let c = Config::default();
    if let Some(p) = c.bookmarks_path() {
        assert!(!p.contains('~'));
        assert!(p.ends_with("/.local/share/edbookmark/bookmarks.json"));
    }
}

#[test]
fn escape_is_never_ignored() {
    let esc = KeyEvent { code: KeyCode::Esc, ctrl: false };
    for m in [
        AppMode::Normal,
        AppMode::Search,
        AppMode::Add,
        AppMode::Edit,
        AppMode::DeleteConfirm,
        AppMode::Help,
        AppMode::ImportExport,
        AppMode::ImportExportInput,
        AppMode::History,
        AppMode::HistoryDeleteConfirm,
        AppMode::HistoryExportSelect,
    ] {
        assert_ne!(handle_key(&m, esc), Action::Nothing);
    }
}

#[test]
fn launch_result_of_final_stages() {
    assert_eq!(launch_result(LaunchStage::Launched, "chromium", ""), Some(Ok(())));
    assert_eq!(
        launch_result(LaunchStage::GaveUp, "/usr/bin/chromium", "No such file or directory (os error 2)"),
        Some(Err("Failed to launch browser '/usr/bin/chromium': No such file or directory (os error 2)".to_string()))
    );
    assert_eq!(launch_result(LaunchStage::SystemdRun, "chromium", "x"), None);
    assert_eq!(launch_result(LaunchStage::Direct, "chromium", "x"), None);
}

#[test]
fn systemd_run_outcomes() {
    assert_eq!(systemd_run_result(SystemdRunReport::NotFound), Err("systemd-run not found".to_string()));
    assert_eq!(
        systemd_run_result(SystemdRunReport::ClockFailed("second time provided was later".to_string())),
        Err("time error: second time provided was later".to_string())
    );
    assert_eq!(
        systemd_run_result(SystemdRunReport::ExecFailed("permission denied".to_string())),
        Err("systemd-run exec failed: permission denied".to_string())
    );
    assert_eq!(systemd_run_result(SystemdRunReport::Exited(true, "exit status: 0".to_string())), Ok(()));
    assert_eq!(
        systemd_run_result(SystemdRunReport::Exited(false, "exit status: 1".to_string())),
        Err("systemd-run returned status exit status: 1".to_string())
    );
}
