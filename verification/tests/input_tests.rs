use spectatui::app::{
    palette_commands, App, ClickAction, DashboardLayout, PaletteAction, PopupKind, Screen, SettingsRow, SpecTab,
};
use spectatui::config::AppConfig;
use spectatui::input::{execute_click_action, handle_key, handle_mouse, key_allowed};
use spectatui::keys::{Effect, KeyCode, KeyEvent, MouseEvent, MouseKind};
use spectatui::registry::IntegrationInfo;
use spectatui::speckit::{Feature, FeatureArtifacts, Project};
use spectatui::theme::ThemeMode;
use spectatui::tmux::{SessionStatus, TmuxSession};
use spectatui::views::Region;
use spectatui::workflow::WorkflowStage;

fn key(code: KeyCode) -> KeyEvent {
    KeyEvent { code, ctrl: false }
}

fn feature(id: &str) -> Feature {
    Feature {
        id: id.to_string(),
        branch: None,
        dir: format!("specs/{id}"),
        artifacts: FeatureArtifacts::default(),
        stage: WorkflowStage::NotStarted,
    }
}

fn integration(key: &str, installed: bool, is_default: bool) -> IntegrationInfo {
    IntegrationInfo {
        key: key.to_string(),
        name: key.to_string(),
        installed,
        is_default,
        cli_required: true,
        version: None,
        description: String::new(),
    }
}

fn app_with_features(n: usize) -> App {
    let project = Project {
        root: "/work/my-project".to_string(),
        constitution: None,
        features: (0..n).map(|i| feature(&format!("00{i}-feat"))).collect(),
        extensions: Vec::new(),
        presets: Vec::new(),
        integrations: vec![integration("alpha", true, true), integration("gemini", false, false)],
        workflows: Vec::new(),
    };
    App::new(project, AppConfig::default())
}

#[test]
fn new_app_names_the_project_after_its_directory() {
    let app = app_with_features(0);
    assert_eq!(app.project_name, "my-project");
    assert_eq!(app.project_path, "/work/my-project");
    assert!(key_allowed(&app, key(KeyCode::Enter)));
}

#[test]
fn ctrl_c_quits_from_anywhere() {
    let mut app = app_with_features(1);
    app.open_palette();
    let e = handle_key(&mut app, KeyEvent { code: KeyCode::Char('c'), ctrl: true });
    assert!(matches!(e, Effect::Nothing));
    assert!(app.should_quit);
}

#[test]
fn down_then_up_restores_feature_selection() {
    let mut app = app_with_features(3);
    handle_key(&mut app, key(KeyCode::Down));
    assert_eq!(app.feature_index, 1);
    handle_key(&mut app, key(KeyCode::Up));
    assert_eq!(app.feature_index, 0);
    handle_key(&mut app, key(KeyCode::Up));
    assert_eq!(app.feature_index, 2, "wraps before the start");
}

#[test]
fn q_asks_before_quitting() {
    let mut app = app_with_features(0);
    handle_key(&mut app, key(KeyCode::Char('q')));
    assert_eq!(app.active_popup, Some(PopupKind::QuitConfirm));
    assert!(!app.should_quit);
    handle_key(&mut app, key(KeyCode::Enter));
    assert!(app.should_quit);
}

#[test]
fn theme_key_toggles_and_requests_save() {
    let mut app = app_with_features(0);
    handle_key(&mut app, key(KeyCode::Char('t')));
    assert_eq!(app.theme_mode, ThemeMode::Light);
    assert_eq!(app.config.theme, "light");
    assert!(app.save_request);
}

#[test]
fn palette_filters_by_label_case_insensitively() {
    let mut app = app_with_features(0);
    handle_key(&mut app, key(KeyCode::Char(':')));
    for c in "LAYOUT: COD".chars() {
        handle_key(&mut app, key(KeyCode::Char(c)));
    }
    handle_key(&mut app, key(KeyCode::Enter));
    assert!(app.palette.is_none());
    assert_eq!(app.layout, DashboardLayout::Coding);
    assert_eq!(app.screen, Screen::Dashboard);
}

#[test]
fn palette_lists_every_command() {
    let cmds = palette_commands();
    assert_eq!(cmds.len(), 19);
    assert_eq!(cmds[0].label, "Go to Dashboard");
    assert!(matches!(cmds[18].action, PaletteAction::Quit));
}

#[test]
fn integration_install_needs_confirmation_and_spawns_on_enter() {
    let mut app = app_with_features(0);
    handle_key(&mut app, key(KeyCode::Char('i')));
    assert_eq!(app.active_popup, Some(PopupKind::Integrations));
    handle_key(&mut app, key(KeyCode::Down));
    assert_eq!(app.integration_index, 1);
    handle_key(&mut app, key(KeyCode::Char('i')));
    assert_eq!(app.active_popup, Some(PopupKind::CliConfirm));
    let e = handle_key(&mut app, key(KeyCode::Enter));
    match e {
        Effect::Spawn(action) => assert_eq!(action.to_command_line(), "specify integration install gemini"),
        _ => panic!("expected a job to start"),
    }
    assert_eq!(app.active_popup, Some(PopupKind::CliOutput));
    assert!(!app.can_start_cli_action());
}

#[test]
fn filter_narrows_integrations_by_typed_text() {
    let mut app = app_with_features(0);
    handle_key(&mut app, key(KeyCode::Char('i')));
    handle_key(&mut app, key(KeyCode::Char('/')));
    for c in "GEM".chars() {
        handle_key(&mut app, key(KeyCode::Char(c)));
    }
    assert_eq!(app.filter_query, "GEM");
    let shown = app.filtered_integrations();
    assert_eq!(shown.len(), 1);
    assert_eq!(shown[0].key, "gemini");
    handle_key(&mut app, key(KeyCode::Esc));
    assert_eq!(app.filter_query, "");
    assert!(!app.filter_active);
}

#[test]
fn settings_chip_click_sets_layout() {
    let mut app = app_with_features(0);
    execute_click_action(&mut app, ClickAction::SettingsChip(SettingsRow::DashboardLayout, 2));
    assert_eq!(app.layout, DashboardLayout::Audit);
    assert_eq!(app.settings_index, 2);
}

#[test]
fn settings_accent_chip_cycles_to_the_named_accent() {
    let mut app = app_with_features(0);
    app.settings_set_value(SettingsRow::Accent, "amber");
    assert_eq!(app.accent_label(), "amber");
    assert_eq!(app.config.accent, "amber");
    assert_eq!(app.settings_value_str(SettingsRow::Accent), "amber");
}

#[test]
fn settings_tmux_prefix_is_edited_inline() {
    let mut app = app_with_features(0);
    app.enter_settings();
    app.settings_index = 6;
    app.settings_primary_action();
    assert_eq!(app.settings_editing, Some(6));
    app.settings_edit_push('x');
    assert_eq!(app.config.tmux_prefix, "spectatui-x");
    app.settings_edit_backspace();
    assert_eq!(app.config.tmux_prefix, "spectatui-");
}

#[test]
fn moving_the_config_location_records_the_old_one() {
    let mut app = app_with_features(0);
    app.settings_set_value(SettingsRow::ConfigPath, "~/.spectatui.toml");
    assert_eq!(app.config.config_location, "~/.spectatui.toml");
    assert_eq!(app.relocate_request.as_deref(), Some("./.spectatui.toml"));
}

#[test]
fn click_hits_the_topmost_region() {
    let mut app = app_with_features(0);
    let r = Region { x: 0, y: 0, width: 10, height: 2 };
    app.register_click(r, ClickAction::SetSpecTab(SpecTab::Plan));
    app.register_click(r, ClickAction::OpenPopup(PopupKind::Help));
    assert_eq!(app.hit_test(3, 1), Some(ClickAction::OpenPopup(PopupKind::Help)));
    assert_eq!(app.hit_test(3, 2), None);
    handle_mouse(&mut app, MouseEvent { kind: MouseKind::LeftDown, column: 3, row: 1 });
    assert_eq!(app.active_popup, Some(PopupKind::Help));
}

#[test]
fn attach_screen_sends_typed_text_to_the_session() {
    let mut app = app_with_features(1);
    app.apply_tmux(
        vec!["spectatui-000-feat".to_string()],
        Some(TmuxSession {
            name: "spectatui-000-feat".to_string(),
            pane_id: "%1".to_string(),
            status: SessionStatus::Running,
            last_snapshot: Vec::new(),
        }),
    );
    assert_eq!(app.running_features, vec!["000-feat".to_string()]);
    handle_key(&mut app, key(KeyCode::Char('a')));
    assert_eq!(app.screen, Screen::SessionAttach);
    handle_key(&mut app, key(KeyCode::Char('y')));
    let e = handle_key(&mut app, key(KeyCode::Enter));
    match e {
        Effect::SendKeys { target, text } => {
            assert_eq!(target, "spectatui-000-feat");
            assert_eq!(text, "y");
        },
        _ => panic!("expected keys to be sent"),
    }
    assert_eq!(app.attach_input, "");
}

#[test]
fn layout_editor_toggles_the_pane_under_the_cursor() {
    let mut app = app_with_features(0);
    app.layout_editor_active = true;
    handle_key(&mut app, key(KeyCode::Down));
    handle_key(&mut app, key(KeyCode::Char(' ')));
    assert!(!app.custom_layout.panes[1].visible);
    handle_key(&mut app, key(KeyCode::Enter));
    assert!(!app.layout_editor_active);
    assert_eq!(app.layout, DashboardLayout::Custom);
    assert!(app.config.custom_layout.is_some());
    assert!(app.save_request);
}

#[test]
fn ctrl_c_quits_even_with_an_oversized_custom_pane() {
    let mut app = app_with_features(1);
    for p in app.custom_layout.panes.iter_mut() {
        p.size = 127;
    }
    app.layout_editor_active = true;
    let ctrl_c = KeyEvent { code: KeyCode::Char('c'), ctrl: true };
    assert!(key_allowed(&app, ctrl_c));
    assert!(matches!(handle_key(&mut app, ctrl_c), Effect::Nothing));
    assert!(app.should_quit);
}

#[test]
fn only_growing_an_oversized_pane_is_refused() {
    let mut app = app_with_features(1);
    for p in app.custom_layout.panes.iter_mut() {
        p.size = 127;
    }
    app.layout_editor_active = true;
    assert!(!key_allowed(&app, key(KeyCode::Char('+'))));
    assert!(!key_allowed(&app, key(KeyCode::Char('='))));
    assert!(key_allowed(&app, key(KeyCode::Char('-'))));
    assert!(key_allowed(&app, key(KeyCode::Char(' '))));
    assert!(key_allowed(&app, key(KeyCode::Down)));
    handle_key(&mut app, key(KeyCode::Char('-')));
    assert!(app.custom_layout.panes.iter().any(|p| p.size == 4));
}

#[test]
fn settings_keys_need_a_selected_row_only_where_they_use_it() {
    let mut app = app_with_features(1);
    app.screen = Screen::Settings;
    app.settings_index = 12;
    assert!(!key_allowed(&app, key(KeyCode::Left)));
    assert!(!key_allowed(&app, key(KeyCode::Enter)));
    assert!(key_allowed(&app, key(KeyCode::Down)));
    handle_key(&mut app, key(KeyCode::Down));
    assert_eq!(app.settings_index, 3);
    app.screen = Screen::Dashboard;
    app.settings_index = 12;
    assert!(key_allowed(&app, key(KeyCode::Enter)));
}

#[test]
fn mouse_scroll_works_with_an_oversized_custom_pane() {
    let mut app = app_with_features(3);
    for p in app.custom_layout.panes.iter_mut() {
        p.size = 128;
    }
    handle_mouse(&mut app, MouseEvent { kind: MouseKind::ScrollDown, column: 0, row: 0 });
    assert_eq!(app.feature_index, 1);
}
