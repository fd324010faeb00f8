use spectatui::app::{App, PaletteState, PopupKind, Screen};
use spectatui::config::AppConfig;
use spectatui::hints::{hint_context, status_counts, HintContext};
use spectatui::registry::{InstallStatus, IntegrationInfo, WorkflowInfo};
use spectatui::speckit::Project;

fn empty_project() -> Project {
    Project {
        root: "/p".to_string(),
        constitution: None,
        features: Vec::new(),
        extensions: Vec::new(),
        presets: Vec::new(),
        integrations: Vec::new(),
        workflows: Vec::new(),
    }
}

fn integration(key: &str, installed: bool) -> IntegrationInfo {
    IntegrationInfo {
        key: key.to_string(),
        name: key.to_string(),
        installed,
        is_default: false,
        cli_required: true,
        version: None,
        description: String::new(),
    }
}

fn workflow(id: &str, installed: bool) -> WorkflowInfo {
    WorkflowInfo {
        id: id.to_string(),
        name: None,
        version: None,
        source: None,
        installed,
        description: String::new(),
        last_run: None,
    }
}

#[test]
fn hint_context_follows_the_state_in_priority_order() {
    let mut app = App::new(empty_project(), AppConfig::default());
    assert_eq!(hint_context(&app), HintContext::OnScreen(Screen::Dashboard));
    app.screen = Screen::Settings;
    assert_eq!(hint_context(&app), HintContext::OnScreen(Screen::Settings));
    app.active_popup = Some(PopupKind::Presets);
    assert_eq!(hint_context(&app), HintContext::ExtensionsPresets);
    app.active_popup = Some(PopupKind::Help);
    assert_eq!(hint_context(&app), HintContext::OtherPopup);
    app.palette = Some(PaletteState { input: String::new(), selected: 0 });
    assert_eq!(hint_context(&app), HintContext::Palette);
    app.layout_editor_active = true;
    assert_eq!(hint_context(&app), HintContext::LayoutEditor);
    app.filter_active = true;
    assert_eq!(hint_context(&app), HintContext::Filter);
}

#[test]
fn status_counts_count_installed_items() {
    let mut p = empty_project();
    p.integrations = vec![integration("a", true), integration("b", false), integration("c", true)];
    p.workflows = vec![workflow("w", false), workflow("x", true)];
    let c = status_counts(&p);
    assert_eq!(c.integrations, 2);
    assert_eq!(c.features, 0);
    assert_eq!(c.extensions, 0);
    assert_eq!(c.presets, 0);
    assert_eq!(c.workflows, 1);
    assert_ne!(InstallStatus::Enabled, InstallStatus::Available);
}
