use spectatui::app::{parse_catalog_add_input, App, PopupKind};
use spectatui::cli::{CliAction, CliJob, JobStatus};
use spectatui::config::AppConfig;
use spectatui::registry::{CatalogSource, CatalogTarget};
use spectatui::speckit::Project;

fn test_app() -> App {
    let project = Project {
        root: ".".to_string(),
        constitution: None,
        features: Vec::new(),
        extensions: Vec::new(),
        presets: Vec::new(),
        integrations: Vec::new(),
        workflows: Vec::new(),
    };
    App::new(project, AppConfig::default())
}

fn test_source(name: &str) -> CatalogSource {
    CatalogSource {
        name: name.to_string(),
        url: format!("https://example.com/{name}.json"),
        priority: None,
        install_allowed: true,
    }
}

#[test]
fn can_start_when_no_job() {
    let app = test_app();
    assert!(app.can_start_cli_action());
}

#[test]
fn cannot_start_when_job_pending_or_running() {
    let mut app = test_app();
    app.cli_job = Some(CliJob::new(CliAction::SelfCheck));
    assert!(!app.can_start_cli_action());

    let mut job = CliJob::new(CliAction::SelfCheck);
    job.status = JobStatus::Running;
    app.cli_job = Some(job);
    assert!(!app.can_start_cli_action());
}

#[test]
fn can_start_again_after_job_succeeded_or_failed() {
    let mut app = test_app();
    let mut job = CliJob::new(CliAction::SelfCheck);
    job.status = JobStatus::Succeeded;
    app.cli_job = Some(job);
    assert!(app.can_start_cli_action());

    let mut job = CliJob::new(CliAction::SelfCheck);
    job.status = JobStatus::Failed;
    app.cli_job = Some(job);
    assert!(app.can_start_cli_action());
}

#[test]
fn cat_select_next_prev_wrap_around() {
    let mut app = test_app();
    app.set_catalog_sources(
        CatalogTarget::Extension,
        vec![test_source("a"), test_source("b"), test_source("c")],
    );
    assert_eq!(app.cat_index, 0);
    app.cat_select_next();
    assert_eq!(app.cat_index, 1);
    app.cat_select_next();
    assert_eq!(app.cat_index, 2);
    app.cat_select_next();
    assert_eq!(app.cat_index, 0, "wraps past the end");
    app.cat_select_prev();
    assert_eq!(app.cat_index, 2, "wraps before the start");
}

#[test]
fn cat_select_next_prev_noop_on_empty_list() {
    let mut app = test_app();
    assert!(app.current_catalog_list().is_empty());
    app.cat_select_next();
    assert_eq!(app.cat_index, 0);
    app.cat_select_prev();
    assert_eq!(app.cat_index, 0);
}

#[test]
fn parse_catalog_add_input_with_priority() {
    let (url, name, priority) =
        parse_catalog_add_input("https://example.com/cat.json community 5").unwrap();
    assert_eq!(url, "https://example.com/cat.json");
    assert_eq!(name, "community");
    assert_eq!(priority, Some(5));
}

#[test]
fn parse_catalog_add_input_without_priority() {
    let (url, name, priority) =
        parse_catalog_add_input("https://example.com/cat.json community").unwrap();
    assert_eq!(url, "https://example.com/cat.json");
    assert_eq!(name, "community");
    assert_eq!(priority, None);
}

#[test]
fn parse_catalog_add_input_rejects_missing_name() {
    assert!(parse_catalog_add_input("https://example.com/cat.json").is_none());
    assert!(parse_catalog_add_input("").is_none());
    assert!(parse_catalog_add_input("   ").is_none());
}

#[test]
fn cat_add_insert_str_appends_and_advances_cursor() {
    let mut app = test_app();
    app.cat_add_input = Some(String::new());
    app.cat_add_insert_str("abc");
    assert_eq!(app.cat_add_input.as_deref(), Some("abc"));
    assert_eq!(app.cat_add_cursor, 3);
}

#[test]
fn cat_add_insert_str_inserts_at_cursor_not_just_at_end() {
    let mut app = test_app();
    app.cat_add_input = Some("ac".to_string());
    app.cat_add_cursor = 1;
    app.cat_add_insert_str("b");
    assert_eq!(app.cat_add_input.as_deref(), Some("abc"));
    assert_eq!(app.cat_add_cursor, 2);
}

#[test]
fn cat_add_insert_str_strips_newlines() {
    let mut app = test_app();
    app.cat_add_input = Some(String::new());
    app.cat_add_insert_str("a\nb\r\nc");
    assert_eq!(app.cat_add_input.as_deref(), Some("abc"));
    assert_eq!(app.cat_add_cursor, 3);
}

#[test]
fn cat_add_backspace_removes_char_before_cursor() {
    let mut app = test_app();
    app.cat_add_input = Some("abc".to_string());
    app.cat_add_cursor = 2;
    app.cat_add_backspace();
    assert_eq!(app.cat_add_input.as_deref(), Some("ac"));
    assert_eq!(app.cat_add_cursor, 1);
}

#[test]
fn cat_add_backspace_noop_at_start() {
    let mut app = test_app();
    app.cat_add_input = Some("abc".to_string());
    app.cat_add_cursor = 0;
    app.cat_add_backspace();
    assert_eq!(app.cat_add_input.as_deref(), Some("abc"));
    assert_eq!(app.cat_add_cursor, 0);
}

#[test]
fn cat_add_delete_forward_removes_char_at_cursor() {
    let mut app = test_app();
    app.cat_add_input = Some("abc".to_string());
    app.cat_add_cursor = 1;
    app.cat_add_delete_forward();
    assert_eq!(app.cat_add_input.as_deref(), Some("ac"));
    assert_eq!(app.cat_add_cursor, 1, "cursor doesn't move on forward-delete");
}

#[test]
fn cat_add_delete_forward_noop_at_end() {
    let mut app = test_app();
    app.cat_add_input = Some("abc".to_string());
    app.cat_add_cursor = 3;
    app.cat_add_delete_forward();
    assert_eq!(app.cat_add_input.as_deref(), Some("abc"));
}

#[test]
fn cat_add_move_left_right_clamp_at_bounds() {
    let mut app = test_app();
    app.cat_add_input = Some("abc".to_string());
    app.cat_add_cursor = 0;
    app.cat_add_move_left();
    assert_eq!(app.cat_add_cursor, 0, "clamped at start");
    app.cat_add_move_right();
    app.cat_add_move_right();
    app.cat_add_move_right();
    app.cat_add_move_right();
    assert_eq!(app.cat_add_cursor, 3, "clamped at end");
}

#[test]
fn cat_add_move_home_end() {
    let mut app = test_app();
    app.cat_add_input = Some("abc".to_string());
    app.cat_add_cursor = 1;
    app.cat_add_move_home();
    assert_eq!(app.cat_add_cursor, 0);
    app.cat_add_move_end();
    assert_eq!(app.cat_add_cursor, 3);
}

#[test]
fn cat_add_set_cursor_clamps_to_char_count() {
    let mut app = test_app();
    app.cat_add_input = Some("abc".to_string());
    app.cat_add_set_cursor(2);
    assert_eq!(app.cat_add_cursor, 2);
    app.cat_add_set_cursor(999);
    assert_eq!(app.cat_add_cursor, 3, "clamped to char count");
}

#[test]
fn cat_add_clear_empties_input_and_resets_cursor_but_stays_open() {
    let mut app = test_app();
    app.cat_add_input = Some("https://example.com/cat.json community".to_string());
    app.cat_add_cursor = 10;
    app.cat_add_clear();
    assert_eq!(app.cat_add_input.as_deref(), Some(""));
    assert_eq!(app.cat_add_cursor, 0);
    assert!(app.cat_add_input.is_some(), "form stays open, unlike Esc which cancels it");
}

#[test]
fn cat_add_open_prefills_from_selected_discover_only_source_without_priority() {
    let mut app = test_app();
    let mut discover_only = test_source("b");
    discover_only.install_allowed = false;
    app.set_catalog_sources(CatalogTarget::Extension, vec![test_source("a"), discover_only]);
    app.cat_index = 1;
    app.cat_add_open();
    assert_eq!(app.cat_add_input.as_deref(), Some("https://example.com/b.json b"));
    assert_eq!(app.cat_add_cursor, "https://example.com/b.json b".chars().count());
}

#[test]
fn cat_add_open_prefills_priority_when_present() {
    let mut app = test_app();
    let mut source = test_source("community");
    source.install_allowed = false;
    source.priority = Some(5);
    app.set_catalog_sources(CatalogTarget::Extension, vec![source]);
    app.cat_add_open();
    assert_eq!(
        app.cat_add_input.as_deref(),
        Some("https://example.com/community.json community 5")
    );
}

#[test]
fn cat_add_open_is_empty_when_selected_source_is_already_installed() {
    let mut app = test_app();
    let installed = test_source("a");
    assert!(installed.install_allowed);
    app.set_catalog_sources(CatalogTarget::Extension, vec![installed]);
    app.cat_add_open();
    assert_eq!(
        app.cat_add_input.as_deref(),
        Some(""),
        "installed sources aren't prefilled — only discovery-only ones"
    );
    assert_eq!(app.cat_add_cursor, 0);
}

#[test]
fn cat_add_open_is_empty_when_nothing_selected() {
    let mut app = test_app();
    assert!(app.current_catalog_list().is_empty());
    app.cat_add_open();
    assert_eq!(app.cat_add_input.as_deref(), Some(""));
    assert_eq!(app.cat_add_cursor, 0);
}

#[test]
fn cat_add_insert_str_is_utf8_boundary_safe() {
    let mut app = test_app();
    app.cat_add_input = Some("héllo".to_string());
    app.cat_add_cursor = 2;
    app.cat_add_insert_str("X");
    assert_eq!(app.cat_add_input.as_deref(), Some("héXllo"));
    assert_eq!(app.cat_add_cursor, 3);
}

#[test]
fn set_catalog_sources_clamps_selection_after_shrink() {
    let mut app = test_app();
    app.set_catalog_sources(
        CatalogTarget::Extension,
        vec![test_source("a"), test_source("b"), test_source("c")],
    );
    app.cat_index = 2;
    app.set_catalog_sources(CatalogTarget::Extension, vec![test_source("a")]);
    assert_eq!(app.cat_index, 0);

    app.set_catalog_sources(CatalogTarget::Extension, Vec::new());
    assert_eq!(app.cat_index, 0);
}

#[test]
fn set_catalog_sources_does_not_clamp_inactive_tab() {
    let mut app = test_app();
    app.set_catalog_sources(CatalogTarget::Workflow, vec![test_source("a"), test_source("b")]);
    app.cat_tab = CatalogTarget::Workflow;
    app.cat_index = 1;
    app.set_catalog_sources(CatalogTarget::Extension, vec![test_source("x")]);
    assert_eq!(app.cat_index, 1);
}

#[test]
fn open_popup_catalogs_preserves_last_viewed_tab() {
    let mut app = test_app();
    app.cat_tab = CatalogTarget::Workflow;
    app.open_popup(PopupKind::Catalogs);
    assert_eq!(app.cat_tab, CatalogTarget::Workflow, "status-bar/keypress entry is sticky");
}

#[test]
fn open_catalogs_reset_to_extensions_always_resets() {
    let mut app = test_app();
    app.cat_tab = CatalogTarget::Workflow;
    app.open_catalogs_reset_to_extensions();
    assert_eq!(app.cat_tab, CatalogTarget::Extension, "palette entry always resets");
}

#[test]
fn current_catalog_list_is_scoped_to_active_tab() {
    let mut app = test_app();
    app.set_catalog_sources(CatalogTarget::Extension, vec![test_source("ext-a")]);
    app.set_catalog_sources(CatalogTarget::Workflow, vec![test_source("wf-a"), test_source("wf-b")]);
    assert_eq!(app.current_catalog_list().len(), 1);
    app.cat_tab = CatalogTarget::Workflow;
    assert_eq!(app.current_catalog_list().len(), 2);
}

#[test]
fn cat_add_prefill_parses_back_to_the_source() {
    let mut app = test_app();
    let mut source = test_source("community");
    source.install_allowed = false;
    source.priority = Some(75);
    app.set_catalog_sources(CatalogTarget::Extension, vec![source]);
    app.cat_add_open();
    let parsed = parse_catalog_add_input(app.cat_add_input.as_deref().unwrap());
    assert_eq!(
        parsed,
        Some(("https://example.com/community.json".to_string(), "community".to_string(), Some(75)))
    );
}
