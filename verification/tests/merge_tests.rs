use spectatui::app::App;
use spectatui::cli::CliEvent;
use spectatui::config::AppConfig;
use spectatui::registry::{ExtensionInfo, ExtensionSource, InstallStatus, IntegrationInfo};
use spectatui::speckit::Project;

fn ext(id: &str, name: &str, source: ExtensionSource, author: Option<&str>) -> ExtensionInfo {
    ExtensionInfo {
        id: id.to_string(),
        name: name.to_string(),
        version: "1.0.0".to_string(),
        status: InstallStatus::Enabled,
        priority: None,
        command_count: 0,
        source,
        author: author.map(|a| a.to_string()),
        description: String::new(),
    }
}

fn integ(key: &str, name: &str, description: &str) -> IntegrationInfo {
    IntegrationInfo {
        key: key.to_string(),
        name: name.to_string(),
        installed: false,
        is_default: false,
        cli_required: true,
        version: None,
        description: description.to_string(),
    }
}

fn app() -> App {
    let project = Project {
        root: ".".to_string(),
        constitution: None,
        features: Vec::new(),
        extensions: vec![ext("git", "git", ExtensionSource::Local, None)],
        presets: Vec::new(),
        integrations: vec![integ("alpha", "alpha", "")],
        workflows: Vec::new(),
    };
    App::new(project, AppConfig::default())
}

#[test]
fn merge_backfills_installed_and_appends_new() {
    let mut a = app();
    a.merge_catalog_results(
        vec![integ("alpha", "Alpha Agent", "the alpha agent"), integ("gemini", "Gemini CLI", "")],
        vec![ext("git", "Git helpers", ExtensionSource::Catalog("default".to_string()), Some("core"))],
        Vec::new(),
        Vec::new(),
    );
    assert!(!a.indexing);
    assert_eq!(a.project.integrations.len(), 2);
    assert_eq!(a.project.integrations[0].name, "Alpha Agent");
    assert_eq!(a.project.integrations[0].description, "the alpha agent");
    assert_eq!(a.project.integrations[1].key, "gemini");
    assert_eq!(a.project.extensions[0].name, "Git helpers");
    assert_eq!(a.project.extensions[0].author.as_deref(), Some("core"));
    assert!(matches!(a.project.extensions[0].source, ExtensionSource::Catalog(_)));
}

#[test]
fn applying_the_cache_again_changes_nothing() {
    let mut a = app();
    a.merge_catalog_results(
        vec![integ("alpha", "Alpha Agent", "x"), integ("gemini", "Gemini CLI", "")],
        vec![ext("new", "New", ExtensionSource::Url("u".to_string()), None)],
        Vec::new(),
        Vec::new(),
    );
    let names: Vec<String> = a.project.integrations.iter().map(|i| i.name.clone()).collect();
    let exts = a.project.extensions.len();
    a.apply_catalog_cache();
    let again: Vec<String> = a.project.integrations.iter().map(|i| i.name.clone()).collect();
    assert_eq!(names, again);
    assert_eq!(a.project.extensions.len(), exts);
}

#[test]
fn cli_events_update_the_job_and_report_success() {
    let mut a = app();
    a.show_cli_job(spectatui::cli::CliJob::new(spectatui::cli::CliAction::SelfCheck));
    let ok = a.record_cli_events(vec![
        CliEvent::OutputLine("checking".to_string()),
        CliEvent::Completed { success: true },
    ]);
    assert!(ok);
    let job = a.cli_job.as_ref().unwrap();
    assert_eq!(job.output, "checking");
    assert_eq!(job.status, spectatui::cli::JobStatus::Succeeded);
    assert!(a.can_start_cli_action());
}

#[test]
fn applying_the_cache_keeps_every_catalog_and_discovered_key() {
    let mut a = app();
    a.merge_catalog_results(
        vec![integ("gemini", "Gemini CLI", ""), integ("alpha", "Alpha", "")],
        vec![ext("new", "New", ExtensionSource::Url("u".to_string()), None)],
        Vec::new(),
        Vec::new(),
    );
    a.apply_catalog_cache();
    let keys: Vec<&str> = a.project.integrations.iter().map(|i| i.key.as_str()).collect();
    assert_eq!(keys, vec!["alpha", "gemini"]);
    let ids: Vec<&str> = a.project.extensions.iter().map(|e| e.id.as_str()).collect();
    assert_eq!(ids, vec!["git", "new"]);
    assert!(a.project.workflows.is_empty());
}
