use spectatui::cli::{CliAction, CliEvent, CliJob, CliTarget, JobStatus};
use spectatui::registry::CatalogTarget;

#[test]
fn catalog_list_command_line_covers_all_four_kinds() {
    assert_eq!(
        CliAction::CatalogList { target: CatalogTarget::Extension }.to_command_line(),
        "specify extension catalog list"
    );
    assert_eq!(
        CliAction::CatalogList { target: CatalogTarget::Preset }.to_command_line(),
        "specify preset catalog list"
    );
    assert_eq!(
        CliAction::CatalogList { target: CatalogTarget::Integration }.to_command_line(),
        "specify integration catalog list"
    );
    assert_eq!(
        CliAction::CatalogList { target: CatalogTarget::Workflow }.to_command_line(),
        "specify workflow catalog list"
    );
}

#[test]
fn catalog_add_command_line_for_newly_supported_kinds() {
    assert_eq!(
        CliAction::CatalogAdd {
            target: CatalogTarget::Integration,
            url: "https://example.com/cat.json".to_string(),
            name: "community".to_string(),
            priority: None,
            install_allowed: None,
        }
        .to_command_line(),
        "specify integration catalog add https://example.com/cat.json community"
    );
    assert_eq!(
        CliAction::CatalogAdd {
            target: CatalogTarget::Workflow,
            url: "https://example.com/cat.json".to_string(),
            name: "community".to_string(),
            priority: Some(5),
            install_allowed: None,
        }
        .to_command_line(),
        "specify workflow catalog add https://example.com/cat.json community --priority 5"
    );
}

#[test]
fn catalog_add_command_line_passes_install_allowed_flag_when_explicit() {
    assert_eq!(
        CliAction::CatalogAdd {
            target: CatalogTarget::Extension,
            url: "https://example.com/cat.json".to_string(),
            name: "community".to_string(),
            priority: Some(2),
            install_allowed: Some(true),
        }
        .to_command_line(),
        "specify extension catalog add https://example.com/cat.json community --priority 2 --install-allowed"
    );
    assert_eq!(
        CliAction::CatalogAdd {
            target: CatalogTarget::Preset,
            url: "https://example.com/cat.json".to_string(),
            name: "community".to_string(),
            priority: Some(2),
            install_allowed: Some(false),
        }
        .to_command_line(),
        "specify preset catalog add https://example.com/cat.json community --priority 2 --no-install-allowed"
    );
}

#[test]
fn catalog_remove_command_line_for_newly_supported_kinds() {
    assert_eq!(
        CliAction::CatalogRemove {
            target: CatalogTarget::Integration,
            name: "community".to_string(),
        }
        .to_command_line(),
        "specify integration catalog remove community"
    );
    assert_eq!(
        CliAction::CatalogRemove {
            target: CatalogTarget::Workflow,
            name: "community".to_string(),
        }
        .to_command_line(),
        "specify workflow catalog remove community"
    );
}

#[test]
fn add_command_line_with_every_option() {
    let a = CliAction::Add {
        target: CliTarget::Extension,
        id: "agent-context".to_string(),
        priority: Some(10),
        dev_path: Some("/tmp/ext".to_string()),
        from_url: None,
    };
    assert_eq!(a.to_command_line(), "specify extension add agent-context --priority 10 --dev /tmp/ext");
}

#[test]
fn destructive_actions_are_flagged() {
    assert!(CliAction::IntegrationUninstall { key: "alpha".to_string() }.is_destructive());
    assert!(!CliAction::SelfCheck.is_destructive());
}

#[test]
fn job_collects_output_and_status() {
    let mut job = CliJob::new(CliAction::SelfCheck);
    assert_eq!(job.status, JobStatus::Pending);
    assert_eq!(job.command_line, "specify self check");
    assert!(job.is_active());
    job.apply_event(CliEvent::OutputLine("one".to_string()));
    assert_eq!(job.status, JobStatus::Running);
    job.apply_event(CliEvent::OutputLine("two".to_string()));
    assert_eq!(job.output, "one\ntwo");
    job.apply_event(CliEvent::Completed { success: false });
    assert_eq!(job.status, JobStatus::Failed);
    assert!(!job.is_active());
}
