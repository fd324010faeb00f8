use spectatui::speckit::{FeatureArtifacts, FeatureDir, Project};
use spectatui::watch::{fs_events, FsChange, FsEvent};
use spectatui::workflow::{ArtifactText, StageInputs, WorkflowStage};

fn dir(name: &str, inputs: StageInputs) -> FeatureDir {
    let mut artifacts = FeatureArtifacts::default();
    if let ArtifactText::Text(_) = inputs.spec {
        artifacts.spec = Some(format!("/p/specs/{name}/feature.md"));
    }
    FeatureDir { name: name.to_string(), dir: format!("/p/specs/{name}"), artifacts, inputs }
}

fn no_artifacts() -> StageInputs {
    StageInputs { spec: ArtifactText::Missing, plan_present: false, tasks: ArtifactText::Missing }
}

#[test]
fn discover_skips_hidden_dirs_and_orders_by_name() {
    let dirs = vec![
        dir("002-beta", no_artifacts()),
        dir(".scratch", no_artifacts()),
        dir(
            "001-alpha",
            StageInputs {
                spec: ArtifactText::Text("# Feature\n## Requirements\n".to_string()),
                plan_present: false,
                tasks: ArtifactText::Missing,
            },
        ),
    ];
    let p = Project::discover(
        "/p".to_string(),
        Some("/p/.specify/memory/constitution.md".to_string()),
        dirs,
        Vec::new(),
        Vec::new(),
        Vec::new(),
    );
    assert_eq!(p.root, "/p");
    assert_eq!(p.constitution.as_deref(), Some("/p/.specify/memory/constitution.md"));
    let ids: Vec<&str> = p.features.iter().map(|f| f.id.as_str()).collect();
    assert_eq!(ids, vec!["001-alpha", "002-beta"]);
    assert_eq!(p.features[0].branch.as_deref(), Some("001-alpha"));
    assert_eq!(p.features[0].dir, "/p/specs/001-alpha");
    assert_eq!(p.features[0].artifacts.spec.as_deref(), Some("/p/specs/001-alpha/feature.md"));
    assert_eq!(p.features[0].stage, WorkflowStage::Specified);
    assert_eq!(p.features[1].stage, WorkflowStage::NotStarted);
    assert!(p.workflows.is_empty());
}

#[test]
fn discover_with_no_specs_has_no_features() {
    let p = Project::discover("/p".to_string(), None, Vec::new(), Vec::new(), Vec::new(), Vec::new());
    assert!(p.features.is_empty());
    assert!(p.constitution.is_none());
}

fn change(settled: bool, path: &str) -> FsChange {
    FsChange { settled, path: path.to_string() }
}

#[test]
fn fs_events_report_each_tree_once_in_order() {
    let changes = vec![
        change(true, "/p/.specify/memory/constitution.md"),
        change(true, "/p/specs/001-a/feature.md"),
        change(true, "/p/specs/001-a/plan.md"),
    ];
    assert_eq!(
        fs_events(&changes, "/p/specs", "/p/.specify"),
        vec![FsEvent::SpecsChanged, FsEvent::SpecifyChanged]
    );
}

#[test]
fn fs_events_compare_whole_path_components() {
    let changes = vec![change(true, "/p/specs-old/notes.md"), change(true, "/p/.specify2/x")];
    assert!(fs_events(&changes, "/p/specs", "/p/.specify").is_empty());
}

#[test]
fn fs_events_ignore_unsettled_changes() {
    let changes = vec![change(false, "/p/specs/001-a/feature.md")];
    assert!(fs_events(&changes, "/p/specs", "/p/.specify").is_empty());
    let changes = vec![change(false, "/p/specs/a"), change(true, "/p/.specify/b")];
    assert_eq!(fs_events(&changes, "/p/specs", "/p/.specify"), vec![FsEvent::SpecifyChanged]);
}
