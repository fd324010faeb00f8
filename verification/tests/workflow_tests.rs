use spectatui::workflow::{infer_stage, ArtifactText, StageInputs, TasksProgress, WorkflowStage};

fn text(s: &str) -> ArtifactText {
    ArtifactText::Text(s.to_string())
}

#[test]
fn not_started_when_no_artifacts() {
    let inputs = StageInputs { spec: ArtifactText::Missing, plan_present: false, tasks: ArtifactText::Missing };
    assert_eq!(infer_stage(&inputs), WorkflowStage::NotStarted);
}

#[test]
fn specified_when_spec_only() {
    let inputs = StageInputs {
        spec: text("# Feature\n## Requirements\n"),
        plan_present: false,
        tasks: ArtifactText::Missing,
    };
    assert_eq!(infer_stage(&inputs), WorkflowStage::Specified);
}

#[test]
fn clarified_when_spec_has_clarifications() {
    let inputs = StageInputs {
        spec: text("# Feature\n## Clarifications\n\n1. Q: Foo? A: Bar.\n"),
        plan_present: false,
        tasks: ArtifactText::Missing,
    };
    assert_eq!(infer_stage(&inputs), WorkflowStage::Clarified);
}

#[test]
fn planned_when_plan_exists() {
    let inputs = StageInputs { spec: text("# Feature\n"), plan_present: true, tasks: ArtifactText::Missing };
    assert_eq!(infer_stage(&inputs), WorkflowStage::Planned);
}

#[test]
fn tasks_generated_when_no_checkboxes_done() {
    let inputs = StageInputs {
        spec: text("# Feature\n"),
        plan_present: true,
        tasks: text("# Tasks\n- [ ] T001 Do thing\n- [ ] T002 Do other\n"),
    };
    assert_eq!(infer_stage(&inputs), WorkflowStage::TasksGenerated);
}

#[test]
fn implementing_when_partial_tasks() {
    let inputs = StageInputs {
        spec: ArtifactText::Unreadable,
        plan_present: false,
        tasks: text("# Tasks\n- [x] T001 Done\n- [ ] T002 Pending\n"),
    };
    assert_eq!(infer_stage(&inputs), WorkflowStage::Implementing);
}

#[test]
fn implemented_when_all_tasks_done() {
    let inputs = StageInputs {
        spec: ArtifactText::Unreadable,
        plan_present: false,
        tasks: text("# Tasks\n- [x] T001 Done\n- [x] T002 Also done\n"),
    };
    assert_eq!(infer_stage(&inputs), WorkflowStage::Implemented);
}

#[test]
fn unknown_when_tasks_file_unrecognized() {
    let inputs = StageInputs {
        spec: text("# Feature\n"),
        plan_present: false,
        tasks: text("this is not a task list at all, just prose with no heading or checkboxes"),
    };
    assert_eq!(infer_stage(&inputs), WorkflowStage::Unknown);
}

#[test]
fn unknown_when_spec_file_unrecognized() {
    let inputs = StageInputs {
        spec: text("this is not a spec document, no headings or checklists here"),
        plan_present: false,
        tasks: ArtifactText::Missing,
    };
    assert_eq!(infer_stage(&inputs), WorkflowStage::Unknown);
}

#[test]
fn tasks_generated_when_empty_tasks_file() {
    let inputs = StageInputs { spec: text("# Feature\n"), plan_present: false, tasks: text("") };
    assert_eq!(infer_stage(&inputs), WorkflowStage::TasksGenerated);
}

#[test]
fn tasks_progress_counts_checked_items() {
    let progress = TasksProgress::from_file("- [x] A\n- [x] B\n- [ ] C\n- [ ] D\n").unwrap();
    assert_eq!(progress.done, 2);
    assert_eq!(progress.total, 4);
}

#[test]
fn tasks_progress_none_without_checklist() {
    assert!(TasksProgress::from_file("# Tasks\nnothing to do\n").is_none());
}
