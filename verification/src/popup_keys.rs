//! Keys while a popup is open.
use vstd::prelude::*;
use crate::app::{kept_extensions, kept_presets, kept_workflows, App, ExtTab, PopupKind, Screen};
use crate::cli::{CliAction, CliTarget};
use crate::keys::{
    after_cli_scroll_down, after_cli_scroll_up, after_ext_next, after_ext_prev, after_next_feature,
    after_prev_feature, after_wf_next, after_wf_prev, confirm, confirm_asked, down_key, filter_key_done,
    filter_result, handle_filter_key, handle_integrations_key, integrations_key_done, is_char,
    job_shown, lemma_filter_key_frame, popup_closed, popup_shown, spawn, up_key, Effect, FilterKey,
    KeyCode, KeyEvent,
};

verus! {

// ---------------------------------------------------------------------------
// Workflows
// ---------------------------------------------------------------------------

/// The letter keys of the workflows popup on the selected workflow.
pub open spec fn workflow_char_done(a: App, b: App, c: char, id: String, installed: bool, last_run: Option<String>, e: Effect) -> bool {
    if c == 'a' && !installed {
        confirm_asked(a, b, CliAction::WorkflowAdd { source: id }) && e is Nothing
    } else if c == 'x' && installed {
        confirm_asked(a, b, CliAction::WorkflowRemove { id }) && e is Nothing
    } else if c == 'r' && installed {
        confirm_asked(a, b, CliAction::WorkflowRun { source: id }) && e is Nothing
    } else if c == 'R' && last_run is Some {
        confirm_asked(a, b, CliAction::WorkflowResume { run_id: last_run->0 }) && e is Nothing
    } else if c == 's' {
        confirm_asked(a, b, CliAction::WorkflowStatus { run_id: None }) && e is Nothing
    } else if c == 'i' {
        job_shown(a, b, CliAction::WorkflowGetInfo { id }) && e == Effect::Spawn(CliAction::WorkflowGetInfo { id })
    } else {
        b == a && e is Nothing
    }
}

#[verifier::spinoff_prover]
fn workflow_char(app: &mut App, c: char, id: String, installed: bool, last_run: Option<String>) -> (e: Effect)
    ensures
        workflow_char_done(*old(app), *final(app), c, id, installed, last_run, e),
{
    if c == 'a' && !installed {
        confirm(app, CliAction::WorkflowAdd { source: id });
        return Effect::Nothing;
    }
    if c == 'x' && installed {
        confirm(app, CliAction::WorkflowRemove { id });
        return Effect::Nothing;
    }
    if c == 'r' && installed {
        confirm(app, CliAction::WorkflowRun { source: id });
        return Effect::Nothing;
    }
    if c == 'R' {
        match last_run {
            Some(run_id) => {
                confirm(app, CliAction::WorkflowResume { run_id });
                return Effect::Nothing;
            },
            None => {},
        }
    }
    if c == 's' {
        confirm(app, CliAction::WorkflowStatus { run_id: None });
        return Effect::Nothing;
    }
    if c == 'i' {
        return spawn(app, CliAction::WorkflowGetInfo { id });
    }
    Effect::Nothing
}

/// Keys of the workflows popup once the filter let them through: Esc
/// closes, Up/Down move, and the letters act on the selected workflow.
#[verifier::opaque]
pub open spec fn workflow_action_done(a: App, b: App, k: KeyEvent, e: Effect) -> bool {
    let l = kept_workflows(a.project.workflows@, a.filter_query@);
    let has = a.wf_index < l.len();
    let wf = l[a.wf_index as int];
    if k.code == KeyCode::Esc {
        popup_closed(a, b) && e is Nothing
    } else if up_key(k) {
        b == after_wf_prev(a) && e is Nothing
    } else if down_key(k) {
        b == after_wf_next(a) && e is Nothing
    } else if k.code is Char && has {
        workflow_char_done(a, b, k.code->Char_0, wf.id, wf.installed, wf.last_run, e)
    } else {
        b == a && e is Nothing
    }
}

/// A key in the workflows popup.
pub open spec fn workflows_key_done(a: App, b: App, k: KeyEvent, e: Effect) -> bool {
    match filter_result(a, k) {
        FilterKey::ConsumedReset => b.wf_index == 0 && filter_key_done(
            a,
            App { wf_index: a.wf_index, ..b },
            k,
            FilterKey::ConsumedReset,
        ) && e is Nothing,
        FilterKey::Consumed => filter_key_done(a, b, k, FilterKey::Consumed) && e is Nothing,
        FilterKey::NotConsumed => workflow_action_done(a, b, k, e),
    }
}

#[verifier::spinoff_prover]
#[verifier::rlimit(60)]
pub fn handle_workflows_key(app: &mut App, k: KeyEvent) -> (e: Effect)
    ensures
        workflows_key_done(*old(app), *final(app), k, e),
{
    let ghost a = *app;
    let r = handle_filter_key(app, k);
    proof {
        lemma_filter_key_frame(a, *app, k, r);
    }
    match r {
        FilterKey::ConsumedReset => {
            app.wf_index = 0;
            return Effect::Nothing;
        },
        FilterKey::Consumed => {
            return Effect::Nothing;
        },
        FilterKey::NotConsumed => {},
    }
    let sel = {
        let l = app.filtered_workflows();
        if app.wf_index < l.len() {
            let wf = l[app.wf_index];
            Some((wf.id.clone(), wf.installed, wf.last_run.clone()))
        } else {
            None
        }
    };
    proof {
        let l = kept_workflows(a.project.workflows@, a.filter_query@);
        if a.wf_index < l.len() {
            let wf = l[a.wf_index as int];
            assert(sel == Some((wf.id, wf.installed, wf.last_run)));
        } else {
            assert(sel is None);
        }
    }
    if k.code == KeyCode::Esc {
        app.close_popup();
        assert(workflow_action_done(a, *app, k, Effect::Nothing)) by {
            reveal(workflow_action_done);
        }
        return Effect::Nothing;
    }
    if k.code == KeyCode::Up || k.code == KeyCode::Char('k') {
        app.wf_select_prev();
        assert(workflow_action_done(a, *app, k, Effect::Nothing)) by {
            reveal(workflow_action_done);
        }
        return Effect::Nothing;
    }
    if k.code == KeyCode::Down || k.code == KeyCode::Char('j') {
        app.wf_select_next();
        assert(workflow_action_done(a, *app, k, Effect::Nothing)) by {
            reveal(workflow_action_done);
        }
        return Effect::Nothing;
    }
    match (k.code, sel) {
        (KeyCode::Char(c), Some((id, installed, last_run))) => {
            let e = workflow_char(app, c, id, installed, last_run);
            assert(workflow_action_done(a, *app, k, e)) by {
                reveal(workflow_action_done);
            }
            e
        },
        _ => {
            assert(workflow_action_done(a, *app, k, Effect::Nothing)) by {
                reveal(workflow_action_done);
            }
            Effect::Nothing
        },
    }
}

// ---------------------------------------------------------------------------
// Extensions and presets
// ---------------------------------------------------------------------------

/// The CLI target of the extensions/presets popup's tab.
pub open spec fn tab_target(t: ExtTab) -> CliTarget {
    match t {
        ExtTab::Extensions => CliTarget::Extension,
        ExtTab::Presets => CliTarget::Preset,
    }
}

/// Id of the selected entry on the extensions/presets tab, if any.
pub open spec fn current_ext(a: App) -> Option<String> {
    match a.ext_tab {
        ExtTab::Extensions => {
            let l = kept_extensions(a.project.extensions@, a.filter_query@);
            if a.ext_index < l.len() { Some(l[a.ext_index as int].id) } else { None }
        },
        ExtTab::Presets => {
            let l = kept_presets(a.project.presets@, a.filter_query@);
            if a.preset_index < l.len() { Some(l[a.preset_index as int].id) } else { None }
        },
    }
}

/// Id of the selected entry on the extensions/presets tab, if any.
pub fn current_ext_id(app: &App) -> (r: Option<String>)
    ensures
        r == current_ext(*app),
{
    match app.ext_tab {
        ExtTab::Extensions => {
            let l = app.filtered_extensions();
            if app.ext_index < l.len() {
                Some(l[app.ext_index].id.clone())
            } else {
                None
            }
        },
        ExtTab::Presets => {
            let l = app.filtered_presets();
            if app.preset_index < l.len() {
                Some(l[app.preset_index].id.clone())
            } else {
                None
            }
        },
    }
}

/// The letter keys of the extensions/presets popup on the selected entry.
pub open spec fn ext_char_done(a: App, b: App, c: char, id: String, e: Effect) -> bool {
    let t = tab_target(a.ext_tab);
    &&& e is Nothing || (c == 'r' && a.ext_tab == ExtTab::Presets)
    &&& if c == 'a' {
        confirm_asked(a, b, CliAction::Add { target: t, id, priority: None, dev_path: None, from_url: None })
    } else if c == 'x' {
        confirm_asked(a, b, CliAction::Remove { target: t, id, keep_config: false, force: false })
    } else if c == 'e' {
        confirm_asked(a, b, CliAction::Enable { target: t, id })
    } else if c == 'd' {
        confirm_asked(a, b, CliAction::Disable { target: t, id })
    } else if c == 'u' && a.ext_tab == ExtTab::Extensions {
        confirm_asked(a, b, CliAction::Update { target: CliTarget::Extension, id: Some(id) })
    } else if c == 'p' {
        confirm_asked(a, b, CliAction::SetPriority { target: t, id, priority: 75 })
    } else if c == 'r' && a.ext_tab == ExtTab::Presets {
        job_shown(a, b, CliAction::Resolve { name: id }) && e == Effect::Spawn(CliAction::Resolve { name: id })
    } else {
        b == a
    }
}

#[verifier::spinoff_prover]
fn ext_char(app: &mut App, c: char, id: String) -> (e: Effect)
    ensures
        ext_char_done(*old(app), *final(app), c, id, e),
{
    let t = match app.ext_tab {
        ExtTab::Extensions => CliTarget::Extension,
        ExtTab::Presets => CliTarget::Preset,
    };
    if c == 'a' {
        confirm(app, CliAction::Add { target: t, id, priority: None, dev_path: None, from_url: None });
        return Effect::Nothing;
    }
    if c == 'x' {
        confirm(app, CliAction::Remove { target: t, id, keep_config: false, force: false });
        return Effect::Nothing;
    }
    if c == 'e' {
        confirm(app, CliAction::Enable { target: t, id });
        return Effect::Nothing;
    }
    if c == 'd' {
        confirm(app, CliAction::Disable { target: t, id });
        return Effect::Nothing;
    }
    if c == 'u' && app.ext_tab == ExtTab::Extensions {
        confirm(app, CliAction::Update { target: CliTarget::Extension, id: Some(id) });
        return Effect::Nothing;
    }
    if c == 'p' {
        confirm(app, CliAction::SetPriority { target: t, id, priority: 75 });
        return Effect::Nothing;
    }
    if c == 'r' && app.ext_tab == ExtTab::Presets {
        return spawn(app, CliAction::Resolve { name: id });
    }
    Effect::Nothing
}

/// Keys of the extensions/presets popup once the filter let them through:
/// Esc closes, Tab switches to the other tab's popup, Up/Down move, and the
/// letters act on the selected entry.
#[verifier::opaque]
pub open spec fn ext_action_done(a: App, b: App, k: KeyEvent, e: Effect) -> bool {
    if k.code == KeyCode::Esc {
        popup_closed(a, b) && e is Nothing
    } else if k.code == KeyCode::Tab || k.code == KeyCode::BackTab {
        popup_shown(a, b, if a.ext_tab == ExtTab::Extensions { PopupKind::Presets } else { PopupKind::Extensions })
            && e is Nothing
    } else if up_key(k) {
        b == after_ext_prev(a) && e is Nothing
    } else if down_key(k) {
        b == after_ext_next(a) && e is Nothing
    } else if k.code is Char && current_ext(a) is Some {
        ext_char_done(a, b, k.code->Char_0, current_ext(a)->0, e)
    } else {
        b == a && e is Nothing
    }
}

/// A key in the extensions or presets popup.
pub open spec fn ext_preset_key_done(a: App, b: App, k: KeyEvent, e: Effect) -> bool {
    match filter_result(a, k) {
        FilterKey::ConsumedReset => b.ext_index == 0 && b.preset_index == 0 && filter_key_done(
            a,
            App { ext_index: a.ext_index, preset_index: a.preset_index, ..b },
            k,
            FilterKey::ConsumedReset,
        ) && e is Nothing,
        FilterKey::Consumed => filter_key_done(a, b, k, FilterKey::Consumed) && e is Nothing,
        FilterKey::NotConsumed => ext_action_done(a, b, k, e),
    }
}

#[verifier::spinoff_prover]
#[verifier::rlimit(60)]
pub fn handle_ext_preset_popup_key(app: &mut App, k: KeyEvent) -> (e: Effect)
    ensures
        ext_preset_key_done(*old(app), *final(app), k, e),
{
    let ghost a = *app;
    let r = handle_filter_key(app, k);
    proof {
        lemma_filter_key_frame(a, *app, k, r);
    }
    match r {
        FilterKey::ConsumedReset => {
            app.ext_index = 0;
            app.preset_index = 0;
            return Effect::Nothing;
        },
        FilterKey::Consumed => {
            return Effect::Nothing;
        },
        FilterKey::NotConsumed => {},
    }
    if k.code == KeyCode::Esc {
        app.close_popup();
        assert(ext_action_done(a, *app, k, Effect::Nothing)) by {
            reveal(ext_action_done);
        }
        return Effect::Nothing;
    }
    if k.code == KeyCode::Tab || k.code == KeyCode::BackTab {
        let next = match app.ext_tab {
            ExtTab::Extensions => PopupKind::Presets,
            ExtTab::Presets => PopupKind::Extensions,
        };
        app.open_popup(next);
        assert(ext_action_done(a, *app, k, Effect::Nothing)) by {
            reveal(ext_action_done);
        }
        return Effect::Nothing;
    }
    if k.code == KeyCode::Up || k.code == KeyCode::Char('k') {
        app.ext_select_prev();
        assert(ext_action_done(a, *app, k, Effect::Nothing)) by {
            reveal(ext_action_done);
        }
        return Effect::Nothing;
    }
    if k.code == KeyCode::Down || k.code == KeyCode::Char('j') {
        app.ext_select_next();
        assert(ext_action_done(a, *app, k, Effect::Nothing)) by {
            reveal(ext_action_done);
        }
        return Effect::Nothing;
    }
    let id = current_ext_id(app);
    match (k.code, id) {
        (KeyCode::Char(c), Some(id)) => {
            let e = ext_char(app, c, id);
            assert(ext_action_done(a, *app, k, e)) by {
                reveal(ext_action_done);
            }
            e
        },
        _ => {
            assert(ext_action_done(a, *app, k, Effect::Nothing)) by {
                reveal(ext_action_done);
            }
            Effect::Nothing
        },
    }
}

// ---------------------------------------------------------------------------
// The remaining popups, and the dispatch by popup
// ---------------------------------------------------------------------------

/// Features popup: Esc closes, Up/Down select a feature, Enter closes and
/// returns to the dashboard.
pub open spec fn features_key_done(a: App, b: App, k: KeyEvent) -> bool {
    if k.code == KeyCode::Esc {
        popup_closed(a, b)
    } else if up_key(k) {
        b == after_prev_feature(a)
    } else if down_key(k) {
        b == after_next_feature(a)
    } else if k.code == KeyCode::Enter {
        b.screen == Screen::Dashboard && popup_closed(a, App { screen: a.screen, ..b })
    } else {
        b == a
    }
}

#[verifier::spinoff_prover]
#[verifier::rlimit(40)]
fn handle_features_key(app: &mut App, k: KeyEvent)
    ensures
        features_key_done(*old(app), *final(app), k),
{
    if k.code == KeyCode::Esc {
        app.close_popup();
    } else if k.code == KeyCode::Up || k.code == KeyCode::Char('k') {
        app.select_prev_feature();
    } else if k.code == KeyCode::Down || k.code == KeyCode::Char('j') {
        app.select_next_feature();
    } else if k.code == KeyCode::Enter {
        app.close_popup();
        app.screen = Screen::Dashboard;
    }
}

/// Quit popup: `q` or Enter quits, Esc closes.
pub open spec fn quit_key_done(a: App, b: App, k: KeyEvent) -> bool {
    if is_char(k, 'q') || k.code == KeyCode::Enter {
        b == (App { should_quit: true, ..a })
    } else if k.code == KeyCode::Esc {
        popup_closed(a, b)
    } else {
        b == a
    }
}

#[verifier::spinoff_prover]
fn handle_quit_key(app: &mut App, k: KeyEvent)
    ensures
        quit_key_done(*old(app), *final(app), k),
{
    if k.code == KeyCode::Char('q') || k.code == KeyCode::Enter {
        app.should_quit = true;
    } else if k.code == KeyCode::Esc {
        app.close_popup();
    }
}

/// Confirm popup: Enter starts the pending action, `f` toggles `--force`,
/// Esc drops the action and closes.
pub open spec fn cli_confirm_key_done(a: App, b: App, k: KeyEvent, e: Effect) -> bool {
    if k.code == KeyCode::Enter {
        match a.pending_action {
            Some(act) => job_shown(App { pending_action: None, ..a }, b, act) && e == Effect::Spawn(act),
            None => b == a && e is Nothing,
        }
    } else if is_char(k, 'f') {
        b == (App { force_flag: !a.force_flag, ..a }) && e is Nothing
    } else if k.code == KeyCode::Esc {
        popup_closed(App { pending_action: None, ..a }, b) && e is Nothing
    } else {
        b == a && e is Nothing
    }
}

#[verifier::spinoff_prover]
#[verifier::rlimit(40)]
fn handle_cli_confirm_key(app: &mut App, k: KeyEvent) -> (e: Effect)
    ensures
        cli_confirm_key_done(*old(app), *final(app), k, e),
{
    if k.code == KeyCode::Enter {
        match app.pending_action.take() {
            Some(act) => {
                return spawn(app, act);
            },
            None => {
                return Effect::Nothing;
            },
        }
    }
    if k.code == KeyCode::Char('f') {
        app.force_flag = !app.force_flag;
        return Effect::Nothing;
    }
    if k.code == KeyCode::Esc {
        app.pending_action = None;
        app.close_popup();
        return Effect::Nothing;
    }
    Effect::Nothing
}

/// CLI output popup: Up/Down scroll, Esc closes.
pub open spec fn cli_output_key_done(a: App, b: App, k: KeyEvent) -> bool {
    if up_key(k) {
        b == after_cli_scroll_up(a)
    } else if down_key(k) {
        b == after_cli_scroll_down(a)
    } else if k.code == KeyCode::Esc {
        popup_closed(a, b)
    } else {
        b == a
    }
}

#[verifier::spinoff_prover]
fn handle_cli_output_key(app: &mut App, k: KeyEvent)
    ensures
        cli_output_key_done(*old(app), *final(app), k),
{
    if k.code == KeyCode::Up || k.code == KeyCode::Char('k') {
        app.cli_scroll_up();
    } else if k.code == KeyCode::Down || k.code == KeyCode::Char('j') {
        app.cli_scroll_down();
    } else if k.code == KeyCode::Esc {
        app.close_popup();
    }
}

/// A key while a popup is open, by popup.
#[verifier::opaque]
pub open spec fn popup_key_done(a: App, b: App, k: KeyEvent, e: Effect) -> bool {
    match a.active_popup->0 {
        PopupKind::QuitConfirm => quit_key_done(a, b, k) && e is Nothing,
        PopupKind::CliConfirm => cli_confirm_key_done(a, b, k, e),
        PopupKind::CliOutput => cli_output_key_done(a, b, k) && e is Nothing,
        PopupKind::Integrations => integrations_key_done(a, b, k, e),
        PopupKind::Workflows => workflows_key_done(a, b, k, e),
        PopupKind::Features => features_key_done(a, b, k) && e is Nothing,
        PopupKind::Extensions => ext_preset_key_done(a, b, k, e),
        PopupKind::Presets => ext_preset_key_done(a, b, k, e),
        _ => (if k.code == KeyCode::Esc { popup_closed(a, b) } else { b == a }) && e is Nothing,
    }
}

/// Handles a key while a popup is open.
#[verifier::spinoff_prover]
#[verifier::rlimit(60)]
pub fn handle_popup_key(app: &mut App, k: KeyEvent) -> (e: Effect)
    requires
        old(app).active_popup is Some,
    ensures
        popup_key_done(*old(app), *final(app), k, e),
{
    let ghost a = *app;
    let popup = match app.active_popup {
        Some(p) => p,
        None => {
            return Effect::Nothing;
        },
    };
    match popup {
        PopupKind::QuitConfirm => {
            handle_quit_key(app, k);
            assert(popup_key_done(a, *app, k, Effect::Nothing)) by {
                reveal(popup_key_done);
            }
            Effect::Nothing
        },
        PopupKind::CliConfirm => {
            let e = handle_cli_confirm_key(app, k);
            assert(popup_key_done(a, *app, k, e)) by {
                reveal(popup_key_done);
            }
            e
        },
        PopupKind::CliOutput => {
            handle_cli_output_key(app, k);
            assert(popup_key_done(a, *app, k, Effect::Nothing)) by {
                reveal(popup_key_done);
            }
            Effect::Nothing
        },
        PopupKind::Integrations => {
            let e = handle_integrations_key(app, k);
            assert(popup_key_done(a, *app, k, e)) by {
                reveal(popup_key_done);
            }
            e
        },
        PopupKind::Workflows => {
            let e = handle_workflows_key(app, k);
            assert(popup_key_done(a, *app, k, e)) by {
                reveal(popup_key_done);
            }
            e
        },
        PopupKind::Features => {
            handle_features_key(app, k);
            assert(popup_key_done(a, *app, k, Effect::Nothing)) by {
                reveal(popup_key_done);
            }
            Effect::Nothing
        },
        PopupKind::Extensions | PopupKind::Presets => {
            let e = handle_ext_preset_popup_key(app, k);
            assert(popup_key_done(a, *app, k, e)) by {
                reveal(popup_key_done);
            }
            e
        },
        _ => {
            if k.code == KeyCode::Esc {
                app.close_popup();
            }
            assert(popup_key_done(a, *app, k, Effect::Nothing)) by {
                reveal(popup_key_done);
            }
            Effect::Nothing
        },
    }
}

} // verus!
