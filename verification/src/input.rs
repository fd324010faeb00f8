//! The dashboard's input handling as a whole: a key press or mouse event
//! changes the state and may ask for outside work.
use vstd::prelude::*;
use crate::app::{
    add_text, at_most, catalog_list, settings_row_options, settings_rows, topmost_hit, value_set,
    views_of, App, ClickAction, PaletteAction, Screen, SettingsRow,
};
use crate::keys::{
    after_enter_settings, handle_palette_key, palette_action_done, palette_hits, palette_key_done,
    palette_matches, popup_closed, popup_shown, execute_palette_action, Effect, KeyCode, KeyEvent,
    MouseEvent, MouseKind,
};
use crate::popup_keys::{handle_popup_key, popup_key_done};
use crate::screen_keys::{
    handle_layout_editor_key, handle_plain_key, layout_key_allowed, layout_key_done, layout_key_ok,
    plain_key_allowed, plain_key_done, plain_key_ok,
};

verus! {

/// Whether handling the key stays clear of the two places where the
/// dashboard's own arithmetic or indexing would fail: a resize key in the
/// layout editor on a pane whose size is at the end of the `i8` range, and
/// Left, Right or Enter on the settings screen with no settings row
/// selected. Ctrl-C, the palette, popups and every other key are fine in any
/// state.
pub open spec fn key_ok(a: App, k: KeyEvent) -> bool {
    if k.ctrl && k.code == KeyCode::Char('c') {
        true
    } else if a.palette is Some || a.active_popup is Some {
        true
    } else if a.layout_editor_active {
        layout_key_ok(a, k)
    } else {
        plain_key_ok(a, k)
    }
}

/// Whether the state and key meet `key_ok`.
pub fn key_allowed(app: &App, k: KeyEvent) -> (r: bool)
    ensures
        r == key_ok(*app, k),
{
    if k.ctrl && k.code == KeyCode::Char('c') {
        true
    } else if app.palette.is_some() || app.active_popup.is_some() {
        true
    } else if app.layout_editor_active {
        layout_key_allowed(app, k)
    } else {
        plain_key_allowed(app, k)
    }
}

/// A key press: Ctrl-C quits; otherwise the palette, an open popup or the
/// layout editor takes the key, in that order, and else the shared keys and
/// the screen's own keys.
#[verifier::opaque]
pub open spec fn key_done(a: App, b: App, k: KeyEvent, e: Effect) -> bool {
    if k.ctrl && k.code == KeyCode::Char('c') {
        b == (App { should_quit: true, ..a }) && e is Nothing
    } else if a.palette is Some {
        palette_key_done(a, b, k) && e is Nothing
    } else if a.active_popup is Some {
        popup_key_done(a, b, k, e)
    } else if a.layout_editor_active {
        layout_key_done(a, b, k) && e is Nothing
    } else {
        plain_key_done(a, b, k, e)
    }
}

/// Handles a key press.
#[verifier::spinoff_prover]
#[verifier::rlimit(40)]
pub fn handle_key(app: &mut App, k: KeyEvent) -> (e: Effect)
    requires
        key_ok(*old(app), k),
    ensures
        key_done(*old(app), *final(app), k, e),
{
    if k.ctrl && k.code == KeyCode::Char('c') {
        app.should_quit = true;
        assert(key_done(*old(app), *app, k, Effect::Nothing)) by {
            reveal(key_done);
        }
        return Effect::Nothing;
    }
    if app.palette.is_some() {
        handle_palette_key(app, k);
        assert(key_done(*old(app), *app, k, Effect::Nothing)) by {
            reveal(key_done);
        }
        return Effect::Nothing;
    }
    if app.active_popup.is_some() {
        let e = handle_popup_key(app, k);
        assert(key_done(*old(app), *app, k, e)) by {
            reveal(key_done);
        }
        return e;
    }
    if app.layout_editor_active {
        handle_layout_editor_key(app, k);
        assert(key_done(*old(app), *app, k, Effect::Nothing)) by {
            reveal(key_done);
        }
        return Effect::Nothing;
    }
    let e = handle_plain_key(app, k);
    assert(key_done(*old(app), *app, k, e)) by {
        reveal(key_done);
    }
    e
}

/// Position of a row on the settings screen.
pub open spec fn row_pos(r: SettingsRow) -> int {
    match r {
        SettingsRow::Theme => 0,
        SettingsRow::Accent => 1,
        SettingsRow::DashboardLayout => 2,
        SettingsRow::AgentTailFollow => 3,
        SettingsRow::MouseSupport => 4,
        SettingsRow::ConfirmForce => 5,
        SettingsRow::TmuxPrefix => 6,
        SettingsRow::CustomizePanes => 7,
        SettingsRow::AttachSession => 8,
        SettingsRow::ConfigPath => 9,
    }
}

fn row_position(r: SettingsRow) -> (i: usize)
    ensures
        i == row_pos(r),
        settings_rows()[i as int] == r,
{
    match r {
        SettingsRow::Theme => 0,
        SettingsRow::Accent => 1,
        SettingsRow::DashboardLayout => 2,
        SettingsRow::AgentTailFollow => 3,
        SettingsRow::MouseSupport => 4,
        SettingsRow::ConfirmForce => 5,
        SettingsRow::TmuxPrefix => 6,
        SettingsRow::CustomizePanes => 7,
        SettingsRow::AttachSession => 8,
        SettingsRow::ConfigPath => 9,
    }
}

/// Selection clicks: an entry is selected when the index is inside its list.
#[verifier::opaque]
pub open spec fn select_click_done(a: App, b: App, act: ClickAction) -> bool {
    match act {
        ClickAction::SelectFeature(i) => b == (if i < a.project.features@.len() {
            App { feature_index: i, spec_scroll: 0, ..a }
        } else {
            a
        }),
        ClickAction::SelectExt(i) => b == (if i < a.project.extensions@.len() { App { ext_index: i, ..a } } else { a }),
        ClickAction::SelectPreset(i) => b == (if i < a.project.presets@.len() { App { preset_index: i, ..a } } else { a }),
        ClickAction::SelectIntegration(i) => b == (if i < a.project.integrations@.len() {
            App { integration_index: i, ..a }
        } else {
            a
        }),
        ClickAction::SelectWorkflow(i) => b == (if i < a.project.workflows@.len() { App { wf_index: i, ..a } } else { a }),
        ClickAction::SelectCatalogSource(i) => b == (if i < catalog_list(a).len() { App { cat_index: i, ..a } } else { a }),
        ClickAction::SettingsSelect(i) => b == (if i < 10 { App { settings_index: i, ..a } } else { a }),
        ClickAction::LayoutEditorSelect(i) => b == (if i < a.custom_layout.panes@.len() {
            App { layout_editor_index: i, ..a }
        } else {
            a
        }),
        _ => b == a,
    }
}

pub open spec fn is_select_click(act: ClickAction) -> bool {
    ||| act is SelectFeature
    ||| act is SelectExt
    ||| act is SelectPreset
    ||| act is SelectIntegration
    ||| act is SelectWorkflow
    ||| act is SelectCatalogSource
    ||| act is SettingsSelect
    ||| act is LayoutEditorSelect
}

#[verifier::spinoff_prover]
#[verifier::rlimit(60)]
fn select_click(app: &mut App, act: ClickAction)
    requires
        is_select_click(act),
    ensures
        select_click_done(*old(app), *final(app), act),
{
    match act {
        ClickAction::SelectFeature(i) => {
            if i < app.project.features.len() {
                app.feature_index = i;
                app.spec_scroll = 0;
            }
        },
        ClickAction::SelectExt(i) => {
            if i < app.project.extensions.len() {
                app.ext_index = i;
            }
        },
        ClickAction::SelectPreset(i) => {
            if i < app.project.presets.len() {
                app.preset_index = i;
            }
        },
        ClickAction::SelectIntegration(i) => {
            if i < app.project.integrations.len() {
                app.integration_index = i;
            }
        },
        ClickAction::SelectWorkflow(i) => {
            if i < app.project.workflows.len() {
                app.wf_index = i;
            }
        },
        ClickAction::SelectCatalogSource(i) => {
            if i < app.current_catalog_list().len() {
                app.cat_index = i;
            }
        },
        ClickAction::SettingsSelect(i) => {
            if i < 10 {
                app.settings_index = i;
            }
        },
        _ => {
            if let ClickAction::LayoutEditorSelect(i) = act {
                if i < app.custom_layout.panes.len() {
                    app.layout_editor_index = i;
                }
            }
        },
    }
    assert(select_click_done(*old(app), *app, act)) by {
        reveal(select_click_done);
    }
}

/// A click on a registered region runs its action.
#[verifier::opaque]
pub open spec fn click_done(a: App, b: App, act: ClickAction) -> bool {
    match act {
        ClickAction::OpenPopup(kind) => popup_shown(a, b, kind),
        ClickAction::SetScreen(s) => b == (App { screen: s, ..a }),
        ClickAction::OpenSettings => b == after_enter_settings(a),
        ClickAction::SetLayout(l) => b == (App { layout: l, screen: Screen::Dashboard, ..a }),
        ClickAction::FocusPane(p) => b == (App { focused_pane: p, ..a }),
        ClickAction::SetCatalogTab(t) => b == (App { cat_tab: t, cat_index: 0, ..a }),
        ClickAction::SetCatalogAddCursor(p) => b == (App {
            cat_add_cursor: at_most(p as int, add_text(a).len() as int) as usize,
            ..a
        }),
        ClickAction::SetExtTab(t) => b == (App { ext_tab: t, ..a }),
        ClickAction::SetSpecTab(t) => b == (App { spec_tab: t, spec_scroll: 0, ..a }),
        ClickAction::SettingsChip(row, j) => {
            let m = App { settings_index: row_pos(row) as usize, ..a };
            let opts = settings_row_options(row);
            if j < opts.len() {
                value_set(m, b, row, opts[j as int])
            } else {
                b == m
            }
        },
        ClickAction::SettingsEdit(i) => b == (if i < 10 {
            if settings_rows()[i as int] == SettingsRow::TmuxPrefix {
                App { settings_index: i, settings_editing: Some(i), ..a }
            } else {
                App { settings_index: i, ..a }
            }
        } else {
            a
        }),
        ClickAction::PaletteRun(i) => {
            let input = match a.palette {
                Some(p) => p.input@,
                None => Seq::empty(),
            };
            let hits = palette_hits(input);
            if i < hits.len() {
                palette_action_done(App { palette: None, ..a }, b, hits[i as int])
            } else {
                b == a
            }
        },
        ClickAction::JumpToFeature(i) => {
            let m = if i < a.project.features@.len() {
                App { feature_index: i, spec_scroll: 0, ..a }
            } else {
                a
            };
            b.screen == Screen::Dashboard && popup_closed(m, App { screen: m.screen, ..b })
        },
        _ => select_click_done(a, b, act),
    }
}

#[verifier::spinoff_prover]
#[verifier::rlimit(40)]
fn view_click(app: &mut App, act: ClickAction)
    requires
        act is OpenPopup || act is SetScreen || act is OpenSettings || act is SetLayout || act is FocusPane,
    ensures
        click_done(*old(app), *final(app), act),
{
    match act {
        ClickAction::OpenPopup(kind) => app.open_popup(kind),
        ClickAction::SetScreen(screen) => app.screen = screen,
        ClickAction::OpenSettings => app.enter_settings(),
        ClickAction::SetLayout(layout) => {
            app.layout = layout;
            app.screen = Screen::Dashboard;
        },
        _ => {
            if let ClickAction::FocusPane(pane) = act {
                app.focused_pane = pane;
            }
        },
    }
    assert(click_done(*old(app), *app, act)) by {
        reveal(click_done);
    }
}

#[verifier::spinoff_prover]
#[verifier::rlimit(40)]
fn tab_click(app: &mut App, act: ClickAction)
    requires
        act is SetCatalogTab || act is SetCatalogAddCursor || act is SetExtTab || act is SetSpecTab,
    ensures
        click_done(*old(app), *final(app), act),
{
    match act {
        ClickAction::SetCatalogTab(t) => {
            app.cat_tab = t;
            app.cat_index = 0;
        },
        ClickAction::SetCatalogAddCursor(p) => app.cat_add_set_cursor(p),
        ClickAction::SetExtTab(t) => app.ext_tab = t,
        _ => {
            if let ClickAction::SetSpecTab(t) = act {
                app.spec_tab = t;
                app.spec_scroll = 0;
            }
        },
    }
    assert(click_done(*old(app), *app, act)) by {
        reveal(click_done);
    }
}

#[verifier::spinoff_prover]
#[verifier::rlimit(40)]
fn settings_click(app: &mut App, act: ClickAction)
    requires
        act is SettingsChip || act is SettingsEdit,
    ensures
        click_done(*old(app), *final(app), act),
{
    match act {
        ClickAction::SettingsChip(row, j) => {
            app.settings_index = row_position(row);
            let opts = row.options();
            if j < opts.len() {
                let value = opts[j];
                proof {
                    assert(views_of(opts@)[j as int] == value@);
                    assert(views_of(opts@).len() == opts@.len());
                    if row == SettingsRow::Accent {
                        assert(settings_row_options(row).len() == 3);
                        assert(settings_row_options(row)[j as int] == value@);
                    }
                }
                app.settings_set_value(row, value);
            }
        },
        _ => {
            if let ClickAction::SettingsEdit(i) = act {
                if i < 10 {
                    app.settings_index = i;
                    app.settings_begin_edit();
                }
            }
        },
    }
    assert(click_done(*old(app), *app, act)) by {
        reveal(click_done);
    }
}

#[verifier::spinoff_prover]
#[verifier::rlimit(40)]
fn palette_click(app: &mut App, i: usize)
    ensures
        click_done(*old(app), *final(app), ClickAction::PaletteRun(i)),
{
    let hits = match &app.palette {
        Some(p) => palette_matches(p.input.as_str()),
        None => {
            let empty = String::new();
            palette_matches(empty.as_str())
        },
    };
    if i < hits.len() {
        app.palette = None;
        execute_palette_action(app, hits[i]);
        assert(click_done(*old(app), *app, ClickAction::PaletteRun(i))) by {
            reveal(click_done);
        }
        return;
    }
    assert(click_done(*old(app), *app, ClickAction::PaletteRun(i))) by {
        reveal(click_done);
    }
}

#[verifier::spinoff_prover]
#[verifier::rlimit(40)]
fn jump_click(app: &mut App, i: usize)
    ensures
        click_done(*old(app), *final(app), ClickAction::JumpToFeature(i)),
{
    if i < app.project.features.len() {
        app.feature_index = i;
        app.spec_scroll = 0;
    }
    app.close_popup();
    app.screen = Screen::Dashboard;
    assert(click_done(*old(app), *app, ClickAction::JumpToFeature(i))) by {
        reveal(click_done);
    }
}

/// Runs the action of a clicked region.
#[verifier::spinoff_prover]
#[verifier::rlimit(40)]
pub fn execute_click_action(app: &mut App, action: ClickAction)
    ensures
        click_done(*old(app), *final(app), action),
{
    match action {
        ClickAction::OpenPopup(_) | ClickAction::SetScreen(_) | ClickAction::OpenSettings
        | ClickAction::SetLayout(_) | ClickAction::FocusPane(_) => view_click(app, action),
        ClickAction::SetCatalogTab(_) | ClickAction::SetCatalogAddCursor(_) | ClickAction::SetExtTab(_)
        | ClickAction::SetSpecTab(_) => tab_click(app, action),
        ClickAction::SettingsChip(..) | ClickAction::SettingsEdit(_) => settings_click(app, action),
        ClickAction::PaletteRun(i) => palette_click(app, i),
        ClickAction::JumpToFeature(i) => jump_click(app, i),
        _ => {
            select_click(app, action);
            assert(click_done(*old(app), *app, action)) by {
                reveal(click_done);
            }
        },
    }
}

/// A mouse event: the wheel scrolls as Up and Down do, a left click runs the
/// topmost region under the pointer.
pub open spec fn mouse_done(a: App, b: App, m: MouseEvent, e: Effect) -> bool {
    match m.kind {
        MouseKind::ScrollDown => key_done(a, b, KeyEvent { code: KeyCode::Down, ctrl: false }, e),
        MouseKind::ScrollUp => key_done(a, b, KeyEvent { code: KeyCode::Up, ctrl: false }, e),
        MouseKind::LeftDown => e is Nothing && match topmost_hit(a.click_regions@, m.column, m.row) {
            Some(i) => click_done(a, b, a.click_regions@[i].1),
            None => b == a,
        },
        MouseKind::Other => b == a && e is Nothing,
    }
}

/// Handles a mouse event.
#[verifier::spinoff_prover]
pub fn handle_mouse(app: &mut App, m: MouseEvent) -> (e: Effect)
    ensures
        mouse_done(*old(app), *final(app), m, e),
{
    match m.kind {
        MouseKind::ScrollDown => handle_key(app, KeyEvent { code: KeyCode::Down, ctrl: false }),
        MouseKind::ScrollUp => handle_key(app, KeyEvent { code: KeyCode::Up, ctrl: false }),
        MouseKind::LeftDown => {
            match app.hit_test(m.column, m.row) {
                Some(action) => execute_click_action(app, action),
                None => {},
            }
            Effect::Nothing
        },
        MouseKind::Other => Effect::Nothing,
    }
}

} // verus!
