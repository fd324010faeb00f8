//! How key presses, mouse clicks and palette commands change the dashboard
//! state, and what the application around it must then do.
use vstd::prelude::*;
use crate::app::{
    catalog_list, filtered_ext_count, flipped, integration_count, kept_extensions, kept_integrations,
    kept_presets, kept_workflows, palette_commands, palette_entries, pane_after, pane_before,
    popup_opened, sat_dec, sat_inc, min_u16, tab_after, tab_before, workflow_count, wrap_next,
    wrap_prev, adjusted, primary_done, value_set, settings_rows, settings_row_options, views_of,
    App, ClickAction, DashboardLayout, ExtTab, PaletteAction, PaletteState, PopupKind, Screen,
    SettingsRow, SpecTab,
};
use crate::cli::{command_line, CliAction, CliJob, CliTarget, JobStatus};
use crate::text::{contains, lowercase, push_char, to_lowercase};
use crate::config::{accent_text, mode_text, AppConfig};
use crate::theme::{accent_after, palette_of};

verus! {

/// The theme switched and the settings are to be saved.
pub open spec fn theme_toggled(a: App, b: App) -> bool {
    &&& b == (App {
        theme_mode: flipped(a.theme_mode),
        theme: palette_of(flipped(a.theme_mode), a.accent),
        config: b.config,
        save_request: true,
        ..a
    })
    &&& b.config == (AppConfig { theme: b.config.theme, ..a.config })
    &&& b.config.theme@ == mode_text(flipped(a.theme_mode))
}

/// The accent moved on and the settings are to be saved.
pub open spec fn accent_cycled(a: App, b: App) -> bool {
    &&& b == (App {
        accent: accent_after(a.accent),
        theme: palette_of(a.theme_mode, accent_after(a.accent)),
        config: b.config,
        save_request: true,
        ..a
    })
    &&& b.config == (AppConfig { accent: b.config.accent, ..a.config })
    &&& b.config.accent@ == accent_text(accent_after(a.accent))
}

/// A popup of `kind` was opened (see `App::open_popup`).
pub open spec fn popup_shown(a: App, b: App, kind: PopupKind) -> bool {
    &&& b.filter_query@.len() == 0
    &&& popup_opened(a, b, kind)
    &&& b == (App {
        filter_query: b.filter_query,
        filter_active: false,
        active_popup: Some(kind),
        ext_tab: b.ext_tab,
        ext_index: b.ext_index,
        preset_index: b.preset_index,
        cat_index: b.cat_index,
        cat_add_input: b.cat_add_input,
        cat_add_cursor: b.cat_add_cursor,
        ..a
    })
}

/// What running a palette command does.
#[verifier::opaque]
pub open spec fn palette_action_done(a: App, b: App, act: PaletteAction) -> bool {
    match act {
        PaletteAction::SetLayout(l) => b == (App { layout: l, screen: Screen::Dashboard, ..a }),
        PaletteAction::SetScreen(s) => b == (App { screen: s, ..a }),
        PaletteAction::ToggleTheme => theme_toggled(a, b),
        PaletteAction::CycleAccent => accent_cycled(a, b),
        PaletteAction::OpenPopup(k) => popup_shown(a, b, k),
        PaletteAction::Quit => b == (App { should_quit: true, ..a }),
    }
}

/// Runs a command-palette action.
#[verifier::spinoff_prover]
#[verifier::rlimit(30)]
pub fn execute_palette_action(app: &mut App, action: PaletteAction)
    ensures
        palette_action_done(*old(app), *final(app), action),
{
    match action {
        PaletteAction::SetLayout(layout) => {
            app.layout = layout;
            app.screen = Screen::Dashboard;
            assert(palette_action_done(*old(app), *app, action)) by {
                reveal(palette_action_done);
            }
            return;
        },
        PaletteAction::SetScreen(screen) => {
            app.screen = screen;
            assert(palette_action_done(*old(app), *app, action)) by {
                reveal(palette_action_done);
            }
            return;
        },
        PaletteAction::ToggleTheme => {
            app.toggle_theme();
            assert(palette_action_done(*old(app), *app, action)) by {
                reveal(palette_action_done);
            }
            return;
        },
        PaletteAction::CycleAccent => {
            app.cycle_accent();
            assert(palette_action_done(*old(app), *app, action)) by {
                reveal(palette_action_done);
            }
            return;
        },
        PaletteAction::OpenPopup(kind) => {
            app.open_popup(kind);
            assert(palette_action_done(*old(app), *app, action)) by {
                reveal(palette_action_done);
            }
            return;
        },
        PaletteAction::Quit => {
            app.should_quit = true;
            assert(palette_action_done(*old(app), *app, action)) by {
                reveal(palette_action_done);
            }
            return;
        },
    }
}

// ---------------------------------------------------------------------------
// Input events and what the application has to do after one
// ---------------------------------------------------------------------------

/// A key, as far as the dashboard tells keys apart.
#[derive(Debug, Clone, Copy, PartialEq, Eq, Structural)]
pub enum KeyCode {
    Char(char),
    Enter,
    Esc,
    Tab,
    BackTab,
    Up,
    Down,
    Left,
    Right,
    Backspace,
    Other,
}

/// A key press; `ctrl` tells whether Control was held.
#[derive(Debug, Clone, Copy, PartialEq, Eq, Structural)]
pub struct KeyEvent {
    pub code: KeyCode,
    pub ctrl: bool,
}

#[derive(Debug, Clone, Copy, PartialEq, Eq, Structural)]
pub enum MouseKind {
    ScrollDown,
    ScrollUp,
    LeftDown,
    Other,
}

#[derive(Debug, Clone, Copy, PartialEq, Eq, Structural)]
pub struct MouseEvent {
    pub kind: MouseKind,
    pub column: u16,
    pub row: u16,
}

/// Outside work an input asks for.
#[derive(Debug)]
pub enum Effect {
    Nothing,
    /// Start the `specify` command for this action; its job is already shown.
    Spawn(CliAction),
    /// Type `text` into the tmux session `target`.
    SendKeys { target: String, text: String },
}

pub open spec fn key(code: KeyCode) -> KeyEvent {
    KeyEvent { code, ctrl: false }
}

pub open spec fn is_char(k: KeyEvent, c: char) -> bool {
    k.code == KeyCode::Char(c)
}

pub open spec fn up_key(k: KeyEvent) -> bool {
    k.code == KeyCode::Up || is_char(k, 'k')
}

pub open spec fn down_key(k: KeyEvent) -> bool {
    k.code == KeyCode::Down || is_char(k, 'j')
}

// ---------------------------------------------------------------------------
// The effect of the state's own operations, as functions of the state
// ---------------------------------------------------------------------------

pub open spec fn after_next_feature(a: App) -> App {
    if a.project.features@.len() == 0 {
        a
    } else {
        App {
            feature_index: wrap_next(a.feature_index as int, a.project.features@.len() as int) as usize,
            spec_scroll: 0,
            ..a
        }
    }
}

pub open spec fn after_prev_feature(a: App) -> App {
    if a.project.features@.len() == 0 {
        a
    } else {
        App {
            feature_index: wrap_prev(a.feature_index as int, a.project.features@.len() as int) as usize,
            spec_scroll: 0,
            ..a
        }
    }
}

pub open spec fn after_tab_forward(a: App) -> App {
    if a.screen == Screen::Dashboard {
        App { focused_pane: pane_after(a.focused_pane), ..a }
    } else if a.screen == Screen::SpecBrowser {
        App { spec_tab: tab_after(a.spec_tab), spec_scroll: 0, ..a }
    } else {
        a
    }
}

pub open spec fn after_tab_backward(a: App) -> App {
    if a.screen == Screen::Dashboard {
        App { focused_pane: pane_before(a.focused_pane), ..a }
    } else if a.screen == Screen::SpecBrowser {
        App { spec_tab: tab_before(a.spec_tab), spec_scroll: 0, ..a }
    } else {
        a
    }
}

pub open spec fn after_scroll_down(a: App) -> App {
    App { spec_scroll: min_u16(sat_inc(a.spec_scroll), a.doc_scroll_max), ..a }
}

pub open spec fn after_scroll_up(a: App) -> App {
    App { spec_scroll: sat_dec(a.spec_scroll), ..a }
}

pub open spec fn after_cli_scroll_down(a: App) -> App {
    App { cli_scroll: min_u16(sat_inc(a.cli_scroll), a.cli_scroll_max), ..a }
}

pub open spec fn after_cli_scroll_up(a: App) -> App {
    App { cli_scroll: sat_dec(a.cli_scroll), ..a }
}

pub open spec fn after_enter_spec_browser(a: App) -> App {
    if a.feature_index < a.project.features@.len() {
        App { screen: Screen::SpecBrowser, spec_scroll: 0, ..a }
    } else {
        a
    }
}

pub open spec fn after_enter_constitution(a: App) -> App {
    if a.project.constitution is Some {
        App { screen: Screen::Constitution, spec_scroll: 0, ..a }
    } else {
        a
    }
}

pub open spec fn after_enter_settings(a: App) -> App {
    App { screen: Screen::Settings, settings_index: 0, settings_editing: None, ..a }
}

pub open spec fn after_go_back(a: App) -> App {
    if a.active_popup is Some {
        App { active_popup: None, ..a }
    } else if a.palette is Some {
        App { palette: None, ..a }
    } else if a.screen != Screen::Dashboard {
        App { screen: Screen::Dashboard, spec_scroll: 0, ..a }
    } else {
        a
    }
}

/// The popup was closed and the filter cleared.
pub open spec fn popup_closed(a: App, b: App) -> bool {
    &&& b == (App { filter_query: b.filter_query, filter_active: false, active_popup: None, ..a })
    &&& b.filter_query@.len() == 0
}

pub open spec fn after_ext_next(a: App) -> App {
    let n = filtered_ext_count(a);
    if n == 0 {
        a
    } else if a.ext_tab == ExtTab::Extensions {
        App { ext_index: wrap_next(a.ext_index as int, n as int) as usize, ..a }
    } else {
        App { preset_index: wrap_next(a.preset_index as int, n as int) as usize, ..a }
    }
}

pub open spec fn after_ext_prev(a: App) -> App {
    let n = filtered_ext_count(a);
    if n == 0 {
        a
    } else if a.ext_tab == ExtTab::Extensions {
        App { ext_index: wrap_prev(a.ext_index as int, n as int) as usize, ..a }
    } else {
        App { preset_index: wrap_prev(a.preset_index as int, n as int) as usize, ..a }
    }
}

pub open spec fn after_integration_next(a: App) -> App {
    let n = integration_count(a);
    if n == 0 { a } else { App { integration_index: wrap_next(a.integration_index as int, n as int) as usize, ..a } }
}

pub open spec fn after_integration_prev(a: App) -> App {
    let n = integration_count(a);
    if n == 0 { a } else { App { integration_index: wrap_prev(a.integration_index as int, n as int) as usize, ..a } }
}

pub open spec fn after_wf_next(a: App) -> App {
    let n = workflow_count(a);
    if n == 0 { a } else { App { wf_index: wrap_next(a.wf_index as int, n as int) as usize, ..a } }
}

pub open spec fn after_wf_prev(a: App) -> App {
    let n = workflow_count(a);
    if n == 0 { a } else { App { wf_index: wrap_prev(a.wf_index as int, n as int) as usize, ..a } }
}

pub open spec fn after_settings_next(a: App) -> App {
    App { settings_editing: None, settings_index: wrap_next(a.settings_index as int, 10) as usize, ..a }
}

pub open spec fn after_settings_prev(a: App) -> App {
    App { settings_editing: None, settings_index: wrap_prev(a.settings_index as int, 10) as usize, ..a }
}

/// The command palette was opened with an empty query.
pub open spec fn palette_opened(a: App, b: App) -> bool {
    &&& b == (App { palette: b.palette, ..a })
    &&& b.palette matches Some(p) && p.input@.len() == 0 && p.selected == 0
}

/// A job for `act` is shown in the CLI output popup.
pub open spec fn job_shown(a: App, b: App, act: CliAction) -> bool {
    &&& b == (App { cli_job: b.cli_job, cli_scroll: 0, active_popup: Some(PopupKind::CliOutput), ..a })
    &&& b.cli_job matches Some(j) && j.action == act && j.command_line@ == command_line(act) && j.status
        == JobStatus::Pending && j.output@.len() == 0
}

/// `act` waits for confirmation in the confirm popup, without `--force`.
pub open spec fn confirm_asked(a: App, b: App, act: CliAction) -> bool {
    b == (App {
        pending_action: Some(act),
        force_flag: false,
        active_popup: Some(PopupKind::CliConfirm),
        ..a
    })
}

// ---------------------------------------------------------------------------
// The command palette
// ---------------------------------------------------------------------------

/// Whether a palette entry's label matches the typed query.
pub open spec fn label_matches(input: Seq<char>, label: Seq<char>) -> bool {
    input.len() == 0 || contains(lowercase(label), lowercase(input))
}

/// Actions of the palette entries whose label matches the query, in order.
pub open spec fn palette_hits_from(entries: Seq<(Seq<char>, Seq<char>, PaletteAction)>, input: Seq<char>) -> Seq<PaletteAction>
    decreases entries.len(),
{
    if entries.len() == 0 {
        Seq::empty()
    } else {
        let r = palette_hits_from(entries.drop_last(), input);
        if label_matches(input, entries.last().0) { r.push(entries.last().2) } else { r }
    }
}

pub open spec fn palette_hits(input: Seq<char>) -> Seq<PaletteAction> {
    palette_hits_from(palette_entries(), input)
}

/// The actions of the palette entries matching `input`.
pub fn palette_matches(input: &str) -> (r: Vec<PaletteAction>)
    ensures
        r@ == palette_hits(input@),
{
    let commands = palette_commands();
    let q = to_lowercase(input);
    let empty = input.is_empty();
    let mut r: Vec<PaletteAction> = Vec::new();
    let mut i: usize = 0;
    let ghost es = palette_entries();
    while i < commands.len()
        invariant
            i <= commands@.len(),
            commands@.len() == es.len(),
            es == palette_entries(),
            q@ == lowercase(input@),
            empty == (input@.len() == 0),
            forall|k: int| 0 <= k < commands@.len() ==> crate::app::command_view(#[trigger] commands@[k]) == es[k],
            r@ == palette_hits_from(es.take(i as int), input@),
        decreases commands@.len() - i,
    {
        assert(es.take(i + 1).drop_last() =~= es.take(i as int));
        assert(crate::app::command_view(commands@[i as int]) == es[i as int]);
        let c = &commands[i];
        let hit = if empty {
            true
        } else {
            let l = to_lowercase(c.label);
            text_contains(l.as_str(), q.as_str())
        };
        if hit {
            r.push(c.action);
        }
        i = i + 1;
    }
    assert(es.take(i as int) =~= es);
    r
}

fn text_contains(hay: &str, needle: &str) -> (r: bool)
    ensures
        r == contains(hay@, needle@),
{
    let v = crate::text::chars_of(hay);
    let p = crate::text::chars_of(needle);
    assert(v@.subrange(0, v@.len() as int) =~= v@);
    crate::text::contains_range(&v, 0, v.len(), &p)
}

/// A text with its last character removed, if it has one.
pub open spec fn dropped(s: Seq<char>) -> Seq<char> {
    if s.len() > 0 { s.drop_last() } else { s }
}

/// The palette's query and highlighted entry are now `input` and `selected`.
pub open spec fn palette_set(a: App, b: App, input: Seq<char>, selected: int) -> bool {
    &&& b == (App { palette: b.palette, ..a })
    &&& b.palette matches Some(q) && q.input@ == input && q.selected == selected
}

/// A key while the command palette is open: Esc closes it, Enter runs the
/// highlighted matching entry, Up and Down move the highlight among the
/// matches, typing and Backspace edit the query and highlight the first match.
#[verifier::opaque]
pub open spec fn palette_key_done(a: App, b: App, k: KeyEvent) -> bool {
    let p = a.palette->0;
    let hits = palette_hits(p.input@);
    match k.code {
        KeyCode::Esc => b == (App { palette: None, ..a }),
        KeyCode::Enter => if p.selected < hits.len() {
            palette_action_done(App { palette: None, ..a }, b, hits[p.selected as int])
        } else {
            b == a
        },
        KeyCode::Up => if p.selected > 0 {
            palette_set(a, b, p.input@, p.selected - 1)
        } else {
            b == a
        },
        KeyCode::Down => if p.selected + 1 < hits.len() {
            palette_set(a, b, p.input@, p.selected + 1)
        } else {
            b == a
        },
        KeyCode::Char(c) => palette_set(a, b, p.input@.push(c), 0),
        KeyCode::Backspace => palette_set(a, b, dropped(p.input@), 0),
        _ => b == a,
    }
}

/// Handles a key while the command palette is open.
#[verifier::spinoff_prover]
#[verifier::rlimit(40)]
pub fn handle_palette_key(app: &mut App, k: KeyEvent)
    requires
        old(app).palette is Some,
    ensures
        palette_key_done(*old(app), *final(app), k),
{
    let ghost a = *app;
    let p = match app.palette.take() {
        Some(p) => p,
        None => {
            return;
        },
    };
    assert(a.palette == Some(p));
    match k.code {
        KeyCode::Esc => {
            assert(palette_key_done(a, *app, k)) by {
                reveal(palette_key_done);
            }
        },
        KeyCode::Enter => {
            let hits = palette_matches(p.input.as_str());
            if p.selected < hits.len() {
                let act = hits[p.selected];
                execute_palette_action(app, act);
                assert(palette_key_done(a, *app, k)) by {
                    reveal(palette_key_done);
                }
            } else {
                app.palette = Some(p);
                assert(palette_key_done(a, *app, k)) by {
                    reveal(palette_key_done);
                }
            }
        },
        KeyCode::Up => {
            if p.selected > 0 {
                app.palette = Some(PaletteState { input: p.input, selected: p.selected - 1 });
            } else {
                app.palette = Some(p);
            }
            assert(palette_key_done(a, *app, k)) by {
                reveal(palette_key_done);
            }
        },
        KeyCode::Down => {
            let count = palette_matches(p.input.as_str()).len();
            if p.selected < count && p.selected + 1 < count {
                app.palette = Some(PaletteState { input: p.input, selected: p.selected + 1 });
            } else {
                app.palette = Some(p);
            }
            assert(palette_key_done(a, *app, k)) by {
                reveal(palette_key_done);
            }
        },
        KeyCode::Char(c) => {
            let mut input = p.input;
            push_char(&mut input, c);
            app.palette = Some(PaletteState { input, selected: 0 });
            assert(palette_key_done(a, *app, k)) by {
                reveal(palette_key_done);
            }
        },
        KeyCode::Backspace => {
            let mut input = p.input;
            crate::app::pop_char(&mut input);
            app.palette = Some(PaletteState { input, selected: 0 });
            assert(palette_key_done(a, *app, k)) by {
                reveal(palette_key_done);
            }
        },
        _ => {
            app.palette = Some(p);
            assert(palette_key_done(a, *app, k)) by {
                reveal(palette_key_done);
            }
        },
    }
}

// ---------------------------------------------------------------------------
// The list filter of the management popups
// ---------------------------------------------------------------------------

#[derive(Debug, Clone, Copy, PartialEq, Eq, Structural)]
pub enum FilterKey {
    /// Consumed; the query changed, so the list selection goes back to the top.
    ConsumedReset,
    /// Consumed by the filter.
    Consumed,
    /// Not a filter key.
    NotConsumed,
}

/// The inline filter on its own: `/` opens it; while open, typing and
/// Backspace edit the query, Enter closes it, Esc closes and clears it, and Up
/// and Down still move the selection. Gives the new query, whether the filter
/// is open, and how the key was taken.
pub open spec fn filter_step(query: Seq<char>, active: bool, k: KeyEvent) -> (Seq<char>, bool, FilterKey) {
    if active {
        match k.code {
            KeyCode::Esc => (Seq::empty(), false, FilterKey::ConsumedReset),
            KeyCode::Enter => (query, false, FilterKey::Consumed),
            KeyCode::Backspace => (dropped(query), true, FilterKey::ConsumedReset),
            KeyCode::Up => (query, true, FilterKey::NotConsumed),
            KeyCode::Down => (query, true, FilterKey::NotConsumed),
            KeyCode::Char(c) => (query.push(c), true, FilterKey::ConsumedReset),
            _ => (query, true, FilterKey::Consumed),
        }
    } else if k.code == KeyCode::Char('/') {
        (query, true, FilterKey::ConsumedReset)
    } else {
        (query, false, FilterKey::NotConsumed)
    }
}

/// The state after the filter took a key.
pub open spec fn filter_key_done(a: App, b: App, k: KeyEvent, r: FilterKey) -> bool {
    &&& b == (App { filter_query: b.filter_query, filter_active: b.filter_active, ..a })
    &&& (b.filter_query@, b.filter_active, r) == filter_step(a.filter_query@, a.filter_active, k)
    &&& r == FilterKey::NotConsumed ==> b == a
}

fn filter_step_exec(query: String, active: bool, k: KeyEvent) -> (r: (String, bool, FilterKey))
    ensures
        (r.0@, r.1, r.2) == filter_step(query@, active, k),
        r.2 == FilterKey::NotConsumed ==> r.0 == query && r.1 == active,
{
    if active {
        match k.code {
            KeyCode::Esc => (String::new(), false, FilterKey::ConsumedReset),
            KeyCode::Enter => (query, false, FilterKey::Consumed),
            KeyCode::Backspace => {
                let mut q = query;
                crate::app::pop_char(&mut q);
                (q, true, FilterKey::ConsumedReset)
            },
            KeyCode::Up | KeyCode::Down => (query, true, FilterKey::NotConsumed),
            KeyCode::Char(c) => {
                let mut q = query;
                push_char(&mut q, c);
                (q, true, FilterKey::ConsumedReset)
            },
            _ => (query, true, FilterKey::Consumed),
        }
    } else if k.code == KeyCode::Char('/') {
        (query, true, FilterKey::ConsumedReset)
    } else {
        (query, false, FilterKey::NotConsumed)
    }
}

#[verifier::spinoff_prover]
pub fn handle_filter_key(app: &mut App, k: KeyEvent) -> (r: FilterKey)
    ensures
        filter_key_done(*old(app), *final(app), k, r),
{
    let q = app.filter_query.clone();
    let (q2, active, r) = filter_step_exec(q, app.filter_active, k);
    app.filter_query = q2;
    app.filter_active = active;
    r
}

/// How the filter treats a key (see `filter_key_done`).
pub open spec fn filter_result(a: App, k: KeyEvent) -> FilterKey {
    if a.filter_active {
        match k.code {
            KeyCode::Esc => FilterKey::ConsumedReset,
            KeyCode::Enter => FilterKey::Consumed,
            KeyCode::Backspace => FilterKey::ConsumedReset,
            KeyCode::Up => FilterKey::NotConsumed,
            KeyCode::Down => FilterKey::NotConsumed,
            KeyCode::Char(_) => FilterKey::ConsumedReset,
            _ => FilterKey::Consumed,
        }
    } else if k.code == KeyCode::Char('/') {
        FilterKey::ConsumedReset
    } else {
        FilterKey::NotConsumed
    }
}

/// The filter only touches its own fields, and decides as `filter_result`.
pub proof fn lemma_filter_key_frame(a: App, b: App, k: KeyEvent, r: FilterKey)
    requires
        filter_key_done(a, b, k, r),
    ensures
        r == filter_result(a, k),
        r == FilterKey::NotConsumed ==> b == a,
        b == (App { filter_query: b.filter_query, filter_active: b.filter_active, ..a }),
{
}

// ---------------------------------------------------------------------------
// Management popups
// ---------------------------------------------------------------------------

/// Asks for confirmation of `act` in the confirm popup.
#[verifier::spinoff_prover]
pub(crate) fn confirm(app: &mut App, act: CliAction)
    ensures
        confirm_asked(*old(app), *final(app), act),
{
    app.pending_action = Some(act);
    app.force_flag = false;
    app.active_popup = Some(PopupKind::CliConfirm);
}

/// Shows a new job for `act` and asks for its command to be started.
#[verifier::spinoff_prover]
pub(crate) fn spawn(app: &mut App, act: CliAction) -> (e: Effect)
    ensures
        job_shown(*old(app), *final(app), act),
        e == Effect::Spawn(act),
{
    let job = CliJob::new(act.clone());
    app.show_cli_job(job);
    Effect::Spawn(act)
}

/// Keys of the integrations popup once the filter let them through.
#[verifier::opaque]
pub open spec fn integration_action_done(a: App, b: App, k: KeyEvent, e: Effect) -> bool {
    let l = kept_integrations(a.project.integrations@, a.filter_query@);
    let has = a.integration_index < l.len();
    let it = l[a.integration_index as int];
    if k.code == KeyCode::Esc {
        popup_closed(a, b) && e is Nothing
    } else if up_key(k) {
        b == after_integration_prev(a) && e is Nothing
    } else if down_key(k) {
        b == after_integration_next(a) && e is Nothing
    } else if is_char(k, 'i') && has && !it.installed {
        confirm_asked(a, b, CliAction::IntegrationInstall { key: it.key }) && e is Nothing
    } else if is_char(k, 's') && has && (!it.installed || !it.is_default) {
        confirm_asked(a, b, CliAction::IntegrationSwitch { key: it.key }) && e is Nothing
    } else if is_char(k, 'd') && has && it.installed && !it.is_default {
        confirm_asked(a, b, CliAction::IntegrationUseDefault { key: it.key }) && e is Nothing
    } else if is_char(k, 'x') && has && it.installed {
        confirm_asked(a, b, CliAction::IntegrationUninstall { key: it.key }) && e is Nothing
    } else if is_char(k, 'g') && has && it.installed {
        confirm_asked(a, b, CliAction::IntegrationUpgrade { key: Some(it.key) }) && e is Nothing
    } else if is_char(k, 'v') && has && it.installed {
        job_shown(a, b, CliAction::IntegrationStatus { key: it.key }) && e == Effect::Spawn(
            CliAction::IntegrationStatus { key: it.key },
        )
    } else if is_char(k, 'n') && has {
        job_shown(a, b, CliAction::IntegrationGetInfo { key: it.key }) && e == Effect::Spawn(
            CliAction::IntegrationGetInfo { key: it.key },
        )
    } else {
        b == a && e is Nothing
    }
}

/// A key in a filtered list popup: the filter first; when it resets the
/// query the selection `index_of` goes back to the top.
pub open spec fn filtered_key_done(a: App, b: App, k: KeyEvent, e: Effect, reset: App, acted: bool) -> bool {
    match filter_result(a, k) {
        FilterKey::ConsumedReset => filter_key_done(a, reset, k, FilterKey::ConsumedReset) && e is Nothing,
        FilterKey::Consumed => filter_key_done(a, b, k, FilterKey::Consumed) && e is Nothing,
        FilterKey::NotConsumed => acted,
    }
}

/// A key in the integrations popup.
pub open spec fn integrations_key_done(a: App, b: App, k: KeyEvent, e: Effect) -> bool {
    &&& filter_result(a, k) == FilterKey::ConsumedReset ==> b.integration_index == 0
    &&& filtered_key_done(
        a,
        b,
        k,
        e,
        App { integration_index: a.integration_index, ..b },
        integration_action_done(a, b, k, e),
    )
}

#[verifier::spinoff_prover]
#[verifier::rlimit(60)]
pub fn handle_integrations_key(app: &mut App, k: KeyEvent) -> (e: Effect)
    ensures
        integrations_key_done(*old(app), *final(app), k, e),
{
    let ghost a = *app;
    let r = handle_filter_key(app, k);
    proof {
        lemma_filter_key_frame(a, *app, k, r);
    }
    match r {
        FilterKey::ConsumedReset => {
            app.integration_index = 0;
            return Effect::Nothing;
        },
        FilterKey::Consumed => {
            return Effect::Nothing;
        },
        FilterKey::NotConsumed => {},
    }
    let sel = {
        let l = app.filtered_integrations();
        if app.integration_index < l.len() {
            let it = l[app.integration_index];
            Some((it.key.clone(), it.installed, it.is_default))
        } else {
            None
        }
    };
    proof {
        let l = kept_integrations(a.project.integrations@, a.filter_query@);
        if a.integration_index < l.len() {
            let it = l[a.integration_index as int];
            assert(sel == Some((it.key, it.installed, it.is_default)));
        } else {
            assert(sel is None);
        }
    }
    match k.code {
        KeyCode::Esc => {
            app.close_popup();
            assert(integration_action_done(a, *app, k, Effect::Nothing)) by {
                reveal(integration_action_done);
            }
            return Effect::Nothing;
        },
        KeyCode::Up => {
            app.integration_select_prev();
            assert(integration_action_done(a, *app, k, Effect::Nothing)) by {
                reveal(integration_action_done);
            }
            return Effect::Nothing;
        },
        KeyCode::Down => {
            app.integration_select_next();
            assert(integration_action_done(a, *app, k, Effect::Nothing)) by {
                reveal(integration_action_done);
            }
            return Effect::Nothing;
        },
        KeyCode::Char(c) => {
            if c == 'k' {
                app.integration_select_prev();
                assert(integration_action_done(a, *app, k, Effect::Nothing)) by {
                    reveal(integration_action_done);
                }
                return Effect::Nothing;
            }
            if c == 'j' {
                app.integration_select_next();
                assert(integration_action_done(a, *app, k, Effect::Nothing)) by {
                    reveal(integration_action_done);
                }
                return Effect::Nothing;
            }
            match sel {
                Some((key_name, installed, is_default)) => {
                    let e = integration_char(app, c, key_name, installed, is_default);
                    assert(integration_action_done(a, *app, k, e)) by {
                        reveal(integration_action_done);
                    }
                    return e;
                },
                None => {
                    assert(integration_action_done(a, *app, k, Effect::Nothing)) by {
                        reveal(integration_action_done);
                    }
                    return Effect::Nothing;
                },
            }
        },
        _ => {
            assert(integration_action_done(a, *app, k, Effect::Nothing)) by {
                reveal(integration_action_done);
            }
            return Effect::Nothing;
        },
    }
}

/// The letter keys of the integrations popup on the selected integration.
pub open spec fn integration_char_done(a: App, b: App, c: char, key: String, installed: bool, is_default: bool, e: Effect) -> bool {
    if c == 'i' && !installed {
        confirm_asked(a, b, CliAction::IntegrationInstall { key }) && e is Nothing
    } else if c == 's' && (!installed || !is_default) {
        confirm_asked(a, b, CliAction::IntegrationSwitch { key }) && e is Nothing
    } else if c == 'd' && installed && !is_default {
        confirm_asked(a, b, CliAction::IntegrationUseDefault { key }) && e is Nothing
    } else if c == 'x' && installed {
        confirm_asked(a, b, CliAction::IntegrationUninstall { key }) && e is Nothing
    } else if c == 'g' && installed {
        confirm_asked(a, b, CliAction::IntegrationUpgrade { key: Some(key) }) && e is Nothing
    } else if c == 'v' && installed {
        job_shown(a, b, CliAction::IntegrationStatus { key }) && e == Effect::Spawn(
            CliAction::IntegrationStatus { key },
        )
    } else if c == 'n' {
        job_shown(a, b, CliAction::IntegrationGetInfo { key }) && e == Effect::Spawn(
            CliAction::IntegrationGetInfo { key },
        )
    } else {
        b == a && e is Nothing
    }
}

#[verifier::spinoff_prover]
fn integration_char(app: &mut App, c: char, key: String, installed: bool, is_default: bool) -> (e: Effect)
    ensures
        integration_char_done(*old(app), *final(app), c, key, installed, is_default, e),
{
    if c == 'i' && !installed {
        confirm(app, CliAction::IntegrationInstall { key });
        return Effect::Nothing;
    }
    if c == 's' && (!installed || !is_default) {
        confirm(app, CliAction::IntegrationSwitch { key });
        return Effect::Nothing;
    }
    if c == 'd' && installed && !is_default {
        confirm(app, CliAction::IntegrationUseDefault { key });
        return Effect::Nothing;
    }
    if c == 'x' && installed {
        confirm(app, CliAction::IntegrationUninstall { key });
        return Effect::Nothing;
    }
    if c == 'g' && installed {
        confirm(app, CliAction::IntegrationUpgrade { key: Some(key) });
        return Effect::Nothing;
    }
    if c == 'v' && installed {
        return spawn(app, CliAction::IntegrationStatus { key });
    }
    if c == 'n' {
        return spawn(app, CliAction::IntegrationGetInfo { key });
    }
    Effect::Nothing
}

} // verus!
