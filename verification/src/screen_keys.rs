//! Keys outside popups and the palette: the layout editor, the keys every
//! screen shares, and each screen's own keys.
use vstd::prelude::*;
use crate::app::{adjusted, primary_done, App, DashboardLayout, ExtTab, PopupKind, Screen};
use crate::config::AppConfig;
use crate::keys::{
    accent_cycled, after_enter_constitution, after_enter_settings, after_enter_spec_browser,
    after_go_back, after_next_feature, after_prev_feature, after_scroll_down, after_scroll_up,
    after_settings_next, after_settings_prev, after_tab_backward, after_tab_forward, down_key,
    dropped, is_char, palette_opened, popup_shown, theme_toggled, up_key, Effect, KeyCode, KeyEvent,
};
use crate::layout::{lemma_find_kind, resize_fits, resize_in_range, resized, swapped, toggled, PaneConfig};

verus! {

// ---------------------------------------------------------------------------
// The layout editor
// ---------------------------------------------------------------------------

/// Number of panes that come before pane `i` when the panes are sorted by
/// `order`, ties kept in list order.
pub open spec fn rank_below(s: Seq<PaneConfig>, i: int, n: int) -> nat
    decreases n,
{
    if n <= 0 {
        0
    } else {
        let j = n - 1;
        rank_below(s, i, j) + if s[j].order < s[i].order || (s[j].order == s[i].order && j < i) {
            1nat
        } else {
            0nat
        }
    }
}

pub open spec fn order_rank(s: Seq<PaneConfig>, i: int) -> nat {
    rank_below(s, i, s.len() as int)
}

/// Whether pane `i` is the `n`-th pane in sorted order.
pub open spec fn is_nth_sorted(s: Seq<PaneConfig>, i: int, n: int) -> bool {
    0 <= i < s.len() && order_rank(s, i) == n
}

fn rank_of(s: &Vec<PaneConfig>, i: usize) -> (r: usize)
    requires
        i < s@.len(),
    ensures
        r == order_rank(s@, i as int),
{
    let mut r: usize = 0;
    let mut j: usize = 0;
    while j < s.len()
        invariant
            i < s@.len(),
            j <= s@.len(),
            r == rank_below(s@, i as int, j as int),
            r <= j,
        decreases s@.len() - j,
    {
        if s[j].order < s[i].order || (s[j].order == s[i].order && j < i) {
            r = r + 1;
        }
        j = j + 1;
    }
    r
}

/// Index of the `n`-th pane in sorted order (the pane the editor's cursor is
/// on).
pub fn nth_sorted(s: &Vec<PaneConfig>, n: usize) -> (r: Option<usize>)
    ensures
        r matches Some(i) ==> is_nth_sorted(s@, i as int, n as int),
        r is None ==> forall|i: int| !is_nth_sorted(s@, i, n as int),
{
    let mut i: usize = 0;
    while i < s.len()
        invariant
            i <= s@.len(),
            forall|j: int| 0 <= j < i ==> !is_nth_sorted(s@, j, n as int),
        decreases s@.len() - i,
    {
        if rank_of(s, i) == n {
            return Some(i);
        }
        i = i + 1;
    }
    None
}

/// The layout editor's resize keys keep the `i8` sum they compute in range
/// for the pane under the cursor; every other key is fine in any state.
pub open spec fn layout_key_ok(a: App, k: KeyEvent) -> bool {
    let s = a.custom_layout.panes@;
    let n = a.layout_editor_index as int;
    let i = choose|i: int| is_nth_sorted(s, i, n);
    (exists|i: int| is_nth_sorted(s, i, n)) ==> {
        &&& (is_char(k, '+') || is_char(k, '=')) ==> resize_in_range(s, s[i].kind, 1i8)
        &&& is_char(k, '-') ==> resize_in_range(s, s[i].kind, -1i8)
    }
}

/// Whether `layout_key_ok` holds.
pub fn layout_key_allowed(app: &App, k: KeyEvent) -> (r: bool)
    ensures
        r == layout_key_ok(*app, k),
{
    let ghost s = app.custom_layout.panes@;
    let ghost n = app.layout_editor_index as int;
    let delta: i8 = match k.code {
        KeyCode::Char(c) => if c == '+' || c == '=' { 1 } else if c == '-' { -1 } else { 0 },
        _ => 0,
    };
    if delta == 0 {
        return true;
    }
    match nth_sorted(&app.custom_layout.panes, app.layout_editor_index) {
        Some(i) => {
            let ghost ci = choose|i: int| is_nth_sorted(s, i, n);
            proof {
                lemma_nth_unique(s, i as int, ci, n);
            }
            resize_fits(&app.custom_layout.panes, app.custom_layout.panes[i].kind, delta)
        },
        None => true,
    }
}

/// The custom layout's panes are now `panes`.
pub open spec fn panes_set(a: App, b: App, panes: Seq<PaneConfig>) -> bool {
    b == (App { custom_layout: b.custom_layout, ..a }) && b.custom_layout.panes@ == panes
}

/// Keys of the layout editor. Space toggles the pane under the cursor, `<`
/// and `>` move it among the visible panes, `+`/`=` and `-` resize it, Enter
/// saves the layout and switches to it, Esc leaves the editor.
#[verifier::opaque]
pub open spec fn layout_key_done(a: App, b: App, k: KeyEvent) -> bool {
    let s = a.custom_layout.panes@;
    let n = a.layout_editor_index as int;
    let has = exists|i: int| is_nth_sorted(s, i, n);
    let i = choose|i: int| is_nth_sorted(s, i, n);
    if k.code == KeyCode::Esc {
        b == (App { layout_editor_active: false, ..a })
    } else if up_key(k) {
        b == (if n > 0 { App { layout_editor_index: (n - 1) as usize, ..a } } else { a })
    } else if down_key(k) {
        b == (if n + 1 < s.len() { App { layout_editor_index: (n + 1) as usize, ..a } } else { a })
    } else if is_char(k, ' ') {
        if has { panes_set(a, b, toggled(s, s[i].kind)) } else { b == a }
    } else if is_char(k, '<') {
        if has { panes_set(a, b, swapped(s, i, -1)) } else { b == a }
    } else if is_char(k, '>') {
        if has { panes_set(a, b, swapped(s, i, 1)) } else { b == a }
    } else if is_char(k, '+') || is_char(k, '=') {
        if has { panes_set(a, b, resized(s, s[i].kind, 1i8)) } else { b == a }
    } else if is_char(k, '-') {
        if has { panes_set(a, b, resized(s, s[i].kind, -1i8)) } else { b == a }
    } else if k.code == KeyCode::Enter {
        &&& b == (App {
            config: b.config,
            save_request: true,
            layout_editor_active: false,
            layout: DashboardLayout::Custom,
            ..a
        })
        &&& b.config == (AppConfig { custom_layout: b.config.custom_layout, ..a.config })
        &&& b.config.custom_layout matches Some(l) && l.panes@ == s
    } else {
        b == a
    }
}

/// Applies one of the pane edits to the pane the cursor is on.
#[verifier::spinoff_prover]
fn edit_pane(app: &mut App, k: KeyEvent, c: char)
    requires
        layout_key_ok(*old(app), k),
        k.code == KeyCode::Char(c),
        c == ' ' || c == '<' || c == '>' || c == '+' || c == '=' || c == '-',
    ensures
        layout_key_done(*old(app), *final(app), k),
{
    let ghost a = *app;
    let ghost s = a.custom_layout.panes@;
    proof {
        reveal(layout_key_done);
    }
    match nth_sorted(&app.custom_layout.panes, app.layout_editor_index) {
        Some(i) => {
            let ghost ci = choose|i: int| is_nth_sorted(s, i, a.layout_editor_index as int);
            assert(is_nth_sorted(s, i as int, a.layout_editor_index as int));
            proof {
                lemma_nth_unique(s, i as int, ci, a.layout_editor_index as int);
            }
            let kind = app.custom_layout.panes[i].kind;
            let mut l = app.custom_layout.clone();
            if c == ' ' {
                l.toggle_visibility(kind);
            } else if c == '<' {
                l.swap_order(i, -1);
            } else if c == '>' {
                l.swap_order(i, 1);
            } else if c == '+' || c == '=' {
                proof {
                    lemma_find_kind(s, kind);
                }
                l.resize_pane(kind, 1);
            } else {
                proof {
                    lemma_find_kind(s, kind);
                }
                l.resize_pane(kind, -1);
            }
            app.custom_layout = l;
        },
        None => {},
    }
}

proof fn lemma_nth_unique(s: Seq<PaneConfig>, i: int, j: int, n: int)
    requires
        is_nth_sorted(s, i, n),
        is_nth_sorted(s, j, n),
    ensures
        i == j,
{
    if i != j {
        if s[i].order < s[j].order || (s[i].order == s[j].order && i < j) {
            lemma_rank_less(s, i, j, s.len() as int);
        } else {
            lemma_rank_less(s, j, i, s.len() as int);
        }
    }
}

/// A pane sorted before another has a smaller rank.
proof fn lemma_rank_less(s: Seq<PaneConfig>, i: int, j: int, n: int)
    requires
        0 <= i < s.len(),
        0 <= j < s.len(),
        s[i].order < s[j].order || (s[i].order == s[j].order && i < j),
        0 <= n <= s.len(),
    ensures
        rank_below(s, i, n) + (if i < n { 1int } else { 0int }) <= rank_below(s, j, n),
    decreases n,
{
    if n > 0 {
        lemma_rank_less(s, i, j, n - 1);
    }
}

/// Moves the editor's cursor one pane up or down.
#[verifier::spinoff_prover]
fn move_editor_cursor(app: &mut App, k: KeyEvent, down: bool)
    requires
        down ==> down_key(k),
        !down ==> up_key(k),
        k.code != KeyCode::Esc,
    ensures
        layout_key_done(*old(app), *final(app), k),
{
    proof {
        reveal(layout_key_done);
    }
    if down {
        let n = app.custom_layout.panes.len();
        if n > 0 && app.layout_editor_index < n - 1 {
            app.layout_editor_index = app.layout_editor_index + 1;
        }
    } else if app.layout_editor_index > 0 {
        app.layout_editor_index = app.layout_editor_index - 1;
    }
}

/// Saves the edited layout into the settings and switches to it.
#[verifier::spinoff_prover]
fn save_layout(app: &mut App, k: KeyEvent)
    requires
        k.code == KeyCode::Enter,
    ensures
        layout_key_done(*old(app), *final(app), k),
{
    proof {
        reveal(layout_key_done);
    }
    let saved = app.custom_layout.clone();
    app.config.custom_layout = Some(saved);
    app.save_request = true;
    app.layout_editor_active = false;
    app.layout = DashboardLayout::Custom;
}

#[verifier::spinoff_prover]
#[verifier::rlimit(40)]
pub fn handle_layout_editor_key(app: &mut App, k: KeyEvent)
    requires
        layout_key_ok(*old(app), k),
    ensures
        layout_key_done(*old(app), *final(app), k),
{
    if k.code == KeyCode::Esc {
        app.layout_editor_active = false;
        assert(layout_key_done(*old(app), *app, k)) by {
            reveal(layout_key_done);
        }
        return;
    }
    if k.code == KeyCode::Up || k.code == KeyCode::Char('k') {
        move_editor_cursor(app, k, false);
        return;
    }
    if k.code == KeyCode::Down || k.code == KeyCode::Char('j') {
        move_editor_cursor(app, k, true);
        return;
    }
    if k.code == KeyCode::Enter {
        save_layout(app, k);
        return;
    }
    match k.code {
        KeyCode::Char(c) => {
            if c == ' ' || c == '<' || c == '>' || c == '+' || c == '=' || c == '-' {
                edit_pane(app, k, c);
                return;
            }
        },
        _ => {},
    }
    assert(layout_key_done(*old(app), *app, k)) by {
        reveal(layout_key_done);
    }
}

// ---------------------------------------------------------------------------
// Keys every screen shares
// ---------------------------------------------------------------------------

/// The keys that act the same on every screen.
pub open spec fn global_key(k: KeyEvent) -> bool {
    is_char(k, 'q') || is_char(k, 't') || is_char(k, 'T') || is_char(k, ':') || is_char(k, '?') || is_char(k, 'i')
        || is_char(k, 'f') || is_char(k, 'w')
}

/// `q` asks to quit, `t` switches the theme, `T` the accent, `:` opens the
/// palette, `?` help, `i` integrations, `f` features, `w` workflows.
#[verifier::opaque]
pub open spec fn global_key_done(a: App, b: App, k: KeyEvent) -> bool {
    if is_char(k, 'q') {
        popup_shown(a, b, PopupKind::QuitConfirm)
    } else if is_char(k, 't') {
        theme_toggled(a, b)
    } else if is_char(k, 'T') {
        accent_cycled(a, b)
    } else if is_char(k, ':') {
        palette_opened(a, b)
    } else if is_char(k, '?') {
        popup_shown(a, b, PopupKind::Help)
    } else if is_char(k, 'i') {
        popup_shown(a, b, PopupKind::Integrations)
    } else if is_char(k, 'f') {
        popup_shown(a, b, PopupKind::Features)
    } else {
        popup_shown(a, b, PopupKind::Workflows)
    }
}

#[verifier::spinoff_prover]
#[verifier::rlimit(40)]
fn handle_global_key(app: &mut App, k: KeyEvent)
    requires
        global_key(k),
    ensures
        global_key_done(*old(app), *final(app), k),
{
    if k.code == KeyCode::Char('q') {
        app.open_popup(PopupKind::QuitConfirm);
    } else if k.code == KeyCode::Char('t') {
        app.toggle_theme();
    } else if k.code == KeyCode::Char('T') {
        app.cycle_accent();
    } else if k.code == KeyCode::Char(':') {
        app.open_palette();
    } else if k.code == KeyCode::Char('?') {
        app.open_popup(PopupKind::Help);
    } else if k.code == KeyCode::Char('i') {
        app.open_popup(PopupKind::Integrations);
    } else if k.code == KeyCode::Char('f') {
        app.open_popup(PopupKind::Features);
    } else {
        app.open_popup(PopupKind::Workflows);
    }
    assert(global_key_done(*old(app), *app, k)) by {
        reveal(global_key_done);
    }
}

// ---------------------------------------------------------------------------
// Each screen's keys
// ---------------------------------------------------------------------------

/// Dashboard: Tab/Shift-Tab move the focus, Up/Down select a feature, Enter
/// opens its documents, `a` the attach screen, `c` the constitution, `e` and
/// `p` the extensions and presets popups, `s` the settings, `1`-`4` pick the
/// layout.
#[verifier::opaque]
pub open spec fn dashboard_key_done(a: App, b: App, k: KeyEvent) -> bool {
    if k.code == KeyCode::Tab {
        b == after_tab_forward(a)
    } else if k.code == KeyCode::BackTab {
        b == after_tab_backward(a)
    } else if up_key(k) {
        b == after_prev_feature(a)
    } else if down_key(k) {
        b == after_next_feature(a)
    } else if k.code == KeyCode::Enter {
        b == after_enter_spec_browser(a)
    } else if is_char(k, 'a') {
        b == (App { screen: Screen::SessionAttach, ..a })
    } else if is_char(k, 'c') {
        b == after_enter_constitution(a)
    } else if is_char(k, 'e') {
        popup_shown(App { ext_tab: ExtTab::Extensions, ..a }, b, PopupKind::Extensions)
    } else if is_char(k, 's') {
        b == after_enter_settings(a)
    } else if is_char(k, 'p') {
        popup_shown(App { ext_tab: ExtTab::Presets, ..a }, b, PopupKind::Presets)
    } else if is_char(k, '1') {
        b == (App { layout: DashboardLayout::Overview, ..a })
    } else if is_char(k, '2') {
        b == (App { layout: DashboardLayout::Coding, ..a })
    } else if is_char(k, '3') {
        b == (App { layout: DashboardLayout::Audit, ..a })
    } else if is_char(k, '4') {
        b == (App { layout: DashboardLayout::Custom, ..a })
    } else {
        b == a
    }
}

#[verifier::spinoff_prover]
#[verifier::rlimit(40)]
fn dashboard_nav(app: &mut App, k: KeyEvent)
    requires
        k.code == KeyCode::Tab || k.code == KeyCode::BackTab || up_key(k) || down_key(k) || k.code
            == KeyCode::Enter,
    ensures
        dashboard_key_done(*old(app), *final(app), k),
{
    if k.code == KeyCode::Tab {
        app.cycle_tab_forward();
    } else if k.code == KeyCode::BackTab {
        app.cycle_tab_backward();
    } else if k.code == KeyCode::Up || k.code == KeyCode::Char('k') {
        app.select_prev_feature();
    } else if k.code == KeyCode::Down || k.code == KeyCode::Char('j') {
        app.select_next_feature();
    } else {
        app.enter_spec_browser();
    }
    assert(dashboard_key_done(*old(app), *app, k)) by {
        reveal(dashboard_key_done);
    }
}

#[verifier::spinoff_prover]
#[verifier::rlimit(40)]
fn dashboard_letter(app: &mut App, k: KeyEvent, c: char)
    requires
        k.code == KeyCode::Char(c),
        c != 'k' && c != 'j',
    ensures
        dashboard_key_done(*old(app), *final(app), k),
{
    if c == 'a' {
        app.screen = Screen::SessionAttach;
    } else if c == 'c' {
        app.enter_constitution();
    } else if c == 'e' {
        app.ext_tab = ExtTab::Extensions;
        app.open_popup(PopupKind::Extensions);
    } else if c == 's' {
        app.enter_settings();
    } else if c == 'p' {
        app.ext_tab = ExtTab::Presets;
        app.open_popup(PopupKind::Presets);
    } else if c == '1' || c == '2' || c == '3' || c == '4' {
        app.layout = if c == '1' {
            DashboardLayout::Overview
        } else if c == '2' {
            DashboardLayout::Coding
        } else if c == '3' {
            DashboardLayout::Audit
        } else {
            DashboardLayout::Custom
        };
    }
    assert(dashboard_key_done(*old(app), *app, k)) by {
        reveal(dashboard_key_done);
    }
}

#[verifier::spinoff_prover]
fn handle_dashboard_key(app: &mut App, k: KeyEvent)
    ensures
        dashboard_key_done(*old(app), *final(app), k),
{
    match k.code {
        KeyCode::Tab | KeyCode::BackTab | KeyCode::Up | KeyCode::Down | KeyCode::Enter => {
            dashboard_nav(app, k);
        },
        KeyCode::Char(c) => {
            if c == 'k' || c == 'j' {
                dashboard_nav(app, k);
            } else {
                dashboard_letter(app, k, c);
            }
        },
        _ => {
            assert(dashboard_key_done(*old(app), *app, k)) by {
                reveal(dashboard_key_done);
            }
        },
    }
}

/// Spec browser: Tab/Shift-Tab switch documents, Up/Down scroll, Left/Right
/// select the previous/next feature at the top, Esc goes back.
#[verifier::opaque]
pub open spec fn spec_browser_key_done(a: App, b: App, k: KeyEvent) -> bool {
    if k.code == KeyCode::Tab {
        b == after_tab_forward(a)
    } else if k.code == KeyCode::BackTab {
        b == after_tab_backward(a)
    } else if up_key(k) {
        b == after_scroll_up(a)
    } else if down_key(k) {
        b == after_scroll_down(a)
    } else if k.code == KeyCode::Left {
        b == (if a.project.features@.len() == 0 { App { spec_scroll: 0, ..a } } else { after_prev_feature(a) })
    } else if k.code == KeyCode::Right {
        b == (if a.project.features@.len() == 0 { App { spec_scroll: 0, ..a } } else { after_next_feature(a) })
    } else if k.code == KeyCode::Esc {
        b == after_go_back(a)
    } else {
        b == a
    }
}

#[verifier::spinoff_prover]
fn spec_browser_move(app: &mut App, k: KeyEvent)
    requires
        k.code == KeyCode::Tab || k.code == KeyCode::BackTab || up_key(k) || down_key(k),
    ensures
        spec_browser_key_done(*old(app), *final(app), k),
{
    if k.code == KeyCode::Tab {
        app.cycle_tab_forward();
    } else if k.code == KeyCode::BackTab {
        app.cycle_tab_backward();
    } else if k.code == KeyCode::Up || k.code == KeyCode::Char('k') {
        app.scroll_up();
    } else {
        app.scroll_down();
    }
    assert(spec_browser_key_done(*old(app), *app, k)) by {
        reveal(spec_browser_key_done);
    }
}

#[verifier::spinoff_prover]
#[verifier::rlimit(30)]
fn spec_browser_prev(app: &mut App, k: KeyEvent)
    requires
        k.code == KeyCode::Left,
    ensures
        spec_browser_key_done(*old(app), *final(app), k),
{
    app.select_prev_feature();
    app.spec_scroll = 0;
    assert(spec_browser_key_done(*old(app), *app, k)) by {
        reveal(spec_browser_key_done);
    }
}

#[verifier::spinoff_prover]
#[verifier::rlimit(30)]
fn spec_browser_next(app: &mut App, k: KeyEvent)
    requires
        k.code == KeyCode::Right,
    ensures
        spec_browser_key_done(*old(app), *final(app), k),
{
    app.select_next_feature();
    app.spec_scroll = 0;
    assert(spec_browser_key_done(*old(app), *app, k)) by {
        reveal(spec_browser_key_done);
    }
}

#[verifier::spinoff_prover]
fn handle_spec_browser_key(app: &mut App, k: KeyEvent)
    ensures
        spec_browser_key_done(*old(app), *final(app), k),
{
    if k.code == KeyCode::Tab || k.code == KeyCode::BackTab || k.code == KeyCode::Up || k.code == KeyCode::Char('k')
        || k.code == KeyCode::Down || k.code == KeyCode::Char('j') {
        spec_browser_move(app, k);
        return;
    }
    if k.code == KeyCode::Left {
        spec_browser_prev(app, k);
        return;
    }
    if k.code == KeyCode::Right {
        spec_browser_next(app, k);
        return;
    }
    if k.code == KeyCode::Esc {
        app.go_back();
    }
    assert(spec_browser_key_done(*old(app), *app, k)) by {
        reveal(spec_browser_key_done);
    }
}

/// Constitution: Up/Down scroll, Esc goes back.
pub open spec fn constitution_key_done(a: App, b: App, k: KeyEvent) -> bool {
    if up_key(k) {
        b == after_scroll_up(a)
    } else if down_key(k) {
        b == after_scroll_down(a)
    } else if k.code == KeyCode::Esc {
        b == after_go_back(a)
    } else {
        b == a
    }
}

#[verifier::spinoff_prover]
fn handle_constitution_key(app: &mut App, k: KeyEvent)
    ensures
        constitution_key_done(*old(app), *final(app), k),
{
    if k.code == KeyCode::Up || k.code == KeyCode::Char('k') {
        app.scroll_up();
    } else if k.code == KeyCode::Down || k.code == KeyCode::Char('j') {
        app.scroll_down();
    } else if k.code == KeyCode::Esc {
        app.go_back();
    }
}

/// Left, Right and Enter on the settings screen act on the selected row,
/// which must exist; every other key is fine in any state.
pub open spec fn settings_key_ok(a: App, k: KeyEvent) -> bool {
    (k.code == KeyCode::Left || k.code == KeyCode::Right || k.code == KeyCode::Enter) ==> a.settings_index
        < 10
}

/// A key with no palette, popup or layout editor open needs a selected
/// settings row only where the settings screen acts on it.
pub open spec fn plain_key_ok(a: App, k: KeyEvent) -> bool {
    a.screen == Screen::Settings ==> settings_key_ok(a, k)
}

/// Whether `plain_key_ok` holds.
pub fn plain_key_allowed(app: &App, k: KeyEvent) -> (r: bool)
    ensures
        r == plain_key_ok(*app, k),
{
    let acts = match k.code {
        KeyCode::Left | KeyCode::Right | KeyCode::Enter => true,
        _ => false,
    };
    !(app.screen == Screen::Settings && acts) || app.settings_index < 10
}

/// Settings: Up/Down select a row, Left moves its chip back, Right and Enter
/// act on it, Esc goes back.
#[verifier::opaque]
pub open spec fn settings_key_done(a: App, b: App, k: KeyEvent) -> bool {
    if up_key(k) {
        b == after_settings_prev(a)
    } else if down_key(k) {
        b == after_settings_next(a)
    } else if k.code == KeyCode::Left {
        adjusted(a, b, -1)
    } else if k.code == KeyCode::Right || k.code == KeyCode::Enter {
        primary_done(a, b)
    } else if k.code == KeyCode::Esc {
        b == after_go_back(a)
    } else {
        b == a
    }
}

#[verifier::spinoff_prover]
#[verifier::rlimit(40)]
fn handle_settings_key(app: &mut App, k: KeyEvent)
    requires
        settings_key_ok(*old(app), k),
    ensures
        settings_key_done(*old(app), *final(app), k),
{
    if k.code == KeyCode::Up || k.code == KeyCode::Char('k') {
        app.settings_prev();
    } else if k.code == KeyCode::Down || k.code == KeyCode::Char('j') {
        app.settings_next();
    } else if k.code == KeyCode::Left {
        app.settings_adjust(-1);
    } else if k.code == KeyCode::Right || k.code == KeyCode::Enter {
        app.settings_primary_action();
    } else if k.code == KeyCode::Esc {
        app.go_back();
    }
    assert(settings_key_done(*old(app), *app, k)) by {
        reveal(settings_key_done);
    }
}

/// Attach screen: typing and Backspace edit the follow-up text, Esc goes
/// back. Enter with no text asks to attach to the agent's session; with text
/// it sends the text to the session shown, if any, and clears it.
#[verifier::opaque]
pub open spec fn attach_key_done(a: App, b: App, k: KeyEvent, e: Effect) -> bool {
    if k.code == KeyCode::Esc {
        b == after_go_back(a) && e is Nothing
    } else if k.code == KeyCode::Backspace {
        b == (App { attach_input: b.attach_input, ..a }) && b.attach_input@ == dropped(a.attach_input@) && e is Nothing
    } else if k.code is Char {
        b == (App { attach_input: b.attach_input, ..a }) && b.attach_input@ == a.attach_input@.push(k.code->Char_0)
            && e is Nothing
    } else if k.code == KeyCode::Enter {
        if a.attach_input@.len() == 0 {
            b == (App { attach_request: true, ..a }) && e is Nothing
        } else {
            match a.tmux_session {
                Some(t) => b == (App { attach_input: b.attach_input, ..a }) && b.attach_input@.len() == 0
                    && e == (Effect::SendKeys { target: t.name, text: a.attach_input }),
                None => b == a && e is Nothing,
            }
        }
    } else {
        b == a && e is Nothing
    }
}

#[verifier::spinoff_prover]
#[verifier::rlimit(40)]
fn handle_attach_key(app: &mut App, k: KeyEvent) -> (e: Effect)
    ensures
        attach_key_done(*old(app), *final(app), k, e),
{
    if k.code == KeyCode::Esc {
        app.go_back();
        assert(attach_key_done(*old(app), *app, k, Effect::Nothing)) by {
            reveal(attach_key_done);
        }
        return Effect::Nothing;
    }
    if k.code == KeyCode::Backspace {
        let mut t = app.attach_input.clone();
        crate::app::pop_char(&mut t);
        app.attach_input = t;
        assert(attach_key_done(*old(app), *app, k, Effect::Nothing)) by {
            reveal(attach_key_done);
        }
        return Effect::Nothing;
    }
    match k.code {
        KeyCode::Char(c) => {
            let mut t = app.attach_input.clone();
            crate::text::push_char(&mut t, c);
            app.attach_input = t;
            assert(attach_key_done(*old(app), *app, k, Effect::Nothing)) by {
                reveal(attach_key_done);
            }
            return Effect::Nothing;
        },
        _ => {},
    }
    if k.code == KeyCode::Enter {
        if app.attach_input.as_str().is_empty() {
            app.attach_request = true;
            assert(attach_key_done(*old(app), *app, k, Effect::Nothing)) by {
                reveal(attach_key_done);
            }
            return Effect::Nothing;
        }
        match app.attach_target() {
            Some(target) => {
                let text = app.attach_input.clone();
                app.attach_input = String::new();
                let e = Effect::SendKeys { target, text };
                assert(attach_key_done(*old(app), *app, k, e)) by {
                    reveal(attach_key_done);
                }
                return e;
            },
            None => {
                assert(attach_key_done(*old(app), *app, k, Effect::Nothing)) by {
                    reveal(attach_key_done);
                }
                return Effect::Nothing;
            },
        }
    }
    assert(attach_key_done(*old(app), *app, k, Effect::Nothing)) by {
        reveal(attach_key_done);
    }
    Effect::Nothing
}

/// A key handled by the current screen.
#[verifier::opaque]
pub open spec fn screen_key_done(a: App, b: App, k: KeyEvent, e: Effect) -> bool {
    match a.screen {
        Screen::Dashboard => dashboard_key_done(a, b, k) && e is Nothing,
        Screen::SpecBrowser => spec_browser_key_done(a, b, k) && e is Nothing,
        Screen::Constitution => constitution_key_done(a, b, k) && e is Nothing,
        Screen::Settings => settings_key_done(a, b, k) && e is Nothing,
        Screen::SessionAttach => attach_key_done(a, b, k, e),
    }
}

#[verifier::spinoff_prover]
#[verifier::rlimit(40)]
fn handle_screen_key(app: &mut App, k: KeyEvent) -> (e: Effect)
    requires
        plain_key_ok(*old(app), k),
    ensures
        screen_key_done(*old(app), *final(app), k, e),
{
    match app.screen {
        Screen::Dashboard => {
            handle_dashboard_key(app, k);
            assert(screen_key_done(*old(app), *app, k, Effect::Nothing)) by {
                reveal(screen_key_done);
            }
            Effect::Nothing
        },
        Screen::SpecBrowser => {
            handle_spec_browser_key(app, k);
            assert(screen_key_done(*old(app), *app, k, Effect::Nothing)) by {
                reveal(screen_key_done);
            }
            Effect::Nothing
        },
        Screen::Constitution => {
            handle_constitution_key(app, k);
            assert(screen_key_done(*old(app), *app, k, Effect::Nothing)) by {
                reveal(screen_key_done);
            }
            Effect::Nothing
        },
        Screen::Settings => {
            handle_settings_key(app, k);
            assert(screen_key_done(*old(app), *app, k, Effect::Nothing)) by {
                reveal(screen_key_done);
            }
            Effect::Nothing
        },
        Screen::SessionAttach => {
            let e = handle_attach_key(app, k);
            assert(screen_key_done(*old(app), *app, k, e)) by {
                reveal(screen_key_done);
            }
            e
        },
    }
}

/// A key with no palette, popup or layout editor open: the shared keys first,
/// then Ctrl-K for the palette, then the screen's own keys.
#[verifier::opaque]
pub open spec fn plain_key_done(a: App, b: App, k: KeyEvent, e: Effect) -> bool {
    if global_key(k) {
        global_key_done(a, b, k) && e is Nothing
    } else if k.ctrl && is_char(k, 'k') {
        palette_opened(a, b) && e is Nothing
    } else {
        screen_key_done(a, b, k, e)
    }
}

#[verifier::spinoff_prover]
#[verifier::rlimit(40)]
pub fn handle_plain_key(app: &mut App, k: KeyEvent) -> (e: Effect)
    requires
        plain_key_ok(*old(app), k),
    ensures
        plain_key_done(*old(app), *final(app), k, e),
{
    let g = match k.code {
        KeyCode::Char(c) => c == 'q' || c == 't' || c == 'T' || c == ':' || c == '?' || c == 'i' || c == 'f' || c
            == 'w',
        _ => false,
    };
    if g {
        handle_global_key(app, k);
        assert(plain_key_done(*old(app), *app, k, Effect::Nothing)) by {
            reveal(plain_key_done);
        }
        return Effect::Nothing;
    }
    if k.ctrl && k.code == KeyCode::Char('k') {
        app.open_palette();
        assert(plain_key_done(*old(app), *app, k, Effect::Nothing)) by {
            reveal(plain_key_done);
        }
        return Effect::Nothing;
    }
    let e = handle_screen_key(app, k);
    assert(plain_key_done(*old(app), *app, k, e)) by {
        reveal(plain_key_done);
    }
    e
}

} // verus!
