//! The dashboard's state: which screen, popup, pane and list entry is
//! selected, what the catalogs offer, and how each user operation changes it.
use vstd::prelude::*;
use crate::cli::{output_after, status_after, CliAction, CliEvent, CliJob, JobStatus};
use crate::config::{accent_named, accent_text, config_locations, mode_named, mode_text, AppConfig};
use crate::layout::{default_panes, CustomLayout};
use crate::registry::{
    CatalogSource, CatalogTarget, ExtensionInfo, ExtensionSource, IntegrationInfo, PresetInfo, WorkflowInfo,
};
use crate::speckit::{Feature, Project};
use crate::text::{
    chars_of, contains, contains_range, lowercase, parse_u8, parse_u8_range, push_char, string_of_range,
    to_lowercase, trim, trim_range, word_ranges, words,
};
use crate::theme::{accent_after, palette, palette_of, Accent, Palette, ThemeMode};
use crate::tmux::{session_for_feature, session_index, texts_of, TmuxSession};
use crate::views::{covers, Region};

verus! {

#[derive(Debug, Clone, Copy, PartialEq, Eq, Structural)]
pub enum Screen {
    Dashboard,
    SpecBrowser,
    Constitution,
    Settings,
    SessionAttach,
}

#[derive(Debug, Clone, Copy, PartialEq, Eq, Structural)]
pub enum DashboardLayout {
    Overview,
    Coding,
    Audit,
    Custom,
}

#[derive(Debug, Clone, Copy, PartialEq, Eq, Structural)]
pub enum Pane {
    FeatureList,
    Workflow,
    AgentOutput,
    SpecBrowser,
    Constitution,
    ExtensionsPresets,
}

#[derive(Debug, Clone, Copy, PartialEq, Eq, Structural)]
pub enum SpecTab {
    Spec,
    Plan,
    Tasks,
    Research,
}

pub open spec fn spec_tab_label(t: SpecTab) -> Seq<char> {
    match t {
        SpecTab::Spec => "spec"@,
        SpecTab::Plan => "plan"@,
        SpecTab::Tasks => "tasks"@,
        SpecTab::Research => "research"@,
    }
}

/// The tab after `t` in the cycle spec → plan → tasks → research → spec.
pub open spec fn tab_after(t: SpecTab) -> SpecTab {
    match t {
        SpecTab::Spec => SpecTab::Plan,
        SpecTab::Plan => SpecTab::Tasks,
        SpecTab::Tasks => SpecTab::Research,
        SpecTab::Research => SpecTab::Spec,
    }
}

/// The tab before `t` in the same cycle.
pub open spec fn tab_before(t: SpecTab) -> SpecTab {
    match t {
        SpecTab::Spec => SpecTab::Research,
        SpecTab::Plan => SpecTab::Spec,
        SpecTab::Tasks => SpecTab::Plan,
        SpecTab::Research => SpecTab::Tasks,
    }
}

impl SpecTab {
    pub fn label(&self) -> (r: &'static str)
        ensures
            r@ == spec_tab_label(*self),
    {
        match self {
            SpecTab::Spec => "spec",
            SpecTab::Plan => "plan",
            SpecTab::Tasks => "tasks",
            SpecTab::Research => "research",
        }
    }

    /// The following tab, wrapping from research back to spec.
    pub fn next(self) -> (r: Self)
        ensures
            r == tab_after(self),
    {
        match self {
            SpecTab::Spec => SpecTab::Plan,
            SpecTab::Plan => SpecTab::Tasks,
            SpecTab::Tasks => SpecTab::Research,
            SpecTab::Research => SpecTab::Spec,
        }
    }

    /// The preceding tab, wrapping from spec back to research.
    pub fn prev(self) -> (r: Self)
        ensures
            r == tab_before(self),
    {
        match self {
            SpecTab::Spec => SpecTab::Research,
            SpecTab::Plan => SpecTab::Spec,
            SpecTab::Tasks => SpecTab::Plan,
            SpecTab::Research => SpecTab::Tasks,
        }
    }
}

/// Stepping to the next document tab and back (or back and then forward)
/// returns to the tab one started from, and four steps come full circle.
pub proof fn law_spec_tab_cycle(t: SpecTab)
    ensures
        tab_before(tab_after(t)) == t,
        tab_after(tab_before(t)) == t,
        tab_after(tab_after(tab_after(tab_after(t)))) == t,
        tab_after(t) != t,
{
}

#[derive(Debug, Clone, Copy, PartialEq, Eq, Structural)]
pub enum ExtTab {
    Extensions,
    Presets,
}

#[derive(Debug, Clone, Copy, PartialEq, Eq, Structural)]
pub enum PopupKind {
    Integrations,
    Extensions,
    Presets,
    Features,
    Workflows,
    Catalogs,
    Help,
    QuitConfirm,
    CommandPalette,
    CliConfirm,
    CliOutput,
}

#[derive(Debug, Clone, Copy, PartialEq, Eq, Structural)]
pub enum SettingsRow {
    Theme,
    Accent,
    DashboardLayout,
    AgentTailFollow,
    MouseSupport,
    ConfirmForce,
    TmuxPrefix,
    CustomizePanes,
    AttachSession,
    ConfigPath,
}

/// The rows of the settings screen, top to bottom.
pub open spec fn settings_rows() -> Seq<SettingsRow> {
    seq![
        SettingsRow::Theme,
        SettingsRow::Accent,
        SettingsRow::DashboardLayout,
        SettingsRow::AgentTailFollow,
        SettingsRow::MouseSupport,
        SettingsRow::ConfirmForce,
        SettingsRow::TmuxPrefix,
        SettingsRow::CustomizePanes,
        SettingsRow::AttachSession,
        SettingsRow::ConfigPath,
    ]
}

pub open spec fn settings_row_label(r: SettingsRow) -> Seq<char> {
    match r {
        SettingsRow::Theme => "Theme"@,
        SettingsRow::Accent => "Accent palette"@,
        SettingsRow::DashboardLayout => "Dashboard layout"@,
        SettingsRow::AgentTailFollow => "Agent tail follow"@,
        SettingsRow::MouseSupport => "Mouse support"@,
        SettingsRow::ConfirmForce => "Confirm before --force"@,
        SettingsRow::TmuxPrefix => "tmux session prefix"@,
        SettingsRow::CustomizePanes => "Customize panes"@,
        SettingsRow::AttachSession => "Attach agent session"@,
        SettingsRow::ConfigPath => "Config location"@,
    }
}

/// The chip values an option row offers; empty for text and action rows.
pub open spec fn settings_row_options(r: SettingsRow) -> Seq<Seq<char>> {
    match r {
        SettingsRow::Theme => seq!["dark"@, "light"@],
        SettingsRow::Accent => seq!["indigo"@, "teal"@, "amber"@],
        SettingsRow::DashboardLayout => seq!["overview"@, "coding"@, "audit"@],
        SettingsRow::AgentTailFollow => seq!["on"@, "off"@],
        SettingsRow::MouseSupport => seq!["on"@, "off"@],
        SettingsRow::ConfirmForce => seq!["always"@, "never"@],
        SettingsRow::ConfigPath => seq![
            "./.spectatui.toml"@,
            "~/.spectatui.toml"@,
            "~/.config/spectatui/config.toml"@,
        ],
        _ => Seq::empty(),
    }
}

pub open spec fn views_of(s: Seq<&'static str>) -> Seq<Seq<char>> {
    Seq::new(s.len(), |i: int| s[i]@)
}

impl SettingsRow {
    /// Every row, in screen order.
    pub fn all() -> (r: &'static [SettingsRow])
        ensures
            r@ == settings_rows(),
    {
        let r: &'static [SettingsRow] = &[
            SettingsRow::Theme,
            SettingsRow::Accent,
            SettingsRow::DashboardLayout,
            SettingsRow::AgentTailFollow,
            SettingsRow::MouseSupport,
            SettingsRow::ConfirmForce,
            SettingsRow::TmuxPrefix,
            SettingsRow::CustomizePanes,
            SettingsRow::AttachSession,
            SettingsRow::ConfigPath,
        ];
        assert(r@ =~= settings_rows());
        r
    }

    pub fn label(&self) -> (r: &'static str)
        ensures
            r@ == settings_row_label(*self),
    {
        match self {
            SettingsRow::Theme => "Theme",
            SettingsRow::Accent => "Accent palette",
            SettingsRow::DashboardLayout => "Dashboard layout",
            SettingsRow::AgentTailFollow => "Agent tail follow",
            SettingsRow::MouseSupport => "Mouse support",
            SettingsRow::ConfirmForce => "Confirm before --force",
            SettingsRow::TmuxPrefix => "tmux session prefix",
            SettingsRow::CustomizePanes => "Customize panes",
            SettingsRow::AttachSession => "Attach agent session",
            SettingsRow::ConfigPath => "Config location",
        }
    }

    /// The selectable chip options for this row, if it is an option row.
    pub fn options(&self) -> (r: &'static [&'static str])
        ensures
            views_of(r@) == settings_row_options(*self),
    {
        let r: &'static [&'static str] = match self {
            SettingsRow::Theme => &["dark", "light"],
            SettingsRow::Accent => &["indigo", "teal", "amber"],
            SettingsRow::DashboardLayout => &["overview", "coding", "audit"],
            SettingsRow::AgentTailFollow => &["on", "off"],
            SettingsRow::MouseSupport => &["on", "off"],
            SettingsRow::ConfirmForce => &["always", "never"],
            SettingsRow::ConfigPath => config_locations(),
            _ => &[],
        };
        assert(views_of(r@) =~= settings_row_options(*self));
        r
    }

    /// Whether this row is a free-text field (edited inline) rather than a
    /// chip/option or action row.
    pub fn is_text(&self) -> (r: bool)
        ensures
            r == (*self == SettingsRow::TmuxPrefix),
    {
        match self {
            SettingsRow::TmuxPrefix => true,
            _ => false,
        }
    }
}

/// The command palette's typed query and highlighted entry.
#[derive(Debug)]
pub struct PaletteState {
    pub input: String,
    pub selected: usize,
}

/// Catalog sources for the Catalog Manager popup, one list per resource kind.
#[derive(Debug)]
pub struct CatalogSourcesState {
    pub extensions: Vec<CatalogSource>,
    pub presets: Vec<CatalogSource>,
    pub integrations: Vec<CatalogSource>,
    pub workflows: Vec<CatalogSource>,
}

pub open spec fn sources_for(s: CatalogSourcesState, t: CatalogTarget) -> Seq<CatalogSource> {
    match t {
        CatalogTarget::Extension => s.extensions@,
        CatalogTarget::Preset => s.presets@,
        CatalogTarget::Integration => s.integrations@,
        CatalogTarget::Workflow => s.workflows@,
    }
}

impl CatalogSourcesState {
    pub fn new() -> (r: Self)
        ensures
            r.extensions@.len() == 0,
            r.presets@.len() == 0,
            r.integrations@.len() == 0,
            r.workflows@.len() == 0,
    {
        CatalogSourcesState {
            extensions: Vec::new(),
            presets: Vec::new(),
            integrations: Vec::new(),
            workflows: Vec::new(),
        }
    }

    pub fn for_target(&self, target: CatalogTarget) -> (r: &Vec<CatalogSource>)
        ensures
            r@ == sources_for(*self, target),
    {
        match target {
            CatalogTarget::Extension => &self.extensions,
            CatalogTarget::Preset => &self.presets,
            CatalogTarget::Integration => &self.integrations,
            CatalogTarget::Workflow => &self.workflows,
        }
    }

    /// Number of sources over all four kinds.
    pub fn total(&self) -> (r: usize)
        requires
            self.extensions@.len() + self.presets@.len() + self.integrations@.len()
                + self.workflows@.len() <= usize::MAX,
        ensures
            r == self.extensions@.len() + self.presets@.len() + self.integrations@.len()
                + self.workflows@.len(),
    {
        self.extensions.len() + self.presets.len() + self.integrations.len() + self.workflows.len()
    }
}

/// `"url name [priority]"` split into its parts: the first two words, and the
/// third parsed as a `u8` when there is one that parses.
pub open spec fn catalog_add_parts(input: Seq<char>) -> Option<(Seq<char>, Seq<char>, Option<u8>)> {
    let w = words(input);
    if w.len() < 2 {
        None
    } else {
        Some((w[0], w[1], if w.len() >= 3 { parse_u8(w[2]) } else { None }))
    }
}

/// Parse the Catalog Manager's inline "add source" input, `"url name [priority]"`,
/// into `(url, name, priority)`. `None` when the name is missing or the input
/// is empty.
pub fn parse_catalog_add_input(input: &str) -> (r: Option<(String, String, Option<u8>)>)
    ensures
        match catalog_add_parts(input@) {
            None => r is None,
            Some((u, n, p)) => r matches Some((ru, rn, rp)) && ru@ == u && rn@ == n && rp == p,
        },
{
    let v = chars_of(input);
    let w = word_ranges(&v, 0, v.len());
    assert(v@.subrange(0, v@.len() as int) =~= input@);
    if w.len() < 2 {
        return None;
    }
    let url = string_of_range(&v, w[0].0, w[0].1);
    let name = string_of_range(&v, w[1].0, w[1].1);
    let priority = if w.len() >= 3 {
        parse_u8_range(&v, w[2].0, w[2].1)
    } else {
        None
    };
    Some((url, name, priority))
}

/// What a command-palette entry does when it is run.
#[derive(Debug, Clone, Copy, PartialEq, Eq, Structural)]
pub enum PaletteAction {
    SetLayout(DashboardLayout),
    SetScreen(Screen),
    ToggleTheme,
    CycleAccent,
    OpenPopup(PopupKind),
    Quit,
}

#[derive(Debug)]
pub struct PaletteCommand {
    pub label: &'static str,
    pub hint: &'static str,
    pub action: PaletteAction,
}

/// The palette's entries, in the order it lists them: label, key hint and
/// action.
pub open spec fn palette_entries() -> Seq<(Seq<char>, Seq<char>, PaletteAction)> {
    seq![
        ("Go to Dashboard"@, "d"@, PaletteAction::SetScreen(Screen::Dashboard)),
        ("Go to Spec Browser"@, "s"@, PaletteAction::SetScreen(Screen::SpecBrowser)),
        ("Go to Constitution"@, "C"@, PaletteAction::SetScreen(Screen::Constitution)),
        ("Show Features"@, "f"@, PaletteAction::OpenPopup(PopupKind::Features)),
        ("Manage Integrations"@, "i"@, PaletteAction::OpenPopup(PopupKind::Integrations)),
        ("Manage Extensions"@, "e"@, PaletteAction::OpenPopup(PopupKind::Extensions)),
        ("Manage Presets"@, "p"@, PaletteAction::OpenPopup(PopupKind::Presets)),
        ("Manage Workflows"@, "w"@, PaletteAction::OpenPopup(PopupKind::Workflows)),
        ("Manage Catalogs"@, "c"@, PaletteAction::OpenPopup(PopupKind::Catalogs)),
        ("Open Settings"@, "⚙"@, PaletteAction::SetScreen(Screen::Settings)),
        ("Layout: Overview"@, "1"@, PaletteAction::SetLayout(DashboardLayout::Overview)),
        ("Layout: Coding"@, "2"@, PaletteAction::SetLayout(DashboardLayout::Coding)),
        ("Layout: Audit"@, "3"@, PaletteAction::SetLayout(DashboardLayout::Audit)),
        ("Layout: Custom (edited)"@, "4"@, PaletteAction::SetLayout(DashboardLayout::Custom)),
        ("Attach agent session"@, "a"@, PaletteAction::SetScreen(Screen::SessionAttach)),
        ("Toggle theme (dark / light)"@, "t"@, PaletteAction::ToggleTheme),
        ("Cycle accent palette"@, "T"@, PaletteAction::CycleAccent),
        ("Help"@, "?"@, PaletteAction::OpenPopup(PopupKind::Help)),
        ("Quit"@, "q"@, PaletteAction::Quit),
    ]
}

pub open spec fn command_view(c: PaletteCommand) -> (Seq<char>, Seq<char>, PaletteAction) {
    (c.label@, c.hint@, c.action)
}

fn command(label: &'static str, hint: &'static str, action: PaletteAction) -> (r: PaletteCommand)
    ensures
        command_view(r) == (label@, hint@, action),
{
    PaletteCommand { label, hint, action }
}

/// Every command the palette offers.
pub fn palette_commands() -> (r: Vec<PaletteCommand>)
    ensures
        r@.len() == palette_entries().len(),
        forall|i: int| 0 <= i < r@.len() ==> command_view(#[trigger] r@[i]) == palette_entries()[i],
{
    let r = vec![
        command("Go to Dashboard", "d", PaletteAction::SetScreen(Screen::Dashboard)),
        command("Go to Spec Browser", "s", PaletteAction::SetScreen(Screen::SpecBrowser)),
        command("Go to Constitution", "C", PaletteAction::SetScreen(Screen::Constitution)),
        command("Show Features", "f", PaletteAction::OpenPopup(PopupKind::Features)),
        command("Manage Integrations", "i", PaletteAction::OpenPopup(PopupKind::Integrations)),
        command("Manage Extensions", "e", PaletteAction::OpenPopup(PopupKind::Extensions)),
        command("Manage Presets", "p", PaletteAction::OpenPopup(PopupKind::Presets)),
        command("Manage Workflows", "w", PaletteAction::OpenPopup(PopupKind::Workflows)),
        command("Manage Catalogs", "c", PaletteAction::OpenPopup(PopupKind::Catalogs)),
        command("Open Settings", "⚙", PaletteAction::SetScreen(Screen::Settings)),
        command("Layout: Overview", "1", PaletteAction::SetLayout(DashboardLayout::Overview)),
        command("Layout: Coding", "2", PaletteAction::SetLayout(DashboardLayout::Coding)),
        command("Layout: Audit", "3", PaletteAction::SetLayout(DashboardLayout::Audit)),
        command("Layout: Custom (edited)", "4", PaletteAction::SetLayout(DashboardLayout::Custom)),
        command("Attach agent session", "a", PaletteAction::SetScreen(Screen::SessionAttach)),
        command("Toggle theme (dark / light)", "t", PaletteAction::ToggleTheme),
        command("Cycle accent palette", "T", PaletteAction::CycleAccent),
        command("Help", "?", PaletteAction::OpenPopup(PopupKind::Help)),
        command("Quit", "q", PaletteAction::Quit),
    ];
    assert forall|i: int| 0 <= i < r@.len() implies command_view(#[trigger] r@[i]) == palette_entries()[i] by {
    }
    r
}

/// A clickable action, registered against a screen rectangle while drawing
/// and run on a left click.
#[derive(Debug, Clone, Copy, PartialEq, Eq, Structural)]
pub enum ClickAction {
    OpenPopup(PopupKind),
    SetScreen(Screen),
    OpenSettings,
    SetLayout(DashboardLayout),
    FocusPane(Pane),
    SelectFeature(usize),
    SelectExt(usize),
    SelectPreset(usize),
    SelectIntegration(usize),
    SelectWorkflow(usize),
    SelectCatalogSource(usize),
    SetCatalogTab(CatalogTarget),
    SetCatalogAddCursor(usize),
    SetExtTab(ExtTab),
    SetSpecTab(SpecTab),
    SettingsSelect(usize),
    SettingsChip(SettingsRow, usize),
    SettingsEdit(usize),
    LayoutEditorSelect(usize),
    PaletteRun(usize),
    JumpToFeature(usize),
}

/// Catalog items fetched once in the background, kept so that every
/// re-discovery of the project can merge them in again.
#[derive(Debug)]
pub struct CatalogResults {
    pub integrations: Vec<IntegrationInfo>,
    pub extensions: Vec<ExtensionInfo>,
    pub presets: Vec<PresetInfo>,
    pub workflows: Vec<WorkflowInfo>,
}

/// What `Path::file_name` gives for a path written as text, lossily decoded:
/// its last normal component; empty when it has none (`.`, `..`, `/`).
pub uninterp spec fn path_file_name(path: Seq<char>) -> Seq<char>;

/// The last component of a path given as text (`Path::file_name`), or the
/// empty text where there is none.
#[verifier::external_body]
fn file_name_of(path: &str) -> (r: String)
    ensures
        r@ == path_file_name(path@),
{
    std::path::Path::new(path).file_name().unwrap_or_default().to_string_lossy().to_string()
}

/// The whole state of the dashboard.
#[derive(Debug)]
pub struct App {
    pub project: Project,
    pub screen: Screen,
    pub layout: DashboardLayout,
    pub focused_pane: Pane,
    pub feature_index: usize,
    pub spec_tab: SpecTab,
    pub spec_scroll: u16,
    /// Largest `spec_scroll` for the document drawn last (lines minus viewport).
    pub doc_scroll_max: u16,
    pub theme_mode: ThemeMode,
    pub accent: Accent,
    pub theme: Palette,
    pub should_quit: bool,
    pub project_name: String,
    pub project_path: String,
    pub config: AppConfig,
    /// Set when the settings changed and should be written to the settings file.
    pub save_request: bool,
    /// The previous settings location when the user moved the settings file;
    /// the file there is to be removed once the settings are saved anew.
    pub relocate_request: Option<String>,
    pub ext_tab: ExtTab,
    pub ext_index: usize,
    pub preset_index: usize,
    pub active_popup: Option<PopupKind>,
    pub cli_job: Option<CliJob>,
    pub cli_scroll: u16,
    /// Largest `cli_scroll` for the CLI output drawn last.
    pub cli_scroll_max: u16,
    pub pending_action: Option<CliAction>,
    pub force_flag: bool,
    pub tmux_available: bool,
    pub tmux_session: Option<TmuxSession>,
    pub settings_index: usize,
    /// Row being edited as text, if any.
    pub settings_editing: Option<usize>,
    pub palette: Option<PaletteState>,
    pub custom_layout: CustomLayout,
    pub layout_editor_index: usize,
    pub layout_editor_active: bool,
    pub agent_lines: Vec<String>,
    pub integration_index: usize,
    pub wf_index: usize,
    pub cat_tab: CatalogTarget,
    pub cat_index: usize,
    /// `Some(buffer)` while the inline "add source" form is open.
    pub cat_add_input: Option<String>,
    /// Character (not byte) index into `cat_add_input`.
    pub cat_add_cursor: usize,
    pub catalog_sources: CatalogSourcesState,
    pub catalog_refresh_request: Option<CatalogTarget>,
    pub filter_query: String,
    pub filter_active: bool,
    pub indexing: bool,
    pub indexing_tick: u8,
    pub cli_available: bool,
    pub catalog_cache: Option<CatalogResults>,
    /// Ids of the features that have a live agent session.
    pub running_features: Vec<String>,
    pub attach_input: String,
    pub attach_request: bool,
    pub launch_request: bool,
    /// Clickable regions registered while drawing the current frame.
    pub click_regions: Vec<(Region, ClickAction)>,
}

/// A new dashboard's selections, as `App::new` makes them.
pub open spec fn initial_state(a: App) -> bool {
    &&& a.screen == Screen::Dashboard
    &&& a.layout == DashboardLayout::Overview
    &&& a.focused_pane == Pane::FeatureList
    &&& a.feature_index == 0
    &&& a.spec_tab == SpecTab::Spec
    &&& a.spec_scroll == 0
    &&& a.doc_scroll_max == 0
    &&& !a.should_quit
    &&& !a.save_request
    &&& a.relocate_request is None
    &&& a.ext_tab == ExtTab::Extensions
    &&& a.ext_index == 0
    &&& a.preset_index == 0
    &&& a.active_popup is None
    &&& a.cli_job is None
    &&& a.cli_scroll == 0
    &&& a.cli_scroll_max == 0
    &&& a.pending_action is None
    &&& !a.force_flag
    &&& !a.tmux_available
    &&& a.tmux_session is None
    &&& a.settings_index == 0
    &&& a.settings_editing is None
    &&& a.palette is None
    &&& a.layout_editor_index == 0
    &&& !a.layout_editor_active
    &&& a.agent_lines@.len() == 0
    &&& a.integration_index == 0
    &&& a.wf_index == 0
    &&& a.cat_tab == CatalogTarget::Extension
    &&& a.cat_index == 0
    &&& a.cat_add_input is None
    &&& a.cat_add_cursor == 0
    &&& sources_for(a.catalog_sources, CatalogTarget::Extension).len() == 0
    &&& sources_for(a.catalog_sources, CatalogTarget::Preset).len() == 0
    &&& sources_for(a.catalog_sources, CatalogTarget::Integration).len() == 0
    &&& sources_for(a.catalog_sources, CatalogTarget::Workflow).len() == 0
    &&& a.catalog_refresh_request is None
    &&& a.filter_query@.len() == 0
    &&& !a.filter_active
    &&& a.indexing
    &&& a.indexing_tick == 0
    &&& a.cli_available
    &&& a.catalog_cache is None
    &&& a.running_features@.len() == 0
    &&& a.attach_input@.len() == 0
    &&& !a.attach_request
    &&& !a.launch_request
    &&& a.click_regions@.len() == 0
}

impl App {
    /// A dashboard over `project` with the user's settings `config`.
    pub fn new(project: Project, config: AppConfig) -> (r: Self)
        ensures
            initial_state(r),
            r.project == project,
            r.config == config,
            r.theme_mode == mode_named(config.theme@),
            r.accent == accent_named(config.accent@),
            r.theme == palette_of(r.theme_mode, r.accent),
            r.project_name@ == path_file_name(project.root@),
            r.project_path@ == project.root@,
            match config.custom_layout {
                Some(l) => r.custom_layout.panes@ == l.panes@,
                None => r.custom_layout.panes@ == default_panes(),
            },
    {
        let mode = config.theme_mode();
        let accent = config.accent();
        let theme = palette(mode, accent);
        let project_name = file_name_of(project.root.as_str());
        let project_path = project.root.clone();
        let custom_layout = match &config.custom_layout {
            Some(l) => l.clone(),
            None => CustomLayout::default(),
        };
        App {
            project,
            screen: Screen::Dashboard,
            layout: DashboardLayout::Overview,
            focused_pane: Pane::FeatureList,
            feature_index: 0,
            spec_tab: SpecTab::Spec,
            spec_scroll: 0,
            doc_scroll_max: 0,
            theme_mode: mode,
            accent,
            theme,
            should_quit: false,
            project_name,
            project_path,
            config,
            save_request: false,
            relocate_request: None,
            ext_tab: ExtTab::Extensions,
            ext_index: 0,
            preset_index: 0,
            active_popup: None,
            cli_job: None,
            cli_scroll: 0,
            cli_scroll_max: 0,
            pending_action: None,
            force_flag: false,
            tmux_available: false,
            tmux_session: None,
            settings_index: 0,
            settings_editing: None,
            palette: None,
            custom_layout,
            layout_editor_index: 0,
            layout_editor_active: false,
            agent_lines: Vec::new(),
            integration_index: 0,
            wf_index: 0,
            cat_tab: CatalogTarget::Extension,
            cat_index: 0,
            cat_add_input: None,
            cat_add_cursor: 0,
            catalog_sources: CatalogSourcesState::new(),
            catalog_refresh_request: None,
            filter_query: String::new(),
            filter_active: false,
            indexing: true,
            indexing_tick: 0,
            cli_available: true,
            catalog_cache: None,
            running_features: Vec::new(),
            attach_input: String::new(),
            attach_request: false,
            launch_request: false,
            click_regions: Vec::new(),
        }
    }
}

/// Index of the first integration marked as the project's default.
pub open spec fn first_default(s: Seq<IntegrationInfo>) -> Option<int>
    decreases s.len(),
{
    if s.len() == 0 {
        None
    } else {
        match first_default(s.drop_last()) {
            Some(i) => Some(i),
            None => if s.last().is_default { Some(s.len() - 1) } else { None },
        }
    }
}

proof fn lemma_first_default_prefix(s: Seq<IntegrationInfo>, n: int)
    requires
        0 <= n <= s.len(),
        first_default(s.take(n)) is Some,
    ensures
        first_default(s) == first_default(s.take(n)),
    decreases s.len() - n,
{
    if n < s.len() {
        assert(s.take(n + 1).drop_last() =~= s.take(n));
        lemma_first_default_prefix(s, n + 1);
    } else {
        assert(s.take(n) =~= s);
    }
}

proof fn lemma_first_default_found(s: Seq<IntegrationInfo>)
    ensures
        first_default(s) matches Some(i) ==> 0 <= i < s.len() && s[i].is_default,
        first_default(s) is None ==> forall|j: int| 0 <= j < s.len() ==> !(#[trigger] s[j]).is_default,
    decreases s.len(),
{
    if s.len() > 0 {
        lemma_first_default_found(s.drop_last());
        assert forall|j: int| 0 <= j < s.len() - 1 implies s.drop_last()[j] == #[trigger] s[j] by {}
    }
}

/// Index of the default integration in `s`, found by a scan from the front.
fn find_default(s: &Vec<IntegrationInfo>) -> (r: Option<usize>)
    ensures
        r matches Some(i) ==> i < s@.len() && first_default(s@) == Some(i as int),
        r is None ==> first_default(s@) is None,
{
    proof {
        lemma_first_default_found(s@);
    }
    let mut i: usize = 0;
    while i < s.len()
        invariant
            i <= s@.len(),
            first_default(s@.take(i as int)) is None,
        decreases s@.len() - i,
    {
        assert(s@.take(i + 1).drop_last() =~= s@.take(i as int));
        if s[i].is_default {
            assert(first_default(s@.take(i + 1)) == Some(i as int));
            proof {
                lemma_first_default_prefix(s@, i + 1);
            }
            return Some(i);
        }
        i = i + 1;
    }
    assert(s@.take(i as int) =~= s@);
    None
}

impl App {
    /// Display name of the default integration's coding agent, or `agent`.
    pub fn default_agent_name(&self) -> (r: String)
        ensures
            match first_default(self.project.integrations@) {
                Some(i) => r@ == self.project.integrations@[i].name@,
                None => r@ == "agent"@,
            },
    {
        match find_default(&self.project.integrations) {
            Some(i) => self.project.integrations[i].name.clone(),
            None => "agent".to_owned(),
        }
    }

    /// Command of the default integration's coding agent, if there is one.
    pub fn default_agent_key(&self) -> (r: Option<String>)
        ensures
            match first_default(self.project.integrations@) {
                Some(i) => r matches Some(k) && k@ == self.project.integrations@[i].key@,
                None => r is None,
            },
    {
        match find_default(&self.project.integrations) {
            Some(i) => Some(self.project.integrations[i].key.clone()),
            None => None,
        }
    }

    /// tmux session name for a feature's coding-agent session: the configured
    /// prefix followed by the feature id.
    pub fn session_name_for(&self, feature_id: &str) -> (r: String)
        ensures
            r@ == self.config.tmux_prefix@ + feature_id@,
    {
        let mut r = self.config.tmux_prefix.clone();
        r.append(feature_id);
        r
    }

    /// Registers a clickable region for the current frame; later ones are on
    /// top.
    #[verifier::spinoff_prover]
    pub fn register_click(&mut self, rect: Region, action: ClickAction)
        ensures
            *final(self) == (App { click_regions: final(self).click_regions, ..*old(self) }),
            final(self).click_regions@ == old(self).click_regions@.push((rect, action)),
    {
        self.click_regions.push((rect, action));
    }

    #[verifier::spinoff_prover]
    pub fn clear_click_regions(&mut self)
        ensures
            *final(self) == (App { click_regions: final(self).click_regions, ..*old(self) }),
            final(self).click_regions@.len() == 0,
    {
        self.click_regions.clear();
    }

    /// The action of the topmost registered region that covers the cell.
    pub fn hit_test(&self, col: u16, row: u16) -> (r: Option<ClickAction>)
        ensures
            match topmost_hit(self.click_regions@, col, row) {
                Some(i) => r == Some(self.click_regions@[i].1),
                None => r is None,
            },
    {
        let mut i = self.click_regions.len();
        assert(self.click_regions@.take(i as int) =~= self.click_regions@);
        while i > 0
            invariant
                i <= self.click_regions@.len(),
                topmost_hit(self.click_regions@, col, row) == topmost_hit(
                    self.click_regions@.take(i as int),
                    col,
                    row,
                ),
            decreases i,
        {
            let (rect, action) = self.click_regions[i - 1];
            assert(self.click_regions@.take(i as int).drop_last() =~= self.click_regions@.take(
                i - 1,
            ));
            if col >= rect.x && (col as u32) < (rect.x as u32) + (rect.width as u32) && row >= rect.y
                && (row as u32) < (rect.y as u32) + (rect.height as u32) {
                return Some(action);
            }
            i = i - 1;
        }
        None
    }

    pub fn selected_feature(&self) -> (r: Option<&Feature>)
        ensures
            self.feature_index < self.project.features@.len() ==> r == Some(
                &self.project.features@[self.feature_index as int],
            ),
            self.feature_index >= self.project.features@.len() ==> r is None,
    {
        if self.feature_index < self.project.features.len() {
            Some(&self.project.features[self.feature_index])
        } else {
            None
        }
    }

    /// Path of the selected feature's document for the current tab, if the
    /// feature has it.
    pub fn selected_doc_path(&self) -> (r: Option<String>)
        ensures
            self.feature_index < self.project.features@.len() ==> r == doc_path(
                self.project.features@[self.feature_index as int],
                self.spec_tab,
            ),
            self.feature_index >= self.project.features@.len() ==> r is None,
    {
        if self.feature_index >= self.project.features.len() {
            return None;
        }
        let a = &self.project.features[self.feature_index].artifacts;
        match self.spec_tab {
            SpecTab::Spec => a.spec.clone(),
            SpecTab::Plan => a.plan.clone(),
            SpecTab::Tasks => a.tasks.clone(),
            SpecTab::Research => a.research.clone(),
        }
    }
}

/// Index of the last region in `regions` that covers the cell.
pub open spec fn topmost_hit(regions: Seq<(Region, ClickAction)>, col: u16, row: u16) -> Option<int>
    decreases regions.len(),
{
    if regions.len() == 0 {
        None
    } else if covers(regions.last().0, col, row) {
        Some(regions.len() - 1)
    } else {
        topmost_hit(regions.drop_last(), col, row)
    }
}

/// The artifact path a document tab shows.
pub open spec fn doc_path(f: Feature, tab: SpecTab) -> Option<String> {
    match tab {
        SpecTab::Spec => f.artifacts.spec,
        SpecTab::Plan => f.artifacts.plan,
        SpecTab::Tasks => f.artifacts.tasks,
        SpecTab::Research => f.artifacts.research,
    }
}

pub open spec fn flipped(m: ThemeMode) -> ThemeMode {
    match m {
        ThemeMode::Dark => ThemeMode::Light,
        ThemeMode::Light => ThemeMode::Dark,
    }
}

/// Next index in a list of `len` entries, wrapping past the end.
pub open spec fn wrap_next(i: int, len: int) -> int {
    (i + 1) % len
}

/// Previous index in a list of `len` entries, wrapping before the start.
pub open spec fn wrap_prev(i: int, len: int) -> int {
    if i == 0 { len - 1 } else { i - 1 }
}

fn next_index(i: usize, len: usize) -> (r: usize)
    requires
        len > 0,
    ensures
        r == wrap_next(i as int, len as int),
{
    let j = i % len;
    proof {
        vstd::arithmetic::div_mod::lemma_add_mod_noop(i as int, 1, len as int);
        vstd::arithmetic::div_mod::lemma_mod_bound(i as int, len as int);
        vstd::arithmetic::div_mod::lemma_mod_bound(i as int + 1, len as int);
        if len > 1 {
            vstd::arithmetic::div_mod::lemma_small_mod(1, len as nat);
        }
    }
    if j + 1 == len {
        proof {
            vstd::arithmetic::div_mod::lemma_mod_self_0(len as int);
        }
        0
    } else {
        proof {
            vstd::arithmetic::div_mod::lemma_small_mod((j + 1) as nat, len as nat);
        }
        j + 1
    }
}

fn prev_index(i: usize, len: usize) -> (r: usize)
    requires
        len > 0,
    ensures
        r == wrap_prev(i as int, len as int),
{
    if i == 0 { len - 1 } else { i - 1 }
}

/// Stepping forward and then back returns to the index one started from, for
/// an index inside the list; and both steps stay inside it.
pub proof fn law_wrap_round_trip(i: int, len: int)
    requires
        0 <= i < len,
    ensures
        wrap_prev(wrap_next(i, len), len) == i,
        wrap_next(wrap_prev(i, len), len) == i,
        0 <= wrap_next(i, len) < len,
        0 <= wrap_prev(i, len) < len,
{
    if i + 1 < len {
        vstd::arithmetic::div_mod::lemma_small_mod((i + 1) as nat, len as nat);
    } else {
        vstd::arithmetic::div_mod::lemma_mod_self_0(len);
    }
    if i > 0 {
        vstd::arithmetic::div_mod::lemma_small_mod(i as nat, len as nat);
    } else {
        vstd::arithmetic::div_mod::lemma_mod_self_0(len);
    }
}

impl App {
    #[verifier::spinoff_prover]
    fn rebuild_theme(&mut self)
        ensures
            *final(self) == (App { theme: palette_of(old(self).theme_mode, old(self).accent), ..*old(self) }),
    {
        self.theme = palette(self.theme_mode, self.accent);
    }

    /// Switches between the dark and light theme and asks for the settings to
    /// be saved.
    #[verifier::spinoff_prover]
    pub fn toggle_theme(&mut self)
        ensures
            *final(self) == (App {
                theme_mode: flipped(old(self).theme_mode),
                theme: palette_of(flipped(old(self).theme_mode), old(self).accent),
                config: final(self).config,
                save_request: true,
                ..*old(self)
            }),
            final(self).config == (AppConfig { theme: final(self).config.theme, ..old(self).config }),
            final(self).config.theme@ == mode_text(flipped(old(self).theme_mode)),
    {
        self.theme_mode = match self.theme_mode {
            ThemeMode::Dark => ThemeMode::Light,
            ThemeMode::Light => ThemeMode::Dark,
        };
        self.rebuild_theme();
        self.config.set_theme(self.theme_mode);
        self.save_request = true;
    }

    /// Moves to the next accent palette and asks for the settings to be saved.
    #[verifier::spinoff_prover]
    pub fn cycle_accent(&mut self)
        ensures
            *final(self) == (App {
                accent: accent_after(old(self).accent),
                theme: palette_of(old(self).theme_mode, accent_after(old(self).accent)),
                config: final(self).config,
                save_request: true,
                ..*old(self)
            }),
            final(self).config == (AppConfig { accent: final(self).config.accent, ..old(self).config }),
            final(self).config.accent@ == accent_text(accent_after(old(self).accent)),
    {
        self.accent = self.accent.next();
        self.rebuild_theme();
        self.config.set_accent(self.accent);
        self.save_request = true;
    }

    /// Selects the next feature (wrapping) and scrolls its document to the top.
    #[verifier::spinoff_prover]
    pub fn select_next_feature(&mut self)
        ensures
            old(self).project.features@.len() == 0 ==> *final(self) == *old(self),
            old(self).project.features@.len() > 0 ==> *final(self) == (App {
                feature_index: wrap_next(
                    old(self).feature_index as int,
                    old(self).project.features@.len() as int,
                ) as usize,
                spec_scroll: 0,
                ..*old(self)
            }),
    {
        if self.project.features.len() > 0 {
            self.feature_index = next_index(self.feature_index, self.project.features.len());
            self.spec_scroll = 0;
        }
    }

    /// Selects the previous feature (wrapping) and scrolls to the top.
    #[verifier::spinoff_prover]
    pub fn select_prev_feature(&mut self)
        ensures
            old(self).project.features@.len() == 0 ==> *final(self) == *old(self),
            old(self).project.features@.len() > 0 ==> *final(self) == (App {
                feature_index: wrap_prev(
                    old(self).feature_index as int,
                    old(self).project.features@.len() as int,
                ) as usize,
                spec_scroll: 0,
                ..*old(self)
            }),
    {
        if self.project.features.len() > 0 {
            self.feature_index = prev_index(self.feature_index, self.project.features.len());
            self.spec_scroll = 0;
        }
    }

    /// Tab: on the dashboard, focus moves feature list → workflow → agent
    /// output → feature list; in the spec browser, the next document tab.
    #[verifier::spinoff_prover]
    pub fn cycle_tab_forward(&mut self)
        ensures
            old(self).screen == Screen::Dashboard ==> *final(self) == (App {
                focused_pane: pane_after(old(self).focused_pane),
                ..*old(self)
            }),
            old(self).screen == Screen::SpecBrowser ==> *final(self) == (App {
                spec_tab: tab_after(old(self).spec_tab),
                spec_scroll: 0,
                ..*old(self)
            }),
            old(self).screen != Screen::Dashboard && old(self).screen != Screen::SpecBrowser
                ==> *final(self) == *old(self),
    {
        match self.screen {
            Screen::Dashboard => {
                self.focused_pane = match self.focused_pane {
                    Pane::FeatureList => Pane::Workflow,
                    Pane::Workflow => Pane::AgentOutput,
                    Pane::AgentOutput => Pane::FeatureList,
                    other => other,
                };
            },
            Screen::SpecBrowser => {
                self.spec_tab = self.spec_tab.next();
                self.spec_scroll = 0;
            },
            _ => {},
        }
    }

    /// Shift-Tab: the reverse of `cycle_tab_forward`.
    #[verifier::spinoff_prover]
    pub fn cycle_tab_backward(&mut self)
        ensures
            old(self).screen == Screen::Dashboard ==> *final(self) == (App {
                focused_pane: pane_before(old(self).focused_pane),
                ..*old(self)
            }),
            old(self).screen == Screen::SpecBrowser ==> *final(self) == (App {
                spec_tab: tab_before(old(self).spec_tab),
                spec_scroll: 0,
                ..*old(self)
            }),
            old(self).screen != Screen::Dashboard && old(self).screen != Screen::SpecBrowser
                ==> *final(self) == *old(self),
    {
        match self.screen {
            Screen::Dashboard => {
                self.focused_pane = match self.focused_pane {
                    Pane::FeatureList => Pane::AgentOutput,
                    Pane::Workflow => Pane::FeatureList,
                    Pane::AgentOutput => Pane::Workflow,
                    other => other,
                };
            },
            Screen::SpecBrowser => {
                self.spec_tab = self.spec_tab.prev();
                self.spec_scroll = 0;
            },
            _ => {},
        }
    }

    /// One line down, not past the end of the document drawn last.
    #[verifier::spinoff_prover]
    pub fn scroll_down(&mut self)
        ensures
            *final(self) == (App {
                spec_scroll: min_u16(sat_inc(old(self).spec_scroll), old(self).doc_scroll_max),
                ..*old(self)
            }),
    {
        let next = if self.spec_scroll < u16::MAX { self.spec_scroll + 1 } else { u16::MAX };
        self.spec_scroll = if next < self.doc_scroll_max { next } else { self.doc_scroll_max };
    }

    #[verifier::spinoff_prover]
    pub fn scroll_up(&mut self)
        ensures
            *final(self) == (App { spec_scroll: sat_dec(old(self).spec_scroll), ..*old(self) }),
    {
        self.spec_scroll = if self.spec_scroll > 0 { self.spec_scroll - 1 } else { 0 };
    }

    #[verifier::spinoff_prover]
    pub fn cli_scroll_down(&mut self)
        ensures
            *final(self) == (App {
                cli_scroll: min_u16(sat_inc(old(self).cli_scroll), old(self).cli_scroll_max),
                ..*old(self)
            }),
    {
        let next = if self.cli_scroll < u16::MAX { self.cli_scroll + 1 } else { u16::MAX };
        self.cli_scroll = if next < self.cli_scroll_max { next } else { self.cli_scroll_max };
    }

    #[verifier::spinoff_prover]
    pub fn cli_scroll_up(&mut self)
        ensures
            *final(self) == (App { cli_scroll: sat_dec(old(self).cli_scroll), ..*old(self) }),
    {
        self.cli_scroll = if self.cli_scroll > 0 { self.cli_scroll - 1 } else { 0 };
    }

    /// Shows the CLI output popup for a freshly started job.
    #[verifier::spinoff_prover]
    pub fn show_cli_job(&mut self, job: CliJob)
        ensures
            *final(self) == (App {
                cli_job: Some(job),
                cli_scroll: 0,
                active_popup: Some(PopupKind::CliOutput),
                ..*old(self)
            }),
    {
        self.cli_job = Some(job);
        self.cli_scroll = 0;
        self.active_popup = Some(PopupKind::CliOutput);
    }

    /// At most one CLI action runs at a time: `false` while the last job is
    /// still pending or running.
    pub fn can_start_cli_action(&self) -> (r: bool)
        ensures
            r == !(self.cli_job matches Some(j) && (j.status == JobStatus::Pending || j.status
                == JobStatus::Running)),
    {
        match &self.cli_job {
            Some(job) => !job.is_active(),
            None => true,
        }
    }

    #[verifier::spinoff_prover]
    pub fn enter_spec_browser(&mut self)
        ensures
            old(self).feature_index < old(self).project.features@.len() ==> *final(self) == (App {
                screen: Screen::SpecBrowser,
                spec_scroll: 0,
                ..*old(self)
            }),
            old(self).feature_index >= old(self).project.features@.len() ==> *final(self) == *old(
                self,
            ),
    {
        if self.feature_index < self.project.features.len() {
            self.screen = Screen::SpecBrowser;
            self.spec_scroll = 0;
        }
    }

    #[verifier::spinoff_prover]
    pub fn enter_constitution(&mut self)
        ensures
            old(self).project.constitution is Some ==> *final(self) == (App {
                screen: Screen::Constitution,
                spec_scroll: 0,
                ..*old(self)
            }),
            old(self).project.constitution is None ==> *final(self) == *old(self),
    {
        if self.project.constitution.is_some() {
            self.screen = Screen::Constitution;
            self.spec_scroll = 0;
        }
    }

    #[verifier::spinoff_prover]
    pub fn enter_settings(&mut self)
        ensures
            *final(self) == (App {
                screen: Screen::Settings,
                settings_index: 0,
                settings_editing: None,
                ..*old(self)
            }),
    {
        self.screen = Screen::Settings;
        self.settings_index = 0;
        self.settings_editing = None;
    }

    /// Esc: closes the popup if one is open, else the palette, else returns
    /// from any screen to the dashboard.
    #[verifier::spinoff_prover]
    pub fn go_back(&mut self)
        ensures
            old(self).active_popup is Some ==> *final(self) == (App { active_popup: None, ..*old(self) }),
            old(self).active_popup is None && old(self).palette is Some ==> *final(self) == (App {
                palette: None,
                ..*old(self)
            }),
            old(self).active_popup is None && old(self).palette is None && old(self).screen
                != Screen::Dashboard ==> *final(self) == (App {
                screen: Screen::Dashboard,
                spec_scroll: 0,
                ..*old(self)
            }),
            old(self).active_popup is None && old(self).palette is None && old(self).screen
                == Screen::Dashboard ==> *final(self) == *old(self),
    {
        if self.active_popup.is_some() {
            self.active_popup = None;
            return;
        }
        if self.palette.is_some() {
            self.palette = None;
            return;
        }
        match self.screen {
            Screen::Dashboard => {},
            _ => {
                self.screen = Screen::Dashboard;
                self.spec_scroll = 0;
            },
        }
    }
}

pub open spec fn pane_after(p: Pane) -> Pane {
    match p {
        Pane::FeatureList => Pane::Workflow,
        Pane::Workflow => Pane::AgentOutput,
        Pane::AgentOutput => Pane::FeatureList,
        other => other,
    }
}

pub open spec fn pane_before(p: Pane) -> Pane {
    match p {
        Pane::FeatureList => Pane::AgentOutput,
        Pane::Workflow => Pane::FeatureList,
        Pane::AgentOutput => Pane::Workflow,
        other => other,
    }
}

pub open spec fn sat_inc(x: u16) -> u16 {
    if x < u16::MAX { (x + 1) as u16 } else { u16::MAX }
}

pub open spec fn sat_dec(x: u16) -> u16 {
    if x > 0 { (x - 1) as u16 } else { 0 }
}

pub open spec fn min_u16(a: u16, b: u16) -> u16 {
    if a < b { a } else { b }
}

/// The list filter: the trimmed query, lower-cased, is empty or occurs in the
/// lower-cased text.
pub open spec fn filter_matches(query: Seq<char>, hay: Seq<char>) -> bool {
    let q = lowercase(trim(query));
    q.len() == 0 || contains(lowercase(hay), q)
}

pub open spec fn opt_text(o: Option<String>) -> Seq<char> {
    match o {
        Some(s) => s@,
        None => Seq::empty(),
    }
}

pub open spec fn spaced(a: Seq<char>, b: Seq<char>) -> Seq<char> {
    a + seq![' '] + b
}

/// Text the filter searches for an integration: name, key, description.
pub open spec fn integration_hay(it: IntegrationInfo) -> Seq<char> {
    spaced(spaced(it.name@, it.key@), it.description@)
}

/// Name, id, source, description.
pub open spec fn workflow_hay(wf: WorkflowInfo) -> Seq<char> {
    spaced(spaced(spaced(opt_text(wf.name), wf.id@), opt_text(wf.source)), wf.description@)
}

/// Name, id, author, description.
pub open spec fn extension_hay(e: ExtensionInfo) -> Seq<char> {
    spaced(spaced(spaced(e.name@, e.id@), opt_text(e.author)), e.description@)
}

/// Name, id, author, source label, description.
pub open spec fn preset_hay(p: PresetInfo) -> Seq<char> {
    spaced(
        spaced(spaced(spaced(p.name@, p.id@), opt_text(p.author)), opt_text(p.source_label)),
        p.description@,
    )
}

pub open spec fn kept_integrations(s: Seq<IntegrationInfo>, q: Seq<char>) -> Seq<IntegrationInfo>
    decreases s.len(),
{
    if s.len() == 0 {
        Seq::empty()
    } else {
        let k = kept_integrations(s.drop_last(), q);
        if filter_matches(q, integration_hay(s.last())) { k.push(s.last()) } else { k }
    }
}

pub open spec fn kept_workflows(s: Seq<WorkflowInfo>, q: Seq<char>) -> Seq<WorkflowInfo>
    decreases s.len(),
{
    if s.len() == 0 {
        Seq::empty()
    } else {
        let k = kept_workflows(s.drop_last(), q);
        if filter_matches(q, workflow_hay(s.last())) { k.push(s.last()) } else { k }
    }
}

pub open spec fn kept_extensions(s: Seq<ExtensionInfo>, q: Seq<char>) -> Seq<ExtensionInfo>
    decreases s.len(),
{
    if s.len() == 0 {
        Seq::empty()
    } else {
        let k = kept_extensions(s.drop_last(), q);
        if filter_matches(q, extension_hay(s.last())) { k.push(s.last()) } else { k }
    }
}

pub open spec fn kept_presets(s: Seq<PresetInfo>, q: Seq<char>) -> Seq<PresetInfo>
    decreases s.len(),
{
    if s.len() == 0 {
        Seq::empty()
    } else {
        let k = kept_presets(s.drop_last(), q);
        if filter_matches(q, preset_hay(s.last())) { k.push(s.last()) } else { k }
    }
}

/// Appends a space and then `t`.
fn push_spaced(s: &mut String, t: &str)
    ensures
        final(s)@ == spaced(old(s)@, t@),
{
    push_char(s, ' ');
    s.append(t);
}

fn opt_str(o: &Option<String>) -> (r: &str)
    ensures
        r@ == opt_text(*o),
{
    match o {
        Some(s) => s.as_str(),
        None => {
            proof {
                reveal_strlit("");
            }
            ""
        },
    }
}

/// Whether `hay` contains `needle`.
fn text_contains(hay: &str, needle: &str) -> (r: bool)
    ensures
        r == contains(hay@, needle@),
{
    let v = chars_of(hay);
    let p = chars_of(needle);
    assert(v@.subrange(0, v@.len() as int) =~= v@);
    contains_range(&v, 0, v.len(), &p)
}

/// The trimmed, lower-cased query.
fn filter_key(query: &str) -> (r: String)
    ensures
        r@ == lowercase(trim(query@)),
{
    let v = chars_of(query);
    let (a, b) = trim_range(&v, 0, v.len());
    assert(v@.subrange(0, v@.len() as int) =~= query@);
    let t = string_of_range(&v, a, b);
    to_lowercase(t.as_str())
}

fn hay_matches(key: &str, hay: &str) -> (r: bool)
    ensures
        r == (key@.len() == 0 || contains(lowercase(hay@), key@)),
{
    if key.is_empty() {
        return true;
    }
    let h = to_lowercase(hay);
    text_contains(h.as_str(), key)
}

impl App {
    fn matches_filter(&self, hay: &str) -> (r: bool)
        ensures
            r == filter_matches(self.filter_query@, hay@),
    {
        let key = filter_key(self.filter_query.as_str());
        hay_matches(key.as_str(), hay)
    }

    /// The integrations that pass the list filter, in project order.
    pub fn filtered_integrations(&self) -> (r: Vec<&IntegrationInfo>)
        ensures
            r@.len() == kept_integrations(self.project.integrations@, self.filter_query@).len(),
            forall|i: int| 0 <= i < r@.len() ==> *(#[trigger] r@[i]) == kept_integrations(
                self.project.integrations@,
                self.filter_query@,
            )[i],
    {
        let s = &self.project.integrations;
        let ghost q = self.filter_query@;
        let mut r: Vec<&IntegrationInfo> = Vec::new();
        let mut i: usize = 0;
        while i < s.len()
            invariant
                i <= s@.len(),
                q == self.filter_query@,
                s == &self.project.integrations,
                r@.len() == kept_integrations(s@.take(i as int), q).len(),
                forall|k: int| 0 <= k < r@.len() ==> *(#[trigger] r@[k]) == kept_integrations(s@.take(i as int), q)[k],
            decreases s@.len() - i,
        {
            let it = &s[i];
            assert(s@.take(i + 1).drop_last() =~= s@.take(i as int));
            let mut hay = it.name.clone();
            push_spaced(&mut hay, it.key.as_str());
            push_spaced(&mut hay, it.description.as_str());
            if self.matches_filter(hay.as_str()) {
                r.push(it);
            }
            i = i + 1;
        }
        assert(s@.take(i as int) =~= s@);
        r
    }

    /// The workflows that pass the list filter, in project order.
    pub fn filtered_workflows(&self) -> (r: Vec<&WorkflowInfo>)
        ensures
            r@.len() == kept_workflows(self.project.workflows@, self.filter_query@).len(),
            forall|i: int| 0 <= i < r@.len() ==> *(#[trigger] r@[i]) == kept_workflows(
                self.project.workflows@,
                self.filter_query@,
            )[i],
    {
        let s = &self.project.workflows;
        let ghost q = self.filter_query@;
        let mut r: Vec<&WorkflowInfo> = Vec::new();
        let mut i: usize = 0;
        while i < s.len()
            invariant
                i <= s@.len(),
                q == self.filter_query@,
                s == &self.project.workflows,
                r@.len() == kept_workflows(s@.take(i as int), q).len(),
                forall|k: int| 0 <= k < r@.len() ==> *(#[trigger] r@[k]) == kept_workflows(s@.take(i as int), q)[k],
            decreases s@.len() - i,
        {
            let wf = &s[i];
            assert(s@.take(i + 1).drop_last() =~= s@.take(i as int));
            let mut hay = opt_str(&wf.name).to_owned();
            push_spaced(&mut hay, wf.id.as_str());
            push_spaced(&mut hay, opt_str(&wf.source));
            push_spaced(&mut hay, wf.description.as_str());
            if self.matches_filter(hay.as_str()) {
                r.push(wf);
            }
            i = i + 1;
        }
        assert(s@.take(i as int) =~= s@);
        r
    }

    /// The extensions that pass the list filter, in project order.
    pub fn filtered_extensions(&self) -> (r: Vec<&ExtensionInfo>)
        ensures
            r@.len() == kept_extensions(self.project.extensions@, self.filter_query@).len(),
            forall|i: int| 0 <= i < r@.len() ==> *(#[trigger] r@[i]) == kept_extensions(
                self.project.extensions@,
                self.filter_query@,
            )[i],
    {
        let s = &self.project.extensions;
        let ghost q = self.filter_query@;
        let mut r: Vec<&ExtensionInfo> = Vec::new();
        let mut i: usize = 0;
        while i < s.len()
            invariant
                i <= s@.len(),
                q == self.filter_query@,
                s == &self.project.extensions,
                r@.len() == kept_extensions(s@.take(i as int), q).len(),
                forall|k: int| 0 <= k < r@.len() ==> *(#[trigger] r@[k]) == kept_extensions(s@.take(i as int), q)[k],
            decreases s@.len() - i,
        {
            let e = &s[i];
            assert(s@.take(i + 1).drop_last() =~= s@.take(i as int));
            let mut hay = e.name.clone();
            push_spaced(&mut hay, e.id.as_str());
            push_spaced(&mut hay, opt_str(&e.author));
            push_spaced(&mut hay, e.description.as_str());
            if self.matches_filter(hay.as_str()) {
                r.push(e);
            }
            i = i + 1;
        }
        assert(s@.take(i as int) =~= s@);
        r
    }

    /// The presets that pass the list filter, in project order.
    pub fn filtered_presets(&self) -> (r: Vec<&PresetInfo>)
        ensures
            r@.len() == kept_presets(self.project.presets@, self.filter_query@).len(),
            forall|i: int| 0 <= i < r@.len() ==> *(#[trigger] r@[i]) == kept_presets(
                self.project.presets@,
                self.filter_query@,
            )[i],
    {
        let s = &self.project.presets;
        let ghost q = self.filter_query@;
        let mut r: Vec<&PresetInfo> = Vec::new();
        let mut i: usize = 0;
        while i < s.len()
            invariant
                i <= s@.len(),
                q == self.filter_query@,
                s == &self.project.presets,
                r@.len() == kept_presets(s@.take(i as int), q).len(),
                forall|k: int| 0 <= k < r@.len() ==> *(#[trigger] r@[k]) == kept_presets(s@.take(i as int), q)[k],
            decreases s@.len() - i,
        {
            let p = &s[i];
            assert(s@.take(i + 1).drop_last() =~= s@.take(i as int));
            let mut hay = p.name.clone();
            push_spaced(&mut hay, p.id.as_str());
            push_spaced(&mut hay, opt_str(&p.author));
            push_spaced(&mut hay, opt_str(&p.source_label));
            push_spaced(&mut hay, p.description.as_str());
            if self.matches_filter(hay.as_str()) {
                r.push(p);
            }
            i = i + 1;
        }
        assert(s@.take(i as int) =~= s@);
        r
    }
}

/// Length of the list the extensions/presets popup shows on its current tab,
/// after filtering.
pub open spec fn filtered_ext_count(a: App) -> nat {
    match a.ext_tab {
        ExtTab::Extensions => kept_extensions(a.project.extensions@, a.filter_query@).len(),
        ExtTab::Presets => kept_presets(a.project.presets@, a.filter_query@).len(),
    }
}

pub open spec fn integration_count(a: App) -> nat {
    kept_integrations(a.project.integrations@, a.filter_query@).len()
}

pub open spec fn workflow_count(a: App) -> nat {
    kept_workflows(a.project.workflows@, a.filter_query@).len()
}

/// The Catalog Manager's list on its active tab.
pub open spec fn catalog_list(a: App) -> Seq<CatalogSource> {
    sources_for(a.catalog_sources, a.cat_tab)
}

/// What opening a popup of `kind` changes: the popup shows, the filter is
/// cleared; the extensions and presets popups switch to their tab with the
/// first entry selected; the Catalog Manager selects its first source and
/// closes its add form, keeping its tab.
pub open spec fn popup_opened(a: App, b: App, kind: PopupKind) -> bool {
    &&& b.active_popup == Some(kind)
    &&& !b.filter_active
    &&& b.ext_tab == match kind {
        PopupKind::Extensions => ExtTab::Extensions,
        PopupKind::Presets => ExtTab::Presets,
        _ => a.ext_tab,
    }
    &&& b.ext_index == if kind == PopupKind::Extensions { 0 } else { a.ext_index }
    &&& b.preset_index == if kind == PopupKind::Presets { 0 } else { a.preset_index }
    &&& b.cat_index == if kind == PopupKind::Catalogs { 0 } else { a.cat_index }
    &&& b.cat_add_input == if kind == PopupKind::Catalogs { None } else { a.cat_add_input }
    &&& b.cat_add_cursor == if kind == PopupKind::Catalogs { 0 } else { a.cat_add_cursor }
}

impl App {
    /// Clears the list filter.
    #[verifier::spinoff_prover]
    pub fn reset_filter(&mut self)
        ensures
            *final(self) == (App { filter_query: final(self).filter_query, filter_active: false, ..*old(self) }),
            final(self).filter_query@.len() == 0,
    {
        self.filter_query = String::new();
        self.filter_active = false;
    }

    /// Opens a popup: the extensions and presets popups switch to their tab
    /// with the first entry selected, the Catalog Manager selects its first
    /// source and closes its add form but keeps its tab; the filter is cleared.
    #[verifier::spinoff_prover]
    pub fn open_popup(&mut self, kind: PopupKind)
        ensures
            final(self).filter_query@.len() == 0,
            popup_opened(*old(self), *final(self), kind),
            *final(self) == (App {
                filter_query: final(self).filter_query,
                filter_active: false,
                active_popup: Some(kind),
                ext_tab: final(self).ext_tab,
                ext_index: final(self).ext_index,
                preset_index: final(self).preset_index,
                cat_index: final(self).cat_index,
                cat_add_input: final(self).cat_add_input,
                cat_add_cursor: final(self).cat_add_cursor,
                ..*old(self)
            }),
    {
        let ext_tab = match kind {
            PopupKind::Extensions => ExtTab::Extensions,
            PopupKind::Presets => ExtTab::Presets,
            _ => self.ext_tab,
        };
        let ext_index = if kind == PopupKind::Extensions { 0 } else { self.ext_index };
        let preset_index = if kind == PopupKind::Presets { 0 } else { self.preset_index };
        let catalogs = kind == PopupKind::Catalogs;
        let cat_index = if catalogs { 0 } else { self.cat_index };
        let cat_add_cursor = if catalogs { 0 } else { self.cat_add_cursor };
        if catalogs {
            self.cat_add_input = None;
        }
        self.ext_tab = ext_tab;
        self.ext_index = ext_index;
        self.preset_index = preset_index;
        self.cat_index = cat_index;
        self.cat_add_cursor = cat_add_cursor;
        self.filter_query = String::new();
        self.filter_active = false;
        self.active_popup = Some(kind);
    }

    #[verifier::spinoff_prover]
    pub fn close_popup(&mut self)
        ensures
            *final(self) == (App {
                filter_query: final(self).filter_query,
                filter_active: false,
                active_popup: None,
                ..*old(self)
            }),
            final(self).filter_query@.len() == 0,
    {
        self.reset_filter();
        self.active_popup = None;
    }

    /// Opens the Catalog Manager on its Extensions tab, whatever tab was last
    /// viewed.
    #[verifier::spinoff_prover]
    pub fn open_catalogs_reset_to_extensions(&mut self)
        ensures
            *final(self) == (App {
                cat_tab: CatalogTarget::Extension,
                filter_query: final(self).filter_query,
                filter_active: false,
                active_popup: Some(PopupKind::Catalogs),
                cat_index: 0,
                cat_add_input: None,
                cat_add_cursor: 0,
                ..*old(self)
            }),
            final(self).filter_query@.len() == 0,
    {
        self.cat_tab = CatalogTarget::Extension;
        self.open_popup(PopupKind::Catalogs);
    }

    /// Opens the command palette with an empty query.
    #[verifier::spinoff_prover]
    pub fn open_palette(&mut self)
        ensures
            *final(self) == (App { palette: final(self).palette, ..*old(self) }),
            final(self).palette matches Some(p) && p.input@.len() == 0 && p.selected == 0,
    {
        self.palette = Some(PaletteState { input: String::new(), selected: 0 });
    }

    /// Number of entries on the extensions/presets popup's tab, unfiltered.
    pub fn ext_list_len(&self) -> (r: usize)
        ensures
            r == match self.ext_tab {
                ExtTab::Extensions => self.project.extensions@.len(),
                ExtTab::Presets => self.project.presets@.len(),
            },
    {
        match self.ext_tab {
            ExtTab::Extensions => self.project.extensions.len(),
            ExtTab::Presets => self.project.presets.len(),
        }
    }

    /// Number of entries on the extensions/presets popup's tab after filtering.
    pub fn filtered_ext_len(&self) -> (r: usize)
        ensures
            r == filtered_ext_count(*self),
    {
        match self.ext_tab {
            ExtTab::Extensions => self.filtered_extensions().len(),
            ExtTab::Presets => self.filtered_presets().len(),
        }
    }

    /// Selects the next entry on the extensions/presets tab (wrapping).
    #[verifier::spinoff_prover]
    pub fn ext_select_next(&mut self)
        ensures
            filtered_ext_count(*old(self)) == 0 ==> *final(self) == *old(self),
            filtered_ext_count(*old(self)) > 0 && old(self).ext_tab == ExtTab::Extensions
                ==> *final(self) == (App {
                ext_index: wrap_next(old(self).ext_index as int, filtered_ext_count(*old(self)) as int) as usize,
                ..*old(self)
            }),
            filtered_ext_count(*old(self)) > 0 && old(self).ext_tab == ExtTab::Presets
                ==> *final(self) == (App {
                preset_index: wrap_next(old(self).preset_index as int, filtered_ext_count(*old(self)) as int) as usize,
                ..*old(self)
            }),
    {
        let len = self.filtered_ext_len();
        if len > 0 {
            match self.ext_tab {
                ExtTab::Extensions => self.ext_index = next_index(self.ext_index, len),
                ExtTab::Presets => self.preset_index = next_index(self.preset_index, len),
            }
        }
    }

    /// Selects the previous entry on the extensions/presets tab (wrapping).
    #[verifier::spinoff_prover]
    pub fn ext_select_prev(&mut self)
        ensures
            filtered_ext_count(*old(self)) == 0 ==> *final(self) == *old(self),
            filtered_ext_count(*old(self)) > 0 && old(self).ext_tab == ExtTab::Extensions
                ==> *final(self) == (App {
                ext_index: wrap_prev(old(self).ext_index as int, filtered_ext_count(*old(self)) as int) as usize,
                ..*old(self)
            }),
            filtered_ext_count(*old(self)) > 0 && old(self).ext_tab == ExtTab::Presets
                ==> *final(self) == (App {
                preset_index: wrap_prev(old(self).preset_index as int, filtered_ext_count(*old(self)) as int) as usize,
                ..*old(self)
            }),
    {
        let len = self.filtered_ext_len();
        if len > 0 {
            match self.ext_tab {
                ExtTab::Extensions => self.ext_index = prev_index(self.ext_index, len),
                ExtTab::Presets => self.preset_index = prev_index(self.preset_index, len),
            }
        }
    }

    #[verifier::spinoff_prover]
    pub fn integration_select_next(&mut self)
        ensures
            integration_count(*old(self)) == 0 ==> *final(self) == *old(self),
            integration_count(*old(self)) > 0 ==> *final(self) == (App {
                integration_index: wrap_next(old(self).integration_index as int, integration_count(*old(self)) as int) as usize,
                ..*old(self)
            }),
    {
        let len = self.filtered_integrations().len();
        if len > 0 {
            self.integration_index = next_index(self.integration_index, len);
        }
    }

    #[verifier::spinoff_prover]
    pub fn integration_select_prev(&mut self)
        ensures
            integration_count(*old(self)) == 0 ==> *final(self) == *old(self),
            integration_count(*old(self)) > 0 ==> *final(self) == (App {
                integration_index: wrap_prev(old(self).integration_index as int, integration_count(*old(self)) as int) as usize,
                ..*old(self)
            }),
    {
        let len = self.filtered_integrations().len();
        if len > 0 {
            self.integration_index = prev_index(self.integration_index, len);
        }
    }

    #[verifier::spinoff_prover]
    pub fn wf_select_next(&mut self)
        ensures
            workflow_count(*old(self)) == 0 ==> *final(self) == *old(self),
            workflow_count(*old(self)) > 0 ==> *final(self) == (App {
                wf_index: wrap_next(old(self).wf_index as int, workflow_count(*old(self)) as int) as usize,
                ..*old(self)
            }),
    {
        let len = self.filtered_workflows().len();
        if len > 0 {
            self.wf_index = next_index(self.wf_index, len);
        }
    }

    #[verifier::spinoff_prover]
    pub fn wf_select_prev(&mut self)
        ensures
            workflow_count(*old(self)) == 0 ==> *final(self) == *old(self),
            workflow_count(*old(self)) > 0 ==> *final(self) == (App {
                wf_index: wrap_prev(old(self).wf_index as int, workflow_count(*old(self)) as int) as usize,
                ..*old(self)
            }),
    {
        let len = self.filtered_workflows().len();
        if len > 0 {
            self.wf_index = prev_index(self.wf_index, len);
        }
    }

    /// The catalog sources on the Catalog Manager's active tab.
    pub fn current_catalog_list(&self) -> (r: &Vec<CatalogSource>)
        ensures
            r@ == catalog_list(*self),
    {
        self.catalog_sources.for_target(self.cat_tab)
    }

    #[verifier::spinoff_prover]
    pub fn cat_select_next(&mut self)
        ensures
            catalog_list(*old(self)).len() == 0 ==> *final(self) == *old(self),
            catalog_list(*old(self)).len() > 0 ==> *final(self) == (App {
                cat_index: wrap_next(old(self).cat_index as int, catalog_list(*old(self)).len() as int) as usize,
                ..*old(self)
            }),
    {
        let len = self.current_catalog_list().len();
        if len > 0 {
            self.cat_index = next_index(self.cat_index, len);
        }
    }

    #[verifier::spinoff_prover]
    pub fn cat_select_prev(&mut self)
        ensures
            catalog_list(*old(self)).len() == 0 ==> *final(self) == *old(self),
            catalog_list(*old(self)).len() > 0 ==> *final(self) == (App {
                cat_index: wrap_prev(old(self).cat_index as int, catalog_list(*old(self)).len() as int) as usize,
                ..*old(self)
            }),
    {
        let len = self.current_catalog_list().len();
        if len > 0 {
            self.cat_index = prev_index(self.cat_index, len);
        }
    }

    /// Replaces the stored sources for `target`, keeping the selection inside
    /// the list when it is the active tab.
    #[verifier::spinoff_prover]
    pub fn set_catalog_sources(&mut self, target: CatalogTarget, sources: Vec<CatalogSource>)
        ensures
            sources_for(final(self).catalog_sources, target) == sources@,
            target != CatalogTarget::Extension ==> final(self).catalog_sources.extensions == old(self).catalog_sources.extensions,
            target != CatalogTarget::Preset ==> final(self).catalog_sources.presets == old(self).catalog_sources.presets,
            target != CatalogTarget::Integration ==> final(self).catalog_sources.integrations == old(self).catalog_sources.integrations,
            target != CatalogTarget::Workflow ==> final(self).catalog_sources.workflows == old(self).catalog_sources.workflows,
            final(self).cat_index == if target == old(self).cat_tab {
                clamped(old(self).cat_index, sources@.len())
            } else {
                old(self).cat_index
            },
            *final(self) == (App {
                catalog_sources: final(self).catalog_sources,
                cat_index: final(self).cat_index,
                ..*old(self)
            }),
    {
        let len = sources.len();
        if target == self.cat_tab {
            self.cat_index = clamp_index(self.cat_index, len);
        }
        match target {
            CatalogTarget::Extension => self.catalog_sources.extensions = sources,
            CatalogTarget::Preset => self.catalog_sources.presets = sources,
            CatalogTarget::Integration => self.catalog_sources.integrations = sources,
            CatalogTarget::Workflow => self.catalog_sources.workflows = sources,
        }
    }
}

fn clamp_index(i: usize, len: usize) -> (r: usize)
    ensures
        r == clamped(i, len as nat),
{
    if len == 0 {
        0
    } else if i >= len {
        len - 1
    } else {
        i
    }
}

/// An index kept inside a list of `len` entries (0 for an empty list).
pub open spec fn clamped(i: usize, len: nat) -> usize {
    if len == 0 {
        0
    } else if i >= len {
        (len - 1) as usize
    } else {
        i
    }
}

pub open spec fn layout_text(l: DashboardLayout) -> Seq<char> {
    match l {
        DashboardLayout::Overview => "overview"@,
        DashboardLayout::Coding => "coding"@,
        DashboardLayout::Audit => "audit"@,
        DashboardLayout::Custom => "custom"@,
    }
}

/// `coding`, `audit` and `custom` name those layouts; any other text is the
/// overview.
pub open spec fn layout_named(s: Seq<char>) -> DashboardLayout {
    if s == "coding"@ {
        DashboardLayout::Coding
    } else if s == "audit"@ {
        DashboardLayout::Audit
    } else if s == "custom"@ {
        DashboardLayout::Custom
    } else {
        DashboardLayout::Overview
    }
}

pub open spec fn on_off(b: bool) -> Seq<char> {
    if b { "on"@ } else { "off"@ }
}

/// What a settings row shows as its current value.
pub open spec fn settings_value(a: App, row: SettingsRow) -> Seq<char> {
    match row {
        SettingsRow::Theme => mode_text(a.theme_mode),
        SettingsRow::Accent => accent_text(a.accent),
        SettingsRow::DashboardLayout => layout_text(a.layout),
        SettingsRow::AgentTailFollow => on_off(a.config.agent_tail_follow),
        SettingsRow::MouseSupport => on_off(a.config.mouse_support),
        SettingsRow::ConfirmForce => if a.config.confirm_before_force { "always"@ } else { "never"@ },
        SettingsRow::TmuxPrefix => a.config.tmux_prefix@,
        SettingsRow::CustomizePanes => "open layout editor →"@,
        SettingsRow::AttachSession => (if a.feature_index < a.project.features@.len() {
            a.project.features@[a.feature_index as int].id@
        } else {
            "none"@
        }) + " →"@,
        SettingsRow::ConfigPath => a.config.config_location@,
    }
}

/// Whether `v` names one of the three accents.
pub open spec fn is_accent_name(v: Seq<char>) -> bool {
    v == "indigo"@ || v == "teal"@ || v == "amber"@
}

/// The state after setting an option row to the chip value `v`.
#[verifier::opaque]
pub open spec fn value_set(a: App, b: App, row: SettingsRow, v: Seq<char>) -> bool {
    match row {
        SettingsRow::Theme => {
            let want = if v == "dark"@ { ThemeMode::Dark } else { ThemeMode::Light };
            if a.theme_mode == want {
                b == a
            } else {
                &&& b == (App {
                    theme_mode: want,
                    theme: palette_of(want, a.accent),
                    config: b.config,
                    save_request: true,
                    ..a
                })
                &&& b.config == (AppConfig { theme: b.config.theme, ..a.config })
                &&& b.config.theme@ == mode_text(want)
            }
        },
        SettingsRow::Accent => {
            let want = accent_named(v);
            if a.accent == want {
                b == a
            } else {
                &&& b == (App {
                    accent: want,
                    theme: palette_of(a.theme_mode, want),
                    config: b.config,
                    save_request: true,
                    ..a
                })
                &&& b.config == (AppConfig { accent: b.config.accent, ..a.config })
                &&& b.config.accent@ == accent_text(want)
            }
        },
        SettingsRow::DashboardLayout => b == (App { layout: layout_named(v), ..a }),
        SettingsRow::AgentTailFollow => b == (App {
            config: AppConfig { agent_tail_follow: v == "on"@, ..a.config },
            save_request: true,
            ..a
        }),
        SettingsRow::MouseSupport => b == (App {
            config: AppConfig { mouse_support: v == "on"@, ..a.config },
            save_request: true,
            ..a
        }),
        SettingsRow::ConfirmForce => b == (App {
            config: AppConfig { confirm_before_force: v == "always"@, ..a.config },
            save_request: true,
            ..a
        }),
        SettingsRow::ConfigPath => if v == a.config.config_location@ {
            b == a
        } else {
            &&& b == (App {
                config: b.config,
                save_request: true,
                relocate_request: Some(a.config.config_location),
                ..a
            })
            &&& b.config == (AppConfig { config_location: b.config.config_location, ..a.config })
            &&& b.config.config_location@ == v
        },
        _ => b == a,
    }
}

fn layout_of(v: &str) -> (r: DashboardLayout)
    ensures
        r == layout_named(v@),
{
    if crate::text::str_eq(v, "coding") {
        DashboardLayout::Coding
    } else if crate::text::str_eq(v, "audit") {
        DashboardLayout::Audit
    } else if crate::text::str_eq(v, "custom") {
        DashboardLayout::Custom
    } else {
        DashboardLayout::Overview
    }
}

fn accent_of(v: &str) -> (r: Accent)
    ensures
        r == accent_named(v@),
{
    if crate::text::str_eq(v, "teal") {
        Accent::Teal
    } else if crate::text::str_eq(v, "amber") {
        Accent::Amber
    } else {
        Accent::Indigo
    }
}

impl App {
    pub fn accent_label(&self) -> (r: &'static str)
        ensures
            r@ == accent_text(self.accent),
    {
        match self.accent {
            Accent::Indigo => "indigo",
            Accent::Teal => "teal",
            Accent::Amber => "amber",
        }
    }

    pub fn theme_label(&self) -> (r: &'static str)
        ensures
            r@ == mode_text(self.theme_mode),
    {
        match self.theme_mode {
            ThemeMode::Dark => "dark",
            ThemeMode::Light => "light",
        }
    }

    /// Selects the next settings row (wrapping) and stops any text edit.
    #[verifier::spinoff_prover]
    pub fn settings_next(&mut self)
        ensures
            *final(self) == (App {
                settings_editing: None,
                settings_index: wrap_next(old(self).settings_index as int, 10) as usize,
                ..*old(self)
            }),
    {
        self.settings_editing = None;
        self.settings_index = next_index(self.settings_index, 10);
    }

    /// Selects the previous settings row (wrapping) and stops any text edit.
    #[verifier::spinoff_prover]
    pub fn settings_prev(&mut self)
        ensures
            *final(self) == (App {
                settings_editing: None,
                settings_index: wrap_prev(old(self).settings_index as int, 10) as usize,
                ..*old(self)
            }),
    {
        self.settings_editing = None;
        self.settings_index = prev_index(self.settings_index, 10);
    }

    /// Sets an option row to one of its chip values. An accent value must
    /// name an accent: the accent is cycled until its name matches.
    #[verifier::spinoff_prover]
    pub fn settings_set_value(&mut self, row: SettingsRow, value: &str)
        requires
            row == SettingsRow::Accent ==> is_accent_name(value@),
        ensures
            value_set(*old(self), *final(self), row, value@),
    {
        match row {
            SettingsRow::Theme => self.set_row_theme(value),
            SettingsRow::Accent => self.set_row_accent(value),
            SettingsRow::DashboardLayout => self.set_row_layout(value),
            SettingsRow::AgentTailFollow => self.set_row_flag(row, value),
            SettingsRow::MouseSupport => self.set_row_flag(row, value),
            SettingsRow::ConfirmForce => self.set_row_flag(row, value),
            SettingsRow::ConfigPath => self.set_row_location(value),
            _ => {
                proof {
                    reveal(value_set);
                }
            },
        }
    }

    #[verifier::spinoff_prover]
    fn set_row_theme(&mut self, value: &str)
        ensures
            value_set(*old(self), *final(self), SettingsRow::Theme, value@),
    {
        proof {
            reveal(value_set);
        }
        let want = if crate::text::str_eq(value, "dark") {
            ThemeMode::Dark
        } else {
            ThemeMode::Light
        };
        self.set_theme_to(want);
    }

    #[verifier::spinoff_prover]
    fn set_row_accent(&mut self, value: &str)
        ensures
            value_set(*old(self), *final(self), SettingsRow::Accent, value@),
    {
        proof {
            reveal(value_set);
        }
        let want = accent_of(value);
        self.set_accent_to(want);
    }

    #[verifier::spinoff_prover]
    fn set_row_layout(&mut self, value: &str)
        ensures
            value_set(*old(self), *final(self), SettingsRow::DashboardLayout, value@),
    {
        proof {
            reveal(value_set);
        }
        self.layout = layout_of(value);
    }

    #[verifier::spinoff_prover]
    fn set_row_flag(&mut self, row: SettingsRow, value: &str)
        requires
            row == SettingsRow::AgentTailFollow || row == SettingsRow::MouseSupport || row
                == SettingsRow::ConfirmForce,
        ensures
            value_set(*old(self), *final(self), row, value@),
    {
        proof {
            reveal(value_set);
        }
        match row {
            SettingsRow::AgentTailFollow => {
                let on = crate::text::str_eq(value, "on");
                self.set_tail_follow(on);
            },
            SettingsRow::MouseSupport => {
                let on = crate::text::str_eq(value, "on");
                self.set_mouse_support(on);
            },
            _ => {
                let on = crate::text::str_eq(value, "always");
                self.set_confirm_force(on);
            },
        }
    }

    #[verifier::spinoff_prover]
    fn set_row_location(&mut self, value: &str)
        ensures
            value_set(*old(self), *final(self), SettingsRow::ConfigPath, value@),
    {
        proof {
            reveal(value_set);
        }
        self.relocate_config(value);
    }

    #[verifier::spinoff_prover]
    pub(crate) fn set_theme_to(&mut self, want: ThemeMode)
        ensures
            old(self).theme_mode == want ==> *final(self) == *old(self),
            old(self).theme_mode != want ==> *final(self) == (App {
                theme_mode: want,
                theme: palette_of(want, old(self).accent),
                config: final(self).config,
                save_request: true,
                ..*old(self)
            }),
            old(self).theme_mode != want ==> final(self).config == (AppConfig { theme: final(self).config.theme, ..old(self).config }),
            old(self).theme_mode != want ==> final(self).config.theme@ == mode_text(want),
    {
        if self.theme_mode != want {
            self.toggle_theme();
        }
    }

    #[verifier::spinoff_prover]
    fn set_accent_to(&mut self, want: Accent)
        ensures
            old(self).accent == want ==> *final(self) == *old(self),
            old(self).accent != want ==> *final(self) == (App {
                accent: want,
                theme: palette_of(old(self).theme_mode, want),
                config: final(self).config,
                save_request: true,
                ..*old(self)
            }),
            old(self).accent != want ==> final(self).config == (AppConfig { accent: final(self).config.accent, ..old(self).config }),
            old(self).accent != want ==> final(self).config.accent@ == accent_text(want),
    {
        if self.accent == want {
            return;
        }
        self.accent = want;
        self.theme = palette(self.theme_mode, want);
        self.config.set_accent(want);
        self.save_request = true;
    }

    #[verifier::spinoff_prover]
    fn set_tail_follow(&mut self, on: bool)
        ensures
            *final(self) == (App {
                config: AppConfig { agent_tail_follow: on, ..old(self).config },
                save_request: true,
                ..*old(self)
            }),
    {
        self.config.agent_tail_follow = on;
        self.save_request = true;
    }

    #[verifier::spinoff_prover]
    pub(crate) fn set_mouse_support(&mut self, on: bool)
        ensures
            *final(self) == (App {
                config: AppConfig { mouse_support: on, ..old(self).config },
                save_request: true,
                ..*old(self)
            }),
    {
        self.config.mouse_support = on;
        self.save_request = true;
    }

    #[verifier::spinoff_prover]
    fn set_confirm_force(&mut self, on: bool)
        ensures
            *final(self) == (App {
                config: AppConfig { confirm_before_force: on, ..old(self).config },
                save_request: true,
                ..*old(self)
            }),
    {
        self.config.confirm_before_force = on;
        self.save_request = true;
    }

    #[verifier::spinoff_prover]
    fn relocate_config(&mut self, value: &str)
        ensures
            value@ == old(self).config.config_location@ ==> *final(self) == *old(self),
            value@ != old(self).config.config_location@ ==> *final(self) == (App {
                config: final(self).config,
                save_request: true,
                relocate_request: Some(old(self).config.config_location),
                ..*old(self)
            }),
            value@ != old(self).config.config_location@ ==> final(self).config == (AppConfig { config_location: final(self).config.config_location, ..old(self).config }),
            value@ != old(self).config.config_location@ ==> final(self).config.config_location@ == value@,
    {
        if crate::text::str_eq(value, self.config.config_location.as_str()) {
            return;
        }
        let old_location = self.config.config_location.clone();
        self.config.config_location = value.to_owned();
        self.relocate_request = Some(old_location);
        self.save_request = true;
    }
}

/// Position of `v` among the options, or the first option when it is not
/// one of them.
pub open spec fn option_pos(opts: Seq<Seq<char>>, v: Seq<char>) -> int
    decreases opts.len(),
{
    if opts.len() == 0 {
        0
    } else if option_pos(opts.drop_last(), v) < opts.len() - 1 && opts.drop_last()[option_pos(opts.drop_last(), v)] == v {
        option_pos(opts.drop_last(), v)
    } else if opts.last() == v {
        opts.len() - 1
    } else {
        0
    }
}

/// `x.rem_euclid(n)` for a positive `n`.
pub open spec fn euclid_mod(x: int, n: int) -> int {
    x % n
}

/// The state after moving an option row by `delta` chips (wrapping); text and
/// action rows are left alone.
pub open spec fn adjusted(a: App, b: App, delta: int) -> bool {
    let row = settings_rows()[a.settings_index as int];
    let opts = settings_row_options(row);
    if opts.len() == 0 {
        b == a
    } else {
        value_set(a, b, row, opts[euclid_mod(option_pos(opts, settings_value(a, row)) + delta, opts.len() as int)])
    }
}

/// Enter on a settings row: a text row starts editing, an option row moves to
/// its next chip, "Customize panes" opens the layout editor on its first pane
/// and "Attach agent session" opens the attach screen.
#[verifier::opaque]
pub open spec fn primary_done(a: App, b: App) -> bool {
    let row = settings_rows()[a.settings_index as int];
    if row == SettingsRow::TmuxPrefix {
        b == (App { settings_editing: Some(a.settings_index), ..a })
    } else if settings_row_options(row).len() > 0 {
        adjusted(a, b, 1)
    } else if row == SettingsRow::CustomizePanes {
        b == (App { layout_editor_active: true, layout_editor_index: 0, ..a })
    } else {
        b == (App { screen: Screen::SessionAttach, ..a })
    }
}

/// Removes the last character, if any.
pub fn pop_char(s: &mut String)
    ensures
        final(s)@ == if old(s)@.len() > 0 { old(s)@.drop_last() } else { old(s)@ },
{
    let v = chars_of(s.as_str());
    if v.len() > 0 {
        *s = string_of_range(&v, 0, v.len() - 1);
        assert(v@.subrange(0, v@.len() - 1) =~= v@.drop_last());
    }
}

fn position_of(opts: &[&'static str], v: &str) -> (r: usize)
    ensures
        r as int == option_pos(views_of(opts@), v@),
        opts@.len() > 0 ==> r < opts@.len(),
{
    let mut i: usize = 0;
    let ghost o = views_of(opts@);
    let mut found: Option<usize> = None;
    while i < opts.len()
        invariant
            i <= opts@.len(),
            o == views_of(opts@),
            match found {
                Some(k) => k < i && option_pos(o.take(i as int), v@) == k && o[k as int] == v@,
                None => option_pos(o.take(i as int), v@) == 0 && forall|j: int| 0 <= j < i ==> o[j] != v@,
            },
        decreases opts@.len() - i,
    {
        assert(o.take(i + 1).drop_last() =~= o.take(i as int));
        let hit = crate::text::str_eq(opts[i], v);
        if found.is_none() && hit {
            found = Some(i);
        }
        i = i + 1;
    }
    assert(o.take(i as int) =~= o);
    match found {
        Some(k) => k,
        None => 0,
    }
}

impl App {
    /// The current value of a settings row as its chip or field shows it.
    pub fn settings_value_str(&self, row: SettingsRow) -> (r: String)
        ensures
            r@ == settings_value(*self, row),
    {
        match row {
            SettingsRow::Theme => self.theme_label().to_owned(),
            SettingsRow::Accent => self.accent_label().to_owned(),
            SettingsRow::DashboardLayout => match self.layout {
                DashboardLayout::Overview => "overview".to_owned(),
                DashboardLayout::Coding => "coding".to_owned(),
                DashboardLayout::Audit => "audit".to_owned(),
                DashboardLayout::Custom => "custom".to_owned(),
            },
            SettingsRow::AgentTailFollow => if self.config.agent_tail_follow {
                "on".to_owned()
            } else {
                "off".to_owned()
            },
            SettingsRow::MouseSupport => if self.config.mouse_support {
                "on".to_owned()
            } else {
                "off".to_owned()
            },
            SettingsRow::ConfirmForce => if self.config.confirm_before_force {
                "always".to_owned()
            } else {
                "never".to_owned()
            },
            SettingsRow::TmuxPrefix => self.config.tmux_prefix.clone(),
            SettingsRow::CustomizePanes => "open layout editor →".to_owned(),
            SettingsRow::AttachSession => {
                let mut r = if self.feature_index < self.project.features.len() {
                    self.project.features[self.feature_index].id.clone()
                } else {
                    "none".to_owned()
                };
                r.append(" →");
                r
            },
            SettingsRow::ConfigPath => self.config.config_location.clone(),
        }
    }

    /// Moves the selected option row by `delta` chips, wrapping; text and
    /// action rows are left alone.
    #[verifier::spinoff_prover]
    pub fn settings_adjust(&mut self, delta: i32)
        requires
            old(self).settings_index < 10,
        ensures
            adjusted(*old(self), *final(self), delta as int),
    {
        let rows = SettingsRow::all();
        let row = rows[self.settings_index];
        let opts = row.options();
        if opts.len() == 0 {
            proof {
                reveal(value_set);
            }
            return;
        }
        let current = self.settings_value_str(row);
        let idx = position_of(opts, current.as_str());
        let n = opts.len();
        let x: i64 = idx as i64 + delta as i64;
        let next: i64 = match x.checked_rem_euclid(n as i64) {
            Some(v) => v,
            None => 0,
        };
        proof {
            vstd::arithmetic::div_mod::lemma_mod_bound(x as int, n as int);
            assert(next as int == euclid_mod(x as int, n as int));
        }
        let value = opts[next as usize];
        proof {
            assert(views_of(opts@)[next as int] == value@);
        }
        self.settings_set_value(row, value);
    }

    /// Enter (or →) on the selected settings row.
    #[verifier::spinoff_prover]
    pub fn settings_primary_action(&mut self)
        requires
            old(self).settings_index < 10,
        ensures
            primary_done(*old(self), *final(self)),
    {
        proof {
            reveal(primary_done);
        }
        let rows = SettingsRow::all();
        let row = rows[self.settings_index];
        if row.is_text() {
            self.settings_editing = Some(self.settings_index);
        } else if row.options().len() > 0 {
            self.settings_adjust(1);
        } else {
            match row {
                SettingsRow::CustomizePanes => {
                    self.layout_editor_active = true;
                    self.layout_editor_index = 0;
                },
                _ => {
                    self.screen = Screen::SessionAttach;
                },
            }
        }
    }

    /// Starts editing the selected row when it is a text row.
    #[verifier::spinoff_prover]
    pub fn settings_begin_edit(&mut self)
        requires
            old(self).settings_index < 10,
        ensures
            settings_rows()[old(self).settings_index as int] == SettingsRow::TmuxPrefix ==> *final(self)
                == (App { settings_editing: Some(old(self).settings_index), ..*old(self) }),
            settings_rows()[old(self).settings_index as int] != SettingsRow::TmuxPrefix ==> *final(self)
                == *old(self),
    {
        let rows = SettingsRow::all();
        if rows[self.settings_index].is_text() {
            self.settings_editing = Some(self.settings_index);
        }
    }

    /// Ends a text edit and asks for the settings to be saved.
    #[verifier::spinoff_prover]
    pub fn settings_end_edit(&mut self)
        ensures
            *final(self) == (App { save_request: true, settings_editing: None, ..*old(self) }),
    {
        self.save_request = true;
        self.settings_editing = None;
    }

    /// Types a character into the tmux prefix while it is being edited.
    #[verifier::spinoff_prover]
    pub fn settings_edit_push(&mut self, c: char)
        requires
            old(self).settings_editing is Some ==> old(self).settings_index < 10,
        ensures
            old(self).settings_editing is Some && settings_rows()[old(self).settings_index as int]
                == SettingsRow::TmuxPrefix ==> final(self).config.tmux_prefix@ == old(
                self,
            ).config.tmux_prefix@.push(c) && *final(self) == (App {
                config: AppConfig { tmux_prefix: final(self).config.tmux_prefix, ..old(self).config },
                ..*old(self)
            }),
            !(old(self).settings_editing is Some && settings_rows()[old(self).settings_index as int]
                == SettingsRow::TmuxPrefix) ==> *final(self) == *old(self),
    {
        if self.settings_editing.is_some() {
            let rows = SettingsRow::all();
            if rows[self.settings_index] == SettingsRow::TmuxPrefix {
                push_char(&mut self.config.tmux_prefix, c);
            }
        }
    }

    /// Deletes the tmux prefix's last character while it is being edited.
    #[verifier::spinoff_prover]
    pub fn settings_edit_backspace(&mut self)
        requires
            old(self).settings_editing is Some ==> old(self).settings_index < 10,
        ensures
            old(self).settings_editing is Some && settings_rows()[old(self).settings_index as int]
                == SettingsRow::TmuxPrefix ==> final(self).config.tmux_prefix@ == (if old(
                self,
            ).config.tmux_prefix@.len() > 0 {
                old(self).config.tmux_prefix@.drop_last()
            } else {
                old(self).config.tmux_prefix@
            }) && *final(self) == (App {
                config: AppConfig { tmux_prefix: final(self).config.tmux_prefix, ..old(self).config },
                ..*old(self)
            }),
            !(old(self).settings_editing is Some && settings_rows()[old(self).settings_index as int]
                == SettingsRow::TmuxPrefix) ==> *final(self) == *old(self),
    {
        if self.settings_editing.is_some() {
            let rows = SettingsRow::all();
            if rows[self.settings_index] == SettingsRow::TmuxPrefix {
                pop_char(&mut self.config.tmux_prefix);
            }
        }
    }
}

/// The add-source form's text; empty while the form is closed.
pub open spec fn add_text(a: App) -> Seq<char> {
    match a.cat_add_input {
        Some(s) => s@,
        None => Seq::empty(),
    }
}

/// `s` without line breaks (`\n`, `\r`).
pub open spec fn without_breaks(s: Seq<char>) -> Seq<char>
    decreases s.len(),
{
    if s.len() == 0 {
        Seq::empty()
    } else {
        let r = without_breaks(s.drop_last());
        if s.last() == '\n' || s.last() == '\r' { r } else { r.push(s.last()) }
    }
}

/// A character position inside a text of `n` characters (past the end means
/// the end).
pub open spec fn at_most(p: int, n: int) -> int {
    if p < n { p } else { n }
}

/// `t` with `ins` inserted before character `p`.
pub open spec fn inserted(t: Seq<char>, p: int, ins: Seq<char>) -> Seq<char> {
    t.take(at_most(p, t.len() as int)) + ins + t.skip(at_most(p, t.len() as int))
}

/// `t` without the characters in `[lo, hi)`, each bound kept inside `t`.
pub open spec fn removed(t: Seq<char>, lo: int, hi: int) -> Seq<char> {
    t.take(at_most(lo, t.len() as int)) + t.skip(at_most(hi, t.len() as int))
}

/// The prefill of the add-source form for a source: `url name` and the
/// priority when it has one.
pub open spec fn prefill_of(src: CatalogSource) -> Seq<char> {
    match src.priority {
        Some(p) => src.url@ + seq![' '] + src.name@ + seq![' '] + crate::text::decimal(p as nat),
        None => src.url@ + seq![' '] + src.name@,
    }
}

/// What the add-source form opens with: the selected source's prefill when it
/// is discovery-only, else nothing.
pub open spec fn add_prefill(a: App) -> Seq<char> {
    let l = catalog_list(a);
    if a.cat_index < l.len() && !l[a.cat_index as int].install_allowed {
        prefill_of(l[a.cat_index as int])
    } else {
        Seq::empty()
    }
}

fn without_breaks_of(s: &str) -> (r: Vec<char>)
    ensures
        r@ == without_breaks(s@),
{
    let v = chars_of(s);
    let mut r: Vec<char> = Vec::new();
    let mut i: usize = 0;
    while i < v.len()
        invariant
            i <= v@.len(),
            r@ == without_breaks(v@.take(i as int)),
        decreases v@.len() - i,
    {
        assert(v@.take(i + 1).drop_last() =~= v@.take(i as int));
        let c = v[i];
        if c != '\n' && c != '\r' {
            r.push(c);
        }
        i = i + 1;
    }
    assert(v@.take(i as int) =~= v@);
    r
}

fn min_usize(a: usize, b: usize) -> (r: usize)
    ensures
        r as int == at_most(a as int, b as int),
{
    if a < b { a } else { b }
}

impl App {
    /// Number of characters in the add-source form.
    fn cat_add_char_count(&self) -> (r: usize)
        ensures
            r == add_text(*self).len(),
    {
        match &self.cat_add_input {
            Some(s) => chars_of(s.as_str()).len(),
            None => 0,
        }
    }

    /// Inserts `s` at the cursor, line breaks removed, and moves the cursor
    /// past it. The cursor moves even while the form is closed.
    #[verifier::spinoff_prover]
    pub fn cat_add_insert_str(&mut self, s: &str)
        requires
            old(self).cat_add_cursor + s@.len() <= usize::MAX,
        ensures
            without_breaks(s@).len() == 0 ==> *final(self) == *old(self),
            without_breaks(s@).len() > 0 ==> {
                &&& *final(self) == (App {
                    cat_add_input: final(self).cat_add_input,
                    cat_add_cursor: (old(self).cat_add_cursor + without_breaks(s@).len()) as usize,
                    ..*old(self)
                })
                &&& old(self).cat_add_input is None ==> final(self).cat_add_input is None
                &&& old(self).cat_add_input is Some ==> final(self).cat_add_input is Some && add_text(*final(self))
                    == inserted(add_text(*old(self)), old(self).cat_add_cursor as int, without_breaks(s@))
            },
    {
        let cleaned = without_breaks_of(s);
        proof {
            lemma_without_breaks_len(s@);
        }
        if cleaned.len() == 0 {
            return;
        }
        let n = cleaned.len();
        let new_input = match &self.cat_add_input {
            Some(input) => {
                let v = chars_of(input.as_str());
                let p = min_usize(self.cat_add_cursor, v.len());
                let mut t = string_of_range(&v, 0, p);
                crate::text::push_range(&mut t, &cleaned, 0, n);
                crate::text::push_range(&mut t, &v, p, v.len());
                proof {
                    assert(cleaned@.subrange(0, n as int) =~= cleaned@);
                    assert(v@.subrange(0, p as int) =~= v@.take(p as int));
                    assert(v@.subrange(p as int, v@.len() as int) =~= v@.skip(p as int));
                }
                Some(t)
            },
            None => None,
        };
        self.cat_add_input = new_input;
        self.cat_add_cursor = self.cat_add_cursor + n;
    }

    /// Deletes the character before the cursor and moves the cursor back.
    #[verifier::spinoff_prover]
    pub fn cat_add_backspace(&mut self)
        ensures
            old(self).cat_add_cursor == 0 || old(self).cat_add_input is None ==> *final(self) == *old(self),
            old(self).cat_add_cursor > 0 && old(self).cat_add_input is Some ==> {
                &&& *final(self) == (App {
                    cat_add_input: final(self).cat_add_input,
                    cat_add_cursor: (old(self).cat_add_cursor - 1) as usize,
                    ..*old(self)
                })
                &&& final(self).cat_add_input is Some
                &&& add_text(*final(self)) == removed(
                    add_text(*old(self)),
                    old(self).cat_add_cursor - 1,
                    old(self).cat_add_cursor as int,
                )
            },
    {
        if self.cat_add_cursor == 0 {
            return;
        }
        let new_input = match &self.cat_add_input {
            Some(input) => {
                let v = chars_of(input.as_str());
                let end = min_usize(self.cat_add_cursor, v.len());
                let start = min_usize(self.cat_add_cursor - 1, v.len());
                Some(removed_text(&v, start, end))
            },
            None => {
                return;
            },
        };
        self.cat_add_input = new_input;
        self.cat_add_cursor = self.cat_add_cursor - 1;
    }

    /// Deletes the character at the cursor; the cursor stays.
    #[verifier::spinoff_prover]
    pub fn cat_add_delete_forward(&mut self)
        ensures
            old(self).cat_add_cursor >= add_text(*old(self)).len() ==> *final(self) == *old(self),
            old(self).cat_add_cursor < add_text(*old(self)).len() ==> {
                &&& *final(self) == (App { cat_add_input: final(self).cat_add_input, ..*old(self) })
                &&& final(self).cat_add_input is Some
                &&& add_text(*final(self)) == removed(
                    add_text(*old(self)),
                    old(self).cat_add_cursor as int,
                    old(self).cat_add_cursor + 1,
                )
            },
    {
        if self.cat_add_cursor >= self.cat_add_char_count() {
            return;
        }
        let new_input = match &self.cat_add_input {
            Some(input) => {
                let v = chars_of(input.as_str());
                let start = self.cat_add_cursor;
                Some(removed_text(&v, start, start + 1))
            },
            None => {
                return;
            },
        };
        self.cat_add_input = new_input;
    }

    #[verifier::spinoff_prover]
    pub fn cat_add_move_left(&mut self)
        ensures
            *final(self) == (App {
                cat_add_cursor: if old(self).cat_add_cursor > 0 {
                    (old(self).cat_add_cursor - 1) as usize
                } else {
                    0
                },
                ..*old(self)
            }),
    {
        self.cat_add_cursor = if self.cat_add_cursor > 0 { self.cat_add_cursor - 1 } else { 0 };
    }

    #[verifier::spinoff_prover]
    pub fn cat_add_move_right(&mut self)
        ensures
            *final(self) == (App {
                cat_add_cursor: if old(self).cat_add_cursor < add_text(*old(self)).len() {
                    (old(self).cat_add_cursor + 1) as usize
                } else {
                    old(self).cat_add_cursor
                },
                ..*old(self)
            }),
    {
        if self.cat_add_cursor < self.cat_add_char_count() {
            self.cat_add_cursor = self.cat_add_cursor + 1;
        }
    }

    #[verifier::spinoff_prover]
    pub fn cat_add_move_home(&mut self)
        ensures
            *final(self) == (App { cat_add_cursor: 0, ..*old(self) }),
    {
        self.cat_add_cursor = 0;
    }

    #[verifier::spinoff_prover]
    pub fn cat_add_move_end(&mut self)
        ensures
            *final(self) == (App { cat_add_cursor: add_text(*old(self)).len() as usize, ..*old(self) }),
    {
        self.cat_add_cursor = self.cat_add_char_count();
    }

    /// Puts the cursor at `pos`, kept inside the text (mouse clicks).
    #[verifier::spinoff_prover]
    pub fn cat_add_set_cursor(&mut self, pos: usize)
        ensures
            *final(self) == (App {
                cat_add_cursor: at_most(pos as int, add_text(*old(self)).len() as int) as usize,
                ..*old(self)
            }),
    {
        let n = self.cat_add_char_count();
        self.cat_add_cursor = min_usize(pos, n);
    }

    /// Empties the add-source form and puts the cursor at its start; the form
    /// stays open.
    #[verifier::spinoff_prover]
    pub fn cat_add_clear(&mut self)
        ensures
            *final(self) == (App {
                cat_add_input: final(self).cat_add_input,
                cat_add_cursor: 0,
                ..*old(self)
            }),
            final(self).cat_add_input matches Some(t) && t@.len() == 0,
    {
        self.cat_add_input = Some(String::new());
        self.cat_add_cursor = 0;
    }

    /// Opens the add-source form, prefilled as `"url name [priority]"` from
    /// the selected source when it is discovery-only; the cursor goes to the
    /// end.
    #[verifier::spinoff_prover]
    pub fn cat_add_open(&mut self)
        ensures
            *final(self) == (App {
                cat_add_input: final(self).cat_add_input,
                cat_add_cursor: add_prefill(*old(self)).len() as usize,
                ..*old(self)
            }),
            final(self).cat_add_input matches Some(t) && t@ == add_prefill(*old(self)),
    {
        let prefill = self.prefill_text();
        let n = chars_of(prefill.as_str()).len();
        self.cat_add_cursor = n;
        self.cat_add_input = Some(prefill);
    }

    fn prefill_text(&self) -> (r: String)
        ensures
            r@ == add_prefill(*self),
    {
        let l = self.current_catalog_list();
        if self.cat_index < l.len() && !l[self.cat_index].install_allowed {
            let src = &l[self.cat_index];
            let mut t = src.url.clone();
            push_spaced(&mut t, src.name.as_str());
            match src.priority {
                Some(p) => {
                    let d = crate::text::decimal_u8(p);
                    push_spaced(&mut t, d.as_str());
                },
                None => {},
            }
            t
        } else {
            String::new()
        }
    }
}

/// The text of `v` without `v[lo..hi]`.
fn removed_text(v: &Vec<char>, lo: usize, hi: usize) -> (r: String)
    requires
        lo <= hi <= v@.len(),
    ensures
        r@ == removed(v@, lo as int, hi as int),
{
    let mut t = string_of_range(v, 0, lo);
    crate::text::push_range(&mut t, v, hi, v.len());
    assert(v@.subrange(0, lo as int) =~= v@.take(lo as int));
    assert(v@.subrange(hi as int, v@.len() as int) =~= v@.skip(hi as int));
    t
}

proof fn lemma_without_breaks_len(s: Seq<char>)
    ensures
        without_breaks(s).len() <= s.len(),
    decreases s.len(),
{
    if s.len() > 0 {
        lemma_without_breaks_len(s.drop_last());
    }
}

/// Ids of the features, in project order, that some session's name contains.
pub open spec fn running_ids(features: Seq<Feature>, sessions: Seq<String>) -> Seq<Seq<char>>
    decreases features.len(),
{
    if features.len() == 0 {
        Seq::empty()
    } else {
        let r = running_ids(features.drop_last(), sessions);
        if session_index(sessions, features.last().id@) is Some {
            r.push(features.last().id@)
        } else {
            r
        }
    }
}

/// The snapshot the dashboard keeps for a freshly polled session: the new one,
/// unless tail follow is off and the same session was shown before, whose
/// snapshot then stays.
pub open spec fn kept_snapshot(follow: bool, before: Option<TmuxSession>, new: TmuxSession) -> Seq<String> {
    match before {
        Some(o) => if !follow && o.name@ == new.name@ { o.last_snapshot@ } else { new.last_snapshot@ },
        None => new.last_snapshot@,
    }
}

fn clone_lines(v: &Vec<String>) -> (r: Vec<String>)
    ensures
        r@ == v@,
{
    let mut r: Vec<String> = Vec::new();
    let mut i: usize = 0;
    while i < v.len()
        invariant
            i <= v@.len(),
            r@ == v@.take(i as int),
        decreases v@.len() - i,
    {
        r.push(v[i].clone());
        assert(v@.take(i + 1) =~= v@.take(i as int).push(v@[i as int]));
        i = i + 1;
    }
    assert(v@.take(i as int) =~= v@);
    r
}

impl App {
    /// Applies a tmux poll: which features have a live session, and the
    /// selected feature's session.
    #[verifier::spinoff_prover]
    pub fn apply_tmux(&mut self, sessions: Vec<String>, session: Option<TmuxSession>)
        ensures
            texts_of(final(self).running_features@) == running_ids(old(self).project.features@, sessions@),
            match session {
                None => final(self).tmux_session is None,
                Some(new) => final(self).tmux_session matches Some(t) && t.name == new.name && t.pane_id
                    == new.pane_id && t.status == new.status && t.last_snapshot@ == kept_snapshot(
                    old(self).config.agent_tail_follow,
                    old(self).tmux_session,
                    new,
                ),
            },
            *final(self) == (App {
                running_features: final(self).running_features,
                tmux_session: final(self).tmux_session,
                ..*old(self)
            }),
    {
        let mut running: Vec<String> = Vec::new();
        let mut i: usize = 0;
        while i < self.project.features.len()
            invariant
                i <= self.project.features@.len(),
                texts_of(running@) == running_ids(self.project.features@.take(i as int), sessions@),
            decreases self.project.features@.len() - i,
        {
            let ghost before = running@;
            assert(self.project.features@.take(i + 1).drop_last() =~= self.project.features@.take(i as int));
            let id = &self.project.features[i].id;
            if session_for_feature(&sessions, id.as_str()).is_some() {
                running.push(id.clone());
                assert(texts_of(running@) =~= texts_of(before).push(id@));
            }
            i = i + 1;
        }
        assert(self.project.features@.take(i as int) =~= self.project.features@);
        let kept = match session {
            Some(mut new) => {
                if !self.config.agent_tail_follow {
                    match &self.tmux_session {
                        Some(old) => {
                            if crate::text::str_eq(old.name.as_str(), new.name.as_str()) {
                                new.last_snapshot = clone_lines(&old.last_snapshot);
                            }
                        },
                        None => {},
                    }
                }
                Some(new)
            },
            None => None,
        };
        self.running_features = running;
        self.tmux_session = kept;
    }

    /// Name of the tmux session shown for the selected feature, if any.
    pub fn attach_target(&self) -> (r: Option<String>)
        ensures
            match self.tmux_session {
                Some(t) => r == Some(t.name),
                None => r is None,
            },
    {
        match &self.tmux_session {
            Some(t) => Some(t.name.clone()),
            None => None,
        }
    }
}

// ---------------------------------------------------------------------------
// Merging fetched catalog items into the discovered project
// ---------------------------------------------------------------------------

/// Index of the first integration with key `k`.
pub open spec fn key_index(l: Seq<IntegrationInfo>, k: Seq<char>) -> Option<int>
    decreases l.len(),
{
    if l.len() == 0 {
        None
    } else {
        match key_index(l.drop_last(), k) {
            Some(i) => Some(i),
            None => if l.last().key@ == k { Some(l.len() - 1) } else { None },
        }
    }
}

/// Index of the first extension with id `k`.
pub open spec fn ext_index_of(l: Seq<ExtensionInfo>, k: Seq<char>) -> Option<int>
    decreases l.len(),
{
    if l.len() == 0 {
        None
    } else {
        match ext_index_of(l.drop_last(), k) {
            Some(i) => Some(i),
            None => if l.last().id@ == k { Some(l.len() - 1) } else { None },
        }
    }
}

/// Index of the first preset with id `k`.
pub open spec fn preset_index_of(l: Seq<PresetInfo>, k: Seq<char>) -> Option<int>
    decreases l.len(),
{
    if l.len() == 0 {
        None
    } else {
        match preset_index_of(l.drop_last(), k) {
            Some(i) => Some(i),
            None => if l.last().id@ == k { Some(l.len() - 1) } else { None },
        }
    }
}

/// An installed integration with the catalog's name filled in where it only
/// had its key, and the catalog's description where it had none.
pub open spec fn backfill_integration(e: IntegrationInfo, a: IntegrationInfo) -> IntegrationInfo {
    IntegrationInfo {
        name: if e.name@ == e.key@ && a.name@.len() > 0 { a.name } else { e.name },
        description: if e.description@.len() == 0 && a.description@.len() > 0 {
            a.description
        } else {
            e.description
        },
        ..e
    }
}

/// An installed extension with the catalog's name (where it only had its
/// id), author, description and provenance (where it was only local).
pub open spec fn backfill_extension(e: ExtensionInfo, a: ExtensionInfo) -> ExtensionInfo {
    ExtensionInfo {
        name: if e.name@ == e.id@ { a.name } else { e.name },
        author: if e.author is None { a.author } else { e.author },
        description: if e.description@.len() == 0 { a.description } else { e.description },
        source: if e.source is Local { a.source } else { e.source },
        ..e
    }
}

/// An installed preset with the catalog's name, author, description, source
/// label and template count filled in where it lacked them.
pub open spec fn backfill_preset(e: PresetInfo, a: PresetInfo) -> PresetInfo {
    PresetInfo {
        name: if e.name@ == e.id@ { a.name } else { e.name },
        author: if e.author is None { a.author } else { e.author },
        description: if e.description@.len() == 0 { a.description } else { e.description },
        source_label: if e.source_label is None { a.source_label } else { e.source_label },
        template_count: if e.template_count == 0 && a.template_count > 0 {
            a.template_count
        } else {
            e.template_count
        },
        ..e
    }
}

/// The list after merging one catalog integration: backfilled into the first
/// entry with its key, else appended.
pub open spec fn merge_integration(l: Seq<IntegrationInfo>, a: IntegrationInfo) -> Seq<IntegrationInfo> {
    match key_index(l, a.key@) {
        Some(i) => l.update(i, backfill_integration(l[i], a)),
        None => l.push(a),
    }
}

pub open spec fn merge_extension(l: Seq<ExtensionInfo>, a: ExtensionInfo) -> Seq<ExtensionInfo> {
    match ext_index_of(l, a.id@) {
        Some(i) => l.update(i, backfill_extension(l[i], a)),
        None => l.push(a),
    }
}

pub open spec fn merge_preset(l: Seq<PresetInfo>, a: PresetInfo) -> Seq<PresetInfo> {
    match preset_index_of(l, a.id@) {
        Some(i) => l.update(i, backfill_preset(l[i], a)),
        None => l.push(a),
    }
}

/// The list after merging the catalog's integrations one after another.
pub open spec fn merged_integrations(l: Seq<IntegrationInfo>, avail: Seq<IntegrationInfo>) -> Seq<IntegrationInfo>
    decreases avail.len(),
{
    if avail.len() == 0 {
        l
    } else {
        merge_integration(merged_integrations(l, avail.drop_last()), avail.last())
    }
}

pub open spec fn merged_extensions(l: Seq<ExtensionInfo>, avail: Seq<ExtensionInfo>) -> Seq<ExtensionInfo>
    decreases avail.len(),
{
    if avail.len() == 0 {
        l
    } else {
        merge_extension(merged_extensions(l, avail.drop_last()), avail.last())
    }
}

pub open spec fn merged_presets(l: Seq<PresetInfo>, avail: Seq<PresetInfo>) -> Seq<PresetInfo>
    decreases avail.len(),
{
    if avail.len() == 0 {
        l
    } else {
        merge_preset(merged_presets(l, avail.drop_last()), avail.last())
    }
}

/// The project `q` is `p` with the cached catalog results merged in.
pub open spec fn cache_applied(p: Project, q: Project, c: CatalogResults) -> bool {
    &&& q.integrations@ == merged_integrations(p.integrations@, c.integrations@)
    &&& q.extensions@ == merged_extensions(p.extensions@, c.extensions@)
    &&& q.presets@ == merged_presets(p.presets@, c.presets@)
    &&& q.workflows@ == c.workflows@
    &&& q == (Project {
        integrations: q.integrations,
        extensions: q.extensions,
        presets: q.presets,
        workflows: q.workflows,
        ..p
    })
}

proof fn lemma_key_index(l: Seq<IntegrationInfo>, k: Seq<char>)
    ensures
        key_index(l, k) matches Some(i) ==> 0 <= i < l.len() && l[i].key@ == k,
    decreases l.len(),
{
    if l.len() > 0 {
        lemma_key_index(l.drop_last(), k);
    }
}

proof fn lemma_ext_index(l: Seq<ExtensionInfo>, k: Seq<char>)
    ensures
        ext_index_of(l, k) matches Some(i) ==> 0 <= i < l.len() && l[i].id@ == k,
    decreases l.len(),
{
    if l.len() > 0 {
        lemma_ext_index(l.drop_last(), k);
    }
}

proof fn lemma_preset_index(l: Seq<PresetInfo>, k: Seq<char>)
    ensures
        preset_index_of(l, k) matches Some(i) ==> 0 <= i < l.len() && l[i].id@ == k,
    decreases l.len(),
{
    if l.len() > 0 {
        lemma_preset_index(l.drop_last(), k);
    }
}

fn find_key(l: &Vec<IntegrationInfo>, k: &str) -> (r: Option<usize>)
    ensures
        r matches Some(i) ==> i < l@.len() && key_index(l@, k@) == Some(i as int),
        r is None ==> key_index(l@, k@) is None,
{
    let mut i: usize = 0;
    while i < l.len()
        invariant
            i <= l@.len(),
            key_index(l@.take(i as int), k@) is None,
        decreases l@.len() - i,
    {
        assert(l@.take(i + 1).drop_last() =~= l@.take(i as int));
        if crate::text::str_eq(l[i].key.as_str(), k) {
            assert(key_index(l@.take(i + 1), k@) == Some(i as int));
            proof {
                lemma_key_index_prefix(l@, i + 1, k@);
            }
            return Some(i);
        }
        i = i + 1;
    }
    assert(l@.take(i as int) =~= l@);
    None
}

proof fn lemma_key_index_prefix(l: Seq<IntegrationInfo>, n: int, k: Seq<char>)
    requires
        0 <= n <= l.len(),
        key_index(l.take(n), k) is Some,
    ensures
        key_index(l, k) == key_index(l.take(n), k),
    decreases l.len() - n,
{
    if n < l.len() {
        assert(l.take(n + 1).drop_last() =~= l.take(n));
        lemma_key_index_prefix(l, n + 1, k);
    } else {
        assert(l.take(n) =~= l);
    }
}

fn find_ext(l: &Vec<ExtensionInfo>, k: &str) -> (r: Option<usize>)
    ensures
        r matches Some(i) ==> i < l@.len() && ext_index_of(l@, k@) == Some(i as int),
        r is None ==> ext_index_of(l@, k@) is None,
{
    let mut i: usize = 0;
    while i < l.len()
        invariant
            i <= l@.len(),
            ext_index_of(l@.take(i as int), k@) is None,
        decreases l@.len() - i,
    {
        assert(l@.take(i + 1).drop_last() =~= l@.take(i as int));
        if crate::text::str_eq(l[i].id.as_str(), k) {
            assert(ext_index_of(l@.take(i + 1), k@) == Some(i as int));
            proof {
                lemma_ext_index_prefix(l@, i + 1, k@);
            }
            return Some(i);
        }
        i = i + 1;
    }
    assert(l@.take(i as int) =~= l@);
    None
}

proof fn lemma_ext_index_prefix(l: Seq<ExtensionInfo>, n: int, k: Seq<char>)
    requires
        0 <= n <= l.len(),
        ext_index_of(l.take(n), k) is Some,
    ensures
        ext_index_of(l, k) == ext_index_of(l.take(n), k),
    decreases l.len() - n,
{
    if n < l.len() {
        assert(l.take(n + 1).drop_last() =~= l.take(n));
        lemma_ext_index_prefix(l, n + 1, k);
    } else {
        assert(l.take(n) =~= l);
    }
}

fn find_preset(l: &Vec<PresetInfo>, k: &str) -> (r: Option<usize>)
    ensures
        r matches Some(i) ==> i < l@.len() && preset_index_of(l@, k@) == Some(i as int),
        r is None ==> preset_index_of(l@, k@) is None,
{
    let mut i: usize = 0;
    while i < l.len()
        invariant
            i <= l@.len(),
            preset_index_of(l@.take(i as int), k@) is None,
        decreases l@.len() - i,
    {
        assert(l@.take(i + 1).drop_last() =~= l@.take(i as int));
        if crate::text::str_eq(l[i].id.as_str(), k) {
            assert(preset_index_of(l@.take(i + 1), k@) == Some(i as int));
            proof {
                lemma_preset_index_prefix(l@, i + 1, k@);
            }
            return Some(i);
        }
        i = i + 1;
    }
    assert(l@.take(i as int) =~= l@);
    None
}

proof fn lemma_preset_index_prefix(l: Seq<PresetInfo>, n: int, k: Seq<char>)
    requires
        0 <= n <= l.len(),
        preset_index_of(l.take(n), k) is Some,
    ensures
        preset_index_of(l, k) == preset_index_of(l.take(n), k),
    decreases l.len() - n,
{
    if n < l.len() {
        assert(l.take(n + 1).drop_last() =~= l.take(n));
        lemma_preset_index_prefix(l, n + 1, k);
    } else {
        assert(l.take(n) =~= l);
    }
}

fn backfilled_integration(e: &IntegrationInfo, a: &IntegrationInfo) -> (r: IntegrationInfo)
    ensures
        r == backfill_integration(*e, *a),
{
    let mut r = e.clone();
    if crate::text::str_eq(e.name.as_str(), e.key.as_str()) && !a.name.as_str().is_empty() {
        r.name = a.name.clone();
    }
    if e.description.as_str().is_empty() && !a.description.as_str().is_empty() {
        r.description = a.description.clone();
    }
    r
}

fn backfilled_extension(e: &ExtensionInfo, a: &ExtensionInfo) -> (r: ExtensionInfo)
    ensures
        r == backfill_extension(*e, *a),
{
    let mut r = e.clone();
    if crate::text::str_eq(e.name.as_str(), e.id.as_str()) {
        r.name = a.name.clone();
    }
    if e.author.is_none() {
        r.author = a.author.clone();
    }
    if e.description.as_str().is_empty() {
        r.description = a.description.clone();
    }
    if matches!(e.source, ExtensionSource::Local) {
        r.source = a.source.clone();
    }
    r
}

fn backfilled_preset(e: &PresetInfo, a: &PresetInfo) -> (r: PresetInfo)
    ensures
        r == backfill_preset(*e, *a),
{
    let mut r = e.clone();
    if crate::text::str_eq(e.name.as_str(), e.id.as_str()) {
        r.name = a.name.clone();
    }
    if e.author.is_none() {
        r.author = a.author.clone();
    }
    if e.description.as_str().is_empty() {
        r.description = a.description.clone();
    }
    if e.source_label.is_none() {
        r.source_label = a.source_label.clone();
    }
    if e.template_count == 0 && a.template_count > 0 {
        r.template_count = a.template_count;
    }
    r
}

fn merge_integrations_into(list: &mut Vec<IntegrationInfo>, avail: &Vec<IntegrationInfo>)
    ensures
        final(list)@ == merged_integrations(old(list)@, avail@),
{
    let ghost l0 = list@;
    let mut i: usize = 0;
    while i < avail.len()
        invariant
            i <= avail@.len(),
            list@ == merged_integrations(l0, avail@.take(i as int)),
        decreases avail@.len() - i,
    {
        assert(avail@.take(i + 1).drop_last() =~= avail@.take(i as int));
        let a = &avail[i];
        match find_key(list, a.key.as_str()) {
            Some(j) => {
                let updated = backfilled_integration(&list[j], a);
                list[j] = updated;
            },
            None => {
                list.push(a.clone());
            },
        }
        i = i + 1;
    }
    assert(avail@.take(i as int) =~= avail@);
}

fn merge_extensions_into(list: &mut Vec<ExtensionInfo>, avail: &Vec<ExtensionInfo>)
    ensures
        final(list)@ == merged_extensions(old(list)@, avail@),
{
    let ghost l0 = list@;
    let mut i: usize = 0;
    while i < avail.len()
        invariant
            i <= avail@.len(),
            list@ == merged_extensions(l0, avail@.take(i as int)),
        decreases avail@.len() - i,
    {
        assert(avail@.take(i + 1).drop_last() =~= avail@.take(i as int));
        let a = &avail[i];
        match find_ext(list, a.id.as_str()) {
            Some(j) => {
                let updated = backfilled_extension(&list[j], a);
                list[j] = updated;
            },
            None => {
                list.push(a.clone());
            },
        }
        i = i + 1;
    }
    assert(avail@.take(i as int) =~= avail@);
}

fn merge_presets_into(list: &mut Vec<PresetInfo>, avail: &Vec<PresetInfo>)
    ensures
        final(list)@ == merged_presets(old(list)@, avail@),
{
    let ghost l0 = list@;
    let mut i: usize = 0;
    while i < avail.len()
        invariant
            i <= avail@.len(),
            list@ == merged_presets(l0, avail@.take(i as int)),
        decreases avail@.len() - i,
    {
        assert(avail@.take(i + 1).drop_last() =~= avail@.take(i as int));
        let a = &avail[i];
        match find_preset(list, a.id.as_str()) {
            Some(j) => {
                let updated = backfilled_preset(&list[j], a);
                list[j] = updated;
            },
            None => {
                list.push(a.clone());
            },
        }
        i = i + 1;
    }
    assert(avail@.take(i as int) =~= avail@);
}

fn clone_workflows(v: &Vec<WorkflowInfo>) -> (r: Vec<WorkflowInfo>)
    ensures
        r@ == v@,
{
    let mut r: Vec<WorkflowInfo> = Vec::new();
    let mut i: usize = 0;
    while i < v.len()
        invariant
            i <= v@.len(),
            r@ == v@.take(i as int),
        decreases v@.len() - i,
    {
        r.push(v[i].clone());
        assert(v@.take(i + 1) =~= v@.take(i as int).push(v@[i as int]));
        i = i + 1;
    }
    assert(v@.take(i as int) =~= v@);
    r
}

/// Merges catalog results into a project's lists.
fn apply_cache_to(p: &mut Project, c: &CatalogResults)
    ensures
        cache_applied(*old(p), *final(p), *c),
{
    merge_integrations_into(&mut p.integrations, &c.integrations);
    merge_extensions_into(&mut p.extensions, &c.extensions);
    merge_presets_into(&mut p.presets, &c.presets);
    p.workflows = clone_workflows(&c.workflows);
}

impl App {
    /// Merges the cached catalog results into the project: catalog entries
    /// not installed are appended, installed ones get the catalog's metadata
    /// where they lack it, and the workflows become the catalog's.
    #[verifier::spinoff_prover]
    pub fn apply_catalog_cache(&mut self)
        ensures
            match old(self).catalog_cache {
                None => *final(self) == *old(self),
                Some(c) => cache_applied(old(self).project, final(self).project, c) && *final(self)
                    == (App { project: final(self).project, ..*old(self) }),
            },
    {
        match &self.catalog_cache {
            Some(c) => apply_cache_to(&mut self.project, c),
            None => {},
        }
    }

    /// Stores fetched catalog results, merges them into the project and ends
    /// the indexing state.
    pub fn merge_catalog_results(
        &mut self,
        available_integrations: Vec<IntegrationInfo>,
        available_extensions: Vec<ExtensionInfo>,
        available_presets: Vec<PresetInfo>,
        workflows: Vec<WorkflowInfo>,
    )
        ensures
            final(self).catalog_cache matches Some(c) && c.integrations == available_integrations
                && c.extensions == available_extensions && c.presets == available_presets && c.workflows
                == workflows && cache_applied(old(self).project, final(self).project, c),
            *final(self) == (App {
                project: final(self).project,
                catalog_cache: final(self).catalog_cache,
                indexing: false,
                ..*old(self)
            }),
    {
        self.catalog_cache = Some(
            CatalogResults {
                integrations: available_integrations,
                extensions: available_extensions,
                presets: available_presets,
                workflows,
            },
        );
        self.apply_catalog_cache();
        self.indexing = false;
    }

    /// Takes a freshly discovered project, keeps the feature selection inside
    /// it and merges the cached catalog results in again.
    #[verifier::spinoff_prover]
    pub fn refresh_project(&mut self, discovered: Project)
        ensures
            match old(self).catalog_cache {
                None => final(self).project == discovered,
                Some(c) => cache_applied(discovered, final(self).project, c),
            },
            *final(self) == (App {
                project: final(self).project,
                feature_index: if old(self).feature_index >= discovered.features@.len() {
                    if discovered.features@.len() > 0 { (discovered.features@.len() - 1) as usize } else { 0 }
                } else {
                    old(self).feature_index
                },
                ..*old(self)
            }),
    {
        let n = discovered.features.len();
        let idx = if self.feature_index >= n {
            if n > 0 { n - 1 } else { 0 }
        } else {
            self.feature_index
        };
        self.project = discovered;
        self.feature_index = idx;
        self.apply_catalog_cache();
    }
}

/// A job's status after a run of events.
pub open spec fn status_after_all(st: JobStatus, evs: Seq<CliEvent>) -> JobStatus
    decreases evs.len(),
{
    if evs.len() == 0 {
        st
    } else {
        status_after(status_after_all(st, evs.drop_last()), evs.last())
    }
}

/// A job's output after a run of events.
pub open spec fn output_after_all(out: Seq<char>, evs: Seq<CliEvent>) -> Seq<char>
    decreases evs.len(),
{
    if evs.len() == 0 {
        out
    } else {
        output_after(output_after_all(out, evs.drop_last()), evs.last())
    }
}

pub open spec fn is_success(e: CliEvent) -> bool {
    e matches CliEvent::Completed { success } && success
}

/// Whether one of the events reports a successful completion.
pub open spec fn any_success(evs: Seq<CliEvent>) -> bool {
    exists|i: int| 0 <= i < evs.len() && is_success(#[trigger] evs[i])
}

impl App {
    /// Records the events the running job reported since the last poll.
    /// Returns whether one of them was a successful completion, after which
    /// the project is to be discovered anew.
    #[verifier::spinoff_prover]
    pub fn record_cli_events(&mut self, events: Vec<CliEvent>) -> (succeeded: bool)
        ensures
            succeeded == any_success(events@),
            match old(self).cli_job {
                None => final(self).cli_job is None,
                Some(j) => final(self).cli_job matches Some(k) && k.action == j.action && k.command_line
                    == j.command_line && k.status == status_after_all(j.status, events@) && k.output@
                    == output_after_all(j.output@, events@),
            },
            *final(self) == (App { cli_job: final(self).cli_job, ..*old(self) }),
    {
        let mut succeeded = false;
        let ghost evs = events@;
        let ghost j0 = self.cli_job;
        let mut i: usize = 0;
        let n = events.len();
        let mut job = self.cli_job.take();
        while i < n
            invariant
                n == evs.len(),
                i <= n,
                events@ == evs,
                succeeded == exists|k: int| 0 <= k < i && is_success(#[trigger] evs[k]),
                match j0 {
                    None => job is None,
                    Some(j) => job matches Some(k) && k.action == j.action && k.command_line == j.command_line
                        && k.status == status_after_all(j.status, evs.take(i as int)) && k.output@
                        == output_after_all(j.output@, evs.take(i as int)),
                },
            decreases n - i,
        {
            assert(evs.take(i + 1).drop_last() =~= evs.take(i as int));
            let e = events[i].clone();
            match &e {
                CliEvent::Completed { success } => {
                    if *success {
                        succeeded = true;
                    }
                },
                _ => {},
            }
            match &mut job {
                Some(j) => j.apply_event(e),
                None => {},
            }
            i = i + 1;
        }
        assert(evs.take(i as int) =~= evs);
        self.cli_job = job;
        succeeded
    }

    /// The catalog kind whose sources changed, when the last job added or
    /// removed a catalog source.
    pub fn finished_catalog_target(&self) -> (r: Option<CatalogTarget>)
        ensures
            r == match self.cli_job {
                Some(j) => match j.action {
                    CliAction::CatalogAdd { target, .. } => Some(target),
                    CliAction::CatalogRemove { target, .. } => Some(target),
                    _ => None,
                },
                None => None,
            },
    {
        match &self.cli_job {
            Some(j) => match &j.action {
                CliAction::CatalogAdd { target, .. } => Some(*target),
                CliAction::CatalogRemove { target, .. } => Some(*target),
                _ => None,
            },
            None => None,
        }
    }
}

} // verus!
