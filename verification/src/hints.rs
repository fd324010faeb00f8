//! What the two bottom lines show: which key hints fit the current state, and
//! the counts in the status bar.
use vstd::prelude::*;
use crate::app::{App, PopupKind, Screen};
use crate::registry::{ExtensionInfo, InstallStatus, IntegrationInfo, PresetInfo, WorkflowInfo};
use crate::speckit::Project;

verus! {

/// The situation the key-hint line describes.
#[derive(Debug, Clone, Copy, PartialEq, Eq, Structural)]
pub enum HintContext {
    Filter,
    LayoutEditor,
    Palette,
    Integrations,
    Workflows,
    ExtensionsPresets,
    Features,
    CliConfirm,
    CliOutput,
    OtherPopup,
    OnScreen(Screen),
}

/// A list filter being typed comes first, then the layout editor, the
/// palette, the open popup by kind, and else the current screen.
pub open spec fn hint_context_of(a: App) -> HintContext {
    if a.filter_active {
        HintContext::Filter
    } else if a.layout_editor_active {
        HintContext::LayoutEditor
    } else if a.palette is Some {
        HintContext::Palette
    } else {
        match a.active_popup {
            Some(PopupKind::Integrations) => HintContext::Integrations,
            Some(PopupKind::Workflows) => HintContext::Workflows,
            Some(PopupKind::Extensions) | Some(PopupKind::Presets) => HintContext::ExtensionsPresets,
            Some(PopupKind::Features) => HintContext::Features,
            Some(PopupKind::CliConfirm) => HintContext::CliConfirm,
            Some(PopupKind::CliOutput) => HintContext::CliOutput,
            Some(_) => HintContext::OtherPopup,
            None => HintContext::OnScreen(a.screen),
        }
    }
}

/// Which key hints the state calls for.
pub fn hint_context(app: &App) -> (r: HintContext)
    ensures
        r == hint_context_of(*app),
{
    if app.filter_active {
        HintContext::Filter
    } else if app.layout_editor_active {
        HintContext::LayoutEditor
    } else if app.palette.is_some() {
        HintContext::Palette
    } else {
        match app.active_popup {
            Some(PopupKind::Integrations) => HintContext::Integrations,
            Some(PopupKind::Workflows) => HintContext::Workflows,
            Some(PopupKind::Extensions) | Some(PopupKind::Presets) => HintContext::ExtensionsPresets,
            Some(PopupKind::Features) => HintContext::Features,
            Some(PopupKind::CliConfirm) => HintContext::CliConfirm,
            Some(PopupKind::CliOutput) => HintContext::CliOutput,
            Some(_) => HintContext::OtherPopup,
            None => HintContext::OnScreen(app.screen),
        }
    }
}

/// Number of installed integrations.
pub open spec fn installed_integrations(s: Seq<IntegrationInfo>) -> nat
    decreases s.len(),
{
    if s.len() == 0 {
        0
    } else {
        installed_integrations(s.drop_last()) + if s.last().installed { 1nat } else { 0nat }
    }
}

/// Number of extensions present in the project (enabled or disabled).
pub open spec fn present_extensions(s: Seq<ExtensionInfo>) -> nat
    decreases s.len(),
{
    if s.len() == 0 {
        0
    } else {
        present_extensions(s.drop_last()) + if s.last().status != InstallStatus::Available {
            1nat
        } else {
            0nat
        }
    }
}

/// Number of presets present in the project (enabled or disabled).
pub open spec fn present_presets(s: Seq<PresetInfo>) -> nat
    decreases s.len(),
{
    if s.len() == 0 {
        0
    } else {
        present_presets(s.drop_last()) + if s.last().status != InstallStatus::Available {
            1nat
        } else {
            0nat
        }
    }
}

/// Number of installed workflows.
pub open spec fn installed_workflows(s: Seq<WorkflowInfo>) -> nat
    decreases s.len(),
{
    if s.len() == 0 {
        0
    } else {
        installed_workflows(s.drop_last()) + if s.last().installed { 1nat } else { 0nat }
    }
}

/// The counts the status bar shows.
#[derive(Debug, Clone, Copy, PartialEq, Eq, Structural)]
pub struct StatusCounts {
    pub integrations: usize,
    pub features: usize,
    pub extensions: usize,
    pub presets: usize,
    pub workflows: usize,
}

fn count_integrations(s: &Vec<IntegrationInfo>) -> (r: usize)
    ensures
        r == installed_integrations(s@),
{
    let mut c: usize = 0;
    let mut i: usize = 0;
    while i < s.len()
        invariant
            i <= s@.len(),
            c <= i,
            c == installed_integrations(s@.take(i as int)),
        decreases s@.len() - i,
    {
        assert(s@.take(i + 1).drop_last() =~= s@.take(i as int));
        if s[i].installed {
            c = c + 1;
        }
        i = i + 1;
    }
    assert(s@.take(i as int) =~= s@);
    c
}

fn count_extensions(s: &Vec<ExtensionInfo>) -> (r: usize)
    ensures
        r == present_extensions(s@),
{
    let mut c: usize = 0;
    let mut i: usize = 0;
    while i < s.len()
        invariant
            i <= s@.len(),
            c <= i,
            c == present_extensions(s@.take(i as int)),
        decreases s@.len() - i,
    {
        assert(s@.take(i + 1).drop_last() =~= s@.take(i as int));
        if s[i].status != InstallStatus::Available {
            c = c + 1;
        }
        i = i + 1;
    }
    assert(s@.take(i as int) =~= s@);
    c
}

fn count_presets(s: &Vec<PresetInfo>) -> (r: usize)
    ensures
        r == present_presets(s@),
{
    let mut c: usize = 0;
    let mut i: usize = 0;
    while i < s.len()
        invariant
            i <= s@.len(),
            c <= i,
            c == present_presets(s@.take(i as int)),
        decreases s@.len() - i,
    {
        assert(s@.take(i + 1).drop_last() =~= s@.take(i as int));
        if s[i].status != InstallStatus::Available {
            c = c + 1;
        }
        i = i + 1;
    }
    assert(s@.take(i as int) =~= s@);
    c
}

fn count_workflows(s: &Vec<WorkflowInfo>) -> (r: usize)
    ensures
        r == installed_workflows(s@),
{
    let mut c: usize = 0;
    let mut i: usize = 0;
    while i < s.len()
        invariant
            i <= s@.len(),
            c <= i,
            c == installed_workflows(s@.take(i as int)),
        decreases s@.len() - i,
    {
        assert(s@.take(i + 1).drop_last() =~= s@.take(i as int));
        if s[i].installed {
            c = c + 1;
        }
        i = i + 1;
    }
    assert(s@.take(i as int) =~= s@);
    c
}

/// The status bar's counts: installed integrations, features, extensions and
/// presets present (enabled or disabled), and installed workflows.
pub fn status_counts(p: &Project) -> (r: StatusCounts)
    ensures
        r.integrations == installed_integrations(p.integrations@),
        r.features == p.features@.len(),
        r.extensions == present_extensions(p.extensions@),
        r.presets == present_presets(p.presets@),
        r.workflows == installed_workflows(p.workflows@),
{
    StatusCounts {
        integrations: count_integrations(&p.integrations),
        features: p.features.len(),
        extensions: count_extensions(&p.extensions),
        presets: count_presets(&p.presets),
        workflows: count_workflows(&p.workflows),
    }
}

} // verus!
