//! User settings persisted between runs.
use vstd::prelude::*;
use crate::layout::CustomLayout;
use crate::text::str_eq;
use crate::theme::{Accent, ThemeMode};

verus! {

/// Persisted settings. Theme, accent and layout are kept as the text that is
/// written to the settings file.
#[derive(Debug)]
pub struct AppConfig {
    pub theme: String,
    pub accent: String,
    pub dashboard_layout: String,
    pub mouse_support: bool,
    pub agent_tail_follow: bool,
    pub confirm_before_force: bool,
    pub tmux_prefix: String,
    pub config_location: String,
    pub custom_layout: Option<CustomLayout>,
}

pub fn default_theme() -> (r: String)
    ensures
        r@ == "dark"@,
{
    "dark".to_owned()
}

pub fn default_accent() -> (r: String)
    ensures
        r@ == "indigo"@,
{
    "indigo".to_owned()
}

pub fn default_layout() -> (r: String)
    ensures
        r@ == "overview"@,
{
    "overview".to_owned()
}

pub fn default_true() -> (r: bool)
    ensures
        r,
{
    true
}

pub fn default_tmux_prefix() -> (r: String)
    ensures
        r@ == "spectatui-"@,
{
    "spectatui-".to_owned()
}

pub fn default_config_location() -> (r: String)
    ensures
        r@ == "./.spectatui.toml"@,
{
    "./.spectatui.toml".to_owned()
}

/// The selectable config-location presets shown in Settings.
pub fn config_locations() -> (r: &'static [&'static str])
    ensures
        r@.len() == 3,
        r@[0]@ == "./.spectatui.toml"@,
        r@[1]@ == "~/.spectatui.toml"@,
        r@[2]@ == "~/.config/spectatui/config.toml"@,
{
    &["./.spectatui.toml", "~/.spectatui.toml", "~/.config/spectatui/config.toml"]
}

/// Settings as a fresh install has them.
pub open spec fn is_default_config(c: AppConfig) -> bool {
    &&& c.theme@ == "dark"@
    &&& c.accent@ == "indigo"@
    &&& c.dashboard_layout@ == "overview"@
    &&& !c.mouse_support
    &&& c.agent_tail_follow
    &&& c.confirm_before_force
    &&& c.tmux_prefix@ == "spectatui-"@
    &&& c.config_location@ == "./.spectatui.toml"@
    &&& c.custom_layout is None
}

impl Default for AppConfig {
    fn default() -> (r: Self)
        ensures
            is_default_config(r),
    {
        AppConfig {
            theme: default_theme(),
            accent: default_accent(),
            dashboard_layout: default_layout(),
            mouse_support: false,
            agent_tail_follow: true,
            confirm_before_force: true,
            tmux_prefix: default_tmux_prefix(),
            config_location: default_config_location(),
            custom_layout: None,
        }
    }
}

/// `light` is the light theme; any other text is dark.
pub open spec fn mode_named(s: Seq<char>) -> ThemeMode {
    if s == "light"@ {
        ThemeMode::Light
    } else {
        ThemeMode::Dark
    }
}

/// `teal` and `amber` name those accents; any other text is indigo.
pub open spec fn accent_named(s: Seq<char>) -> Accent {
    if s == "teal"@ {
        Accent::Teal
    } else if s == "amber"@ {
        Accent::Amber
    } else {
        Accent::Indigo
    }
}

pub open spec fn mode_text(m: ThemeMode) -> Seq<char> {
    match m {
        ThemeMode::Dark => "dark"@,
        ThemeMode::Light => "light"@,
    }
}

pub open spec fn accent_text(a: Accent) -> Seq<char> {
    match a {
        Accent::Indigo => "indigo"@,
        Accent::Teal => "teal"@,
        Accent::Amber => "amber"@,
    }
}

impl AppConfig {
    pub fn theme_mode(&self) -> (r: ThemeMode)
        ensures
            r == mode_named(self.theme@),
    {
        if str_eq(self.theme.as_str(), "light") {
            ThemeMode::Light
        } else {
            ThemeMode::Dark
        }
    }

    pub fn accent(&self) -> (r: Accent)
        ensures
            r == accent_named(self.accent@),
    {
        if str_eq(self.accent.as_str(), "teal") {
            Accent::Teal
        } else if str_eq(self.accent.as_str(), "amber") {
            Accent::Amber
        } else {
            Accent::Indigo
        }
    }

    pub fn set_theme(&mut self, mode: ThemeMode)
        ensures
            final(self).theme@ == mode_text(mode),
            final(self).accent == old(self).accent,
            final(self).dashboard_layout == old(self).dashboard_layout,
            final(self).mouse_support == old(self).mouse_support,
            final(self).agent_tail_follow == old(self).agent_tail_follow,
            final(self).confirm_before_force == old(self).confirm_before_force,
            final(self).tmux_prefix == old(self).tmux_prefix,
            final(self).config_location == old(self).config_location,
            final(self).custom_layout == old(self).custom_layout,
    {
        self.theme = match mode {
            ThemeMode::Dark => "dark".to_owned(),
            ThemeMode::Light => "light".to_owned(),
        };
    }

    pub fn set_accent(&mut self, accent: Accent)
        ensures
            final(self).accent@ == accent_text(accent),
            final(self).theme == old(self).theme,
            final(self).dashboard_layout == old(self).dashboard_layout,
            final(self).mouse_support == old(self).mouse_support,
            final(self).agent_tail_follow == old(self).agent_tail_follow,
            final(self).confirm_before_force == old(self).confirm_before_force,
            final(self).tmux_prefix == old(self).tmux_prefix,
            final(self).config_location == old(self).config_location,
            final(self).custom_layout == old(self).custom_layout,
    {
        self.accent = match accent {
            Accent::Indigo => "indigo".to_owned(),
            Accent::Teal => "teal".to_owned(),
            Accent::Amber => "amber".to_owned(),
        };
    }
}

/// Writing a theme or accent and reading it back gives what was written.
pub proof fn law_theme_accent_round_trip(m: ThemeMode, a: Accent)
    ensures
        mode_named(mode_text(m)) == m,
        accent_named(accent_text(a)) == a,
{
    reveal_strlit("light");
    reveal_strlit("dark");
    reveal_strlit("teal");
    reveal_strlit("amber");
    reveal_strlit("indigo");
    assert("dark"@.len() != "light"@.len());
    assert("indigo"@.len() != "teal"@.len());
    assert("indigo"@.len() != "amber"@.len());
    assert("amber"@.len() != "teal"@.len());
}

/// Where a settings-location preset is anchored.
#[derive(Debug, Clone, Copy, PartialEq, Eq, Structural)]
pub enum LocationBase {
    /// `~/…`: under the home directory.
    Home,
    /// `./…`: under the current directory.
    CurrentDir,
    /// Any other text is a path as written.
    AsWritten,
}

/// A settings location split into its anchor and the rest of the path: a
/// leading `~/` means the home directory, a leading `./` the current one.
pub open spec fn location_parts(loc: Seq<char>) -> (LocationBase, Seq<char>) {
    if crate::text::starts_with(loc, "~/"@) {
        (LocationBase::Home, loc.skip(2))
    } else if crate::text::starts_with(loc, "./"@) {
        (LocationBase::CurrentDir, loc.skip(2))
    } else {
        (LocationBase::AsWritten, loc)
    }
}

/// Splits a settings location into its anchor and the path below it.
pub fn split_location(loc: &str) -> (r: (LocationBase, String))
    ensures
        (r.0, r.1@) == location_parts(loc@),
{
    let v = crate::text::chars_of(loc);
    proof {
        reveal_strlit("~/");
        reveal_strlit("./");
    }
    if v.len() >= 2 && v[0] == '~' && v[1] == '/' {
        assert(v@.subrange(0, 2) =~= "~/"@);
        let rest = crate::text::string_of_range(&v, 2, v.len());
        assert(v@.subrange(2, v@.len() as int) =~= v@.skip(2));
        return (LocationBase::Home, rest);
    }
    if v.len() >= 2 && v[0] == '.' && v[1] == '/' {
        assert(v@.subrange(0, 2) =~= "./"@);
        assert(v@.subrange(0, 2)[0] == '.');
        assert("~/"@[0] == '~');
        let rest = crate::text::string_of_range(&v, 2, v.len());
        assert(v@.subrange(2, v@.len() as int) =~= v@.skip(2));
        return (LocationBase::CurrentDir, rest);
    }
    proof {
        if v@.len() >= 2 {
            assert(v@.subrange(0, 2)[0] == v@[0]);
            assert(v@.subrange(0, 2)[1] == v@[1]);
            assert("~/"@[0] == '~' && "~/"@[1] == '/');
            assert("./"@[0] == '.' && "./"@[1] == '/');
        }
    }
    (LocationBase::AsWritten, loc.to_owned())
}

} // verus!
