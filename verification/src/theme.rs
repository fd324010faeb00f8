//! Theme modes, accent palettes and the colors each combination uses.
use vstd::prelude::*;

verus! {

#[derive(Debug, Clone, Copy, PartialEq, Eq, Structural)]
pub enum ThemeMode {
    Dark,
    Light,
}

#[derive(Debug, Clone, Copy, PartialEq, Eq, Structural)]
pub enum Accent {
    Indigo,
    Teal,
    Amber,
}

pub open spec fn accent_after(a: Accent) -> Accent {
    match a {
        Accent::Indigo => Accent::Teal,
        Accent::Teal => Accent::Amber,
        Accent::Amber => Accent::Indigo,
    }
}

/// A 24-bit color.
#[derive(Debug, Clone, Copy, PartialEq, Eq, Structural)]
pub struct Rgb {
    pub r: u8,
    pub g: u8,
    pub b: u8,
}

pub open spec fn rgb(r: u8, g: u8, b: u8) -> Rgb {
    Rgb { r, g, b }
}

pub open spec fn accent_rgb(a: Accent, mode: ThemeMode) -> Rgb {
    match (a, mode) {
        (Accent::Indigo, ThemeMode::Dark) => rgb(0x93, 0xa4, 0xff),
        (Accent::Indigo, ThemeMode::Light) => rgb(0x51, 0x59, 0xd4),
        (Accent::Teal, ThemeMode::Dark) => rgb(0x5f, 0xd6, 0xbf),
        (Accent::Teal, ThemeMode::Light) => rgb(0x1c, 0x96, 0x85),
        (Accent::Amber, ThemeMode::Dark) => rgb(0xe6, 0xb5, 0x52),
        (Accent::Amber, ThemeMode::Light) => rgb(0xb0, 0x74, 0x14),
    }
}

impl Accent {
    /// The next palette in the cycle indigo → teal → amber → indigo.
    pub fn next(self) -> (r: Self)
        ensures
            r == accent_after(self),
    {
        match self {
            Accent::Indigo => Accent::Teal,
            Accent::Teal => Accent::Amber,
            Accent::Amber => Accent::Indigo,
        }
    }

    /// The accent color in a theme mode.
    pub fn color(self, mode: ThemeMode) -> (r: Rgb)
        ensures
            r == accent_rgb(self, mode),
    {
        match (self, mode) {
            (Accent::Indigo, ThemeMode::Dark) => Rgb { r: 0x93, g: 0xa4, b: 0xff },
            (Accent::Indigo, ThemeMode::Light) => Rgb { r: 0x51, g: 0x59, b: 0xd4 },
            (Accent::Teal, ThemeMode::Dark) => Rgb { r: 0x5f, g: 0xd6, b: 0xbf },
            (Accent::Teal, ThemeMode::Light) => Rgb { r: 0x1c, g: 0x96, b: 0x85 },
            (Accent::Amber, ThemeMode::Dark) => Rgb { r: 0xe6, g: 0xb5, b: 0x52 },
            (Accent::Amber, ThemeMode::Light) => Rgb { r: 0xb0, g: 0x74, b: 0x14 },
        }
    }
}

/// Cycling the accent three times comes back to where it started.
pub proof fn law_accent_cycle(a: Accent)
    ensures
        accent_after(accent_after(accent_after(a))) == a,
        accent_after(a) != a,
{
}

/// The colors of a theme.
#[derive(Debug, Clone, Copy, PartialEq, Eq, Structural)]
pub struct Palette {
    pub bg: Rgb,
    pub panel: Rgb,
    pub panel_alt: Rgb,
    pub fg: Rgb,
    pub dim: Rgb,
    pub faint: Rgb,
    pub border: Rgb,
    pub sel: Rgb,
    pub sel_fg: Rgb,
    pub good: Rgb,
    pub warn: Rgb,
    pub bad: Rgb,
    pub info: Rgb,
    pub header_bg: Rgb,
    pub accent: Rgb,
}

pub open spec fn palette_of(mode: ThemeMode, accent: Accent) -> Palette {
    match mode {
        ThemeMode::Dark => Palette {
            bg: rgb(0x10, 0x10, 0x13),
            panel: rgb(0x16, 0x16, 0x1b),
            panel_alt: rgb(0x1c, 0x1c, 0x23),
            fg: rgb(0xd7, 0xd7, 0xdc),
            dim: rgb(0x8b, 0x8b, 0x95),
            faint: rgb(0x5b, 0x5b, 0x65),
            border: rgb(0x2c, 0x2c, 0x35),
            sel: rgb(0x23, 0x23, 0x2e),
            sel_fg: rgb(0xf0, 0xf0, 0xf5),
            good: rgb(0x84, 0xd4, 0x8f),
            warn: rgb(0xe3, 0xb6, 0x73),
            bad: rgb(0xef, 0x8c, 0x7d),
            info: rgb(0x7c, 0xc2, 0xe8),
            header_bg: rgb(0x0b, 0x0b, 0x0e),
            accent: accent_rgb(accent, mode),
        },
        ThemeMode::Light => Palette {
            bg: rgb(0xf4, 0xf1, 0xea),
            panel: rgb(0xfb, 0xf9, 0xf4),
            panel_alt: rgb(0xef, 0xec, 0xe4),
            fg: rgb(0x2c, 0x2a, 0x26),
            dim: rgb(0x76, 0x72, 0x6a),
            faint: rgb(0xa8, 0xa3, 0x97),
            border: rgb(0xdd, 0xd8, 0xcc),
            sel: rgb(0xe8, 0xe3, 0xd6),
            sel_fg: rgb(0x1b, 0x1a, 0x17),
            good: rgb(0x2f, 0x8a, 0x3f),
            warn: rgb(0xa9, 0x70, 0x1a),
            bad: rgb(0xcb, 0x53, 0x41),
            info: rgb(0x2f, 0x76, 0xa8),
            header_bg: rgb(0xeb, 0xe7, 0xdd),
            accent: accent_rgb(accent, mode),
        },
    }
}

/// The colors of the theme for a mode and accent.
pub fn palette(mode: ThemeMode, accent: Accent) -> (r: Palette)
    ensures
        r == palette_of(mode, accent),
{
    let a = accent.color(mode);
    match mode {
        ThemeMode::Dark => Palette {
            bg: Rgb { r: 0x10, g: 0x10, b: 0x13 },
            panel: Rgb { r: 0x16, g: 0x16, b: 0x1b },
            panel_alt: Rgb { r: 0x1c, g: 0x1c, b: 0x23 },
            fg: Rgb { r: 0xd7, g: 0xd7, b: 0xdc },
            dim: Rgb { r: 0x8b, g: 0x8b, b: 0x95 },
            faint: Rgb { r: 0x5b, g: 0x5b, b: 0x65 },
            border: Rgb { r: 0x2c, g: 0x2c, b: 0x35 },
            sel: Rgb { r: 0x23, g: 0x23, b: 0x2e },
            sel_fg: Rgb { r: 0xf0, g: 0xf0, b: 0xf5 },
            good: Rgb { r: 0x84, g: 0xd4, b: 0x8f },
            warn: Rgb { r: 0xe3, g: 0xb6, b: 0x73 },
            bad: Rgb { r: 0xef, g: 0x8c, b: 0x7d },
            info: Rgb { r: 0x7c, g: 0xc2, b: 0xe8 },
            header_bg: Rgb { r: 0x0b, g: 0x0b, b: 0x0e },
            accent: a,
        },
        ThemeMode::Light => Palette {
            bg: Rgb { r: 0xf4, g: 0xf1, b: 0xea },
            panel: Rgb { r: 0xfb, g: 0xf9, b: 0xf4 },
            panel_alt: Rgb { r: 0xef, g: 0xec, b: 0xe4 },
            fg: Rgb { r: 0x2c, g: 0x2a, b: 0x26 },
            dim: Rgb { r: 0x76, g: 0x72, b: 0x6a },
            faint: Rgb { r: 0xa8, g: 0xa3, b: 0x97 },
            border: Rgb { r: 0xdd, g: 0xd8, b: 0xcc },
            sel: Rgb { r: 0xe8, g: 0xe3, b: 0xd6 },
            sel_fg: Rgb { r: 0x1b, g: 0x1a, b: 0x17 },
            good: Rgb { r: 0x2f, g: 0x8a, b: 0x3f },
            warn: Rgb { r: 0xa9, g: 0x70, b: 0x1a },
            bad: Rgb { r: 0xcb, g: 0x53, b: 0x41 },
            info: Rgb { r: 0x2f, g: 0x76, b: 0xa8 },
            header_bg: Rgb { r: 0xeb, g: 0xe7, b: 0xdd },
            accent: a,
        },
    }
}

/// Foreground and background of the badge for a stage label; `None` for a
/// label without its own colors (drawn faint on the background).
pub open spec fn badge_rgb(label: Seq<char>, mode: ThemeMode) -> Option<(Rgb, Rgb)> {
    if label == "cons"@ {
        Some(
            if mode == ThemeMode::Dark {
                (rgb(0x7f, 0xd8, 0xc2), rgb(0x0f, 0x3a, 0x32))
            } else {
                (rgb(0x0b, 0x60, 0x52), rgb(0xcf, 0xee, 0xe6))
            },
        )
    } else if label == "spec"@ {
        Some(
            if mode == ThemeMode::Dark {
                (rgb(0xf0, 0xa4, 0x7c), rgb(0x43, 0x21, 0x0f))
            } else {
                (rgb(0xa5, 0x51, 0x2b), rgb(0xf6, 0xdd, 0xcf))
            },
        )
    } else if label == "clar"@ {
        Some(
            if mode == ThemeMode::Dark {
                (rgb(0xe8, 0xa6, 0xc5), rgb(0x3d, 0x1b, 0x2d))
            } else {
                (rgb(0x9c, 0x3a, 0x68), rgb(0xf4, 0xd9, 0xe6))
            },
        )
    } else if label == "plan"@ {
        Some(
            if mode == ThemeMode::Dark {
                (rgb(0xf0, 0xc8, 0x79), rgb(0x42, 0x33, 0x0c))
            } else {
                (rgb(0x8a, 0x63, 0x10), rgb(0xf3, 0xe7, 0xc4))
            },
        )
    } else if label == "task"@ {
        Some(
            if mode == ThemeMode::Dark {
                (rgb(0x86, 0xb8, 0xec), rgb(0x10, 0x31, 0x4f))
            } else {
                (rgb(0x2d, 0x6b, 0xa3), rgb(0xd6, 0xe7, 0xf6))
            },
        )
    } else if label == "anly"@ {
        Some(
            if mode == ThemeMode::Dark {
                (rgb(0xc4, 0xa7, 0xf0), rgb(0x2c, 0x1f, 0x47))
            } else {
                (rgb(0x5d, 0x3a, 0xa0), rgb(0xe7, 0xdd, 0xf6))
            },
        )
    } else if label == "impl"@ {
        Some(
            if mode == ThemeMode::Dark {
                (rgb(0x90, 0xd8, 0x90), rgb(0x12, 0x3a, 0x1d))
            } else {
                (rgb(0x2f, 0x8a, 0x3f), rgb(0xd4, 0xee, 0xd9))
            },
        )
    } else {
        None
    }
}

/// Badge colors for a stage label in a mode.
pub fn badge_colors(label: &str, mode: ThemeMode) -> (r: Option<(Rgb, Rgb)>)
    ensures
        r == badge_rgb(label@, mode),
{
    let dark = mode == ThemeMode::Dark;
    if crate::text::str_eq(label, "cons") {
        Some(
            if dark {
                (Rgb { r: 0x7f, g: 0xd8, b: 0xc2 }, Rgb { r: 0x0f, g: 0x3a, b: 0x32 })
            } else {
                (Rgb { r: 0x0b, g: 0x60, b: 0x52 }, Rgb { r: 0xcf, g: 0xee, b: 0xe6 })
            },
        )
    } else if crate::text::str_eq(label, "spec") {
        Some(
            if dark {
                (Rgb { r: 0xf0, g: 0xa4, b: 0x7c }, Rgb { r: 0x43, g: 0x21, b: 0x0f })
            } else {
                (Rgb { r: 0xa5, g: 0x51, b: 0x2b }, Rgb { r: 0xf6, g: 0xdd, b: 0xcf })
            },
        )
    } else if crate::text::str_eq(label, "clar") {
        Some(
            if dark {
                (Rgb { r: 0xe8, g: 0xa6, b: 0xc5 }, Rgb { r: 0x3d, g: 0x1b, b: 0x2d })
            } else {
                (Rgb { r: 0x9c, g: 0x3a, b: 0x68 }, Rgb { r: 0xf4, g: 0xd9, b: 0xe6 })
            },
        )
    } else if crate::text::str_eq(label, "plan") {
        Some(
            if dark {
                (Rgb { r: 0xf0, g: 0xc8, b: 0x79 }, Rgb { r: 0x42, g: 0x33, b: 0x0c })
            } else {
                (Rgb { r: 0x8a, g: 0x63, b: 0x10 }, Rgb { r: 0xf3, g: 0xe7, b: 0xc4 })
            },
        )
    } else if crate::text::str_eq(label, "task") {
        Some(
            if dark {
                (Rgb { r: 0x86, g: 0xb8, b: 0xec }, Rgb { r: 0x10, g: 0x31, b: 0x4f })
            } else {
                (Rgb { r: 0x2d, g: 0x6b, b: 0xa3 }, Rgb { r: 0xd6, g: 0xe7, b: 0xf6 })
            },
        )
    } else if crate::text::str_eq(label, "anly") {
        Some(
            if dark {
                (Rgb { r: 0xc4, g: 0xa7, b: 0xf0 }, Rgb { r: 0x2c, g: 0x1f, b: 0x47 })
            } else {
                (Rgb { r: 0x5d, g: 0x3a, b: 0xa0 }, Rgb { r: 0xe7, g: 0xdd, b: 0xf6 })
            },
        )
    } else if crate::text::str_eq(label, "impl") {
        Some(
            if dark {
                (Rgb { r: 0x90, g: 0xd8, b: 0x90 }, Rgb { r: 0x12, g: 0x3a, b: 0x1d })
            } else {
                (Rgb { r: 0x2f, g: 0x8a, b: 0x3f }, Rgb { r: 0xd4, g: 0xee, b: 0xd9 })
            },
        )
    } else {
        None
    }
}

/// Background of a completed step in the workflow stepper.
pub fn stepper_done_bg(mode: ThemeMode) -> (r: Rgb)
    ensures
        r == (if mode == ThemeMode::Dark { rgb(0x16, 0x27, 0x1b) } else { rgb(0xdc, 0xef, 0xdf) }),
{
    match mode {
        ThemeMode::Dark => Rgb { r: 0x16, g: 0x27, b: 0x1b },
        ThemeMode::Light => Rgb { r: 0xdc, g: 0xef, b: 0xdf },
    }
}

} // verus!
