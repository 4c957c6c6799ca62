//! The reader's data: stories and the colour theme.
use vstd::prelude::*;
use crate::text::same_text;

verus! {

/// A story to be read.
#[derive(Debug, Clone)]
pub struct Story {
    pub author: Option<String>,
    pub title: Option<String>,
    pub url: String,
    pub html: String,
    pub contact: Option<String>,
}

/// The colour theme of the reader.
#[derive(Debug, Clone, Copy, PartialEq, Eq, Structural)]
pub enum Theme {
    System,
    Light,
    Sepia,
    Dark,
}

/// The name under which a theme is saved.
pub open spec fn theme_name(t: Theme) -> Seq<char> {
    match t {
        Theme::System => "system"@,
        Theme::Light => "light"@,
        Theme::Sepia => "sepia"@,
        Theme::Dark => "dark"@,
    }
}

/// The theme that a saved name stands for; any unknown name stands for `System`.
pub open spec fn theme_named(s: Seq<char>) -> Theme {
    if s == "light"@ {
        Theme::Light
    } else if s == "sepia"@ {
        Theme::Sepia
    } else if s == "dark"@ {
        Theme::Dark
    } else {
        Theme::System
    }
}

impl Theme {
    /// The name under which the theme is saved.
    pub fn to_str(self) -> (s: &'static str)
        ensures
            s@ == theme_name(self),
    {
        match self {
            Theme::System => "system",
            Theme::Light => "light",
            Theme::Sepia => "sepia",
            Theme::Dark => "dark",
        }
    }

    /// The theme that a saved name stands for: `light`, `sepia` and `dark` name
    /// their themes, anything else gives `System`.
    pub fn from_str(s: &str) -> (t: Theme)
        ensures
            t == theme_named(s@),
    {
        if same_text(s, "light") {
            Theme::Light
        } else if same_text(s, "sepia") {
            Theme::Sepia
        } else if same_text(s, "dark") {
            Theme::Dark
        } else {
            Theme::System
        }
    }
}

/// The colour scheme that the window asks the style manager for.
#[derive(Debug, Clone, Copy, PartialEq, Eq, Structural)]
pub enum ColorScheme {
    /// Follow the system.
    Default,
    ForceLight,
    ForceDark,
}

/// How a theme is applied: the colour scheme, and whether the window carries the
/// `sepia` style class.
pub open spec fn theme_style(t: Theme) -> (ColorScheme, bool) {
    match t {
        Theme::System => (ColorScheme::Default, false),
        Theme::Light => (ColorScheme::ForceLight, false),
        Theme::Dark => (ColorScheme::ForceDark, false),
        Theme::Sepia => (ColorScheme::ForceLight, true),
    }
}

impl Theme {
    /// How the theme is applied to the window: sepia is a light scheme with the
    /// `sepia` class; the other themes drop that class.
    pub fn style(self) -> (r: (ColorScheme, bool))
        ensures
            r == theme_style(self),
            (r.0 == ColorScheme::ForceDark) <==> (self == Theme::Dark),
            (r.0 == ColorScheme::ForceLight) <==> (self == Theme::Light || self == Theme::Sepia),
            (r.0 == ColorScheme::Default) <==> (self == Theme::System),
            r.1 <==> (self == Theme::Sepia),
    {
        match self {
            Theme::System => (ColorScheme::Default, false),
            Theme::Light => (ColorScheme::ForceLight, false),
            Theme::Dark => (ColorScheme::ForceDark, false),
            Theme::Sepia => (ColorScheme::ForceLight, true),
        }
    }
}

/// How each theme looks: only the dark theme forces a dark scheme, the light and
/// sepia themes force a light one, the system theme follows the system, and only
/// sepia carries the sepia class.
pub proof fn theme_style_law(t: Theme)
    ensures
        (theme_style(t).0 == ColorScheme::ForceDark) <==> (t == Theme::Dark),
        (theme_style(t).0 == ColorScheme::ForceLight) <==> (t == Theme::Light || t == Theme::Sepia),
        (theme_style(t).0 == ColorScheme::Default) <==> (t == Theme::System),
        theme_style(t).1 <==> (t == Theme::Sepia),
{
}

/// Reading a theme's saved name gives the theme back.
pub proof fn theme_name_round_trip(t: Theme)
    ensures
        theme_named(theme_name(t)) == t,
{
    reveal_strlit("system");
    reveal_strlit("light");
    reveal_strlit("sepia");
    reveal_strlit("dark");
    assert("system"@.len() == 6 && "light"@.len() == 5 && "sepia"@.len() == 5 && "dark"@.len() == 4);
    assert("system"@[1] != "sepia"@[1]);
    assert("light"@[0] != "sepia"@[0]);
}

} // verus!
