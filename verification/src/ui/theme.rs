//! Colour themes of the terminal interface: a dark and a light one, and
//! the styles that the interface draws with.
use vstd::prelude::*;

verus! {

/// Which theme.
#[derive(Debug, Clone, Copy, PartialEq, Eq, Structural)]
pub enum ThemeType {
    Dark,
    Light,
}

impl Default for ThemeType {
    fn default() -> (t: ThemeType)
        ensures
            t == ThemeType::Dark,
    {
        ThemeType::Dark
    }
}

/// The other theme.
pub open spec fn other(t: ThemeType) -> ThemeType {
    match t {
        ThemeType::Dark => ThemeType::Light,
        ThemeType::Light => ThemeType::Dark,
    }
}

impl ThemeType {
    /// The other theme.
    pub fn toggle(self) -> (t: ThemeType)
        ensures
            t == other(self),
    {
        match self {
            ThemeType::Dark => ThemeType::Light,
            ThemeType::Light => ThemeType::Dark,
        }
    }
}

/// Toggling twice gives the theme back.
pub proof fn lemma_toggle_twice(t: ThemeType)
    ensures
        other(other(t)) == t,
        other(t) != t,
{
}

/// A colour by its red, green and blue parts.
#[derive(Debug, Clone, Copy, PartialEq, Eq, Structural)]
pub struct Rgb {
    pub r: u8,
    pub g: u8,
    pub b: u8,
}

/// The colours of a theme.
#[derive(Debug, Clone, Copy, PartialEq, Eq, Structural)]
pub struct ThemeColors {
    // Base colors.
    pub background: Rgb,
    pub foreground: Rgb,
    // Accents.
    pub primary: Rgb,
    pub secondary: Rgb,
    pub accent: Rgb,
    // Statuses.
    pub success: Rgb,
    pub warning: Rgb,
    pub error: Rgb,
    pub info: Rgb,
    // Components.
    pub border: Rgb,
    pub selected: Rgb,
    pub disabled: Rgb,
    // Graphs.
    pub graph_cpu: Rgb,
    pub graph_ram: Rgb,
    pub graph_network: Rgb,
    // Tabs.
    pub tab_active: Rgb,
    pub tab_inactive: Rgb,
}

/// A theme.
#[derive(Debug, Clone, Copy, PartialEq, Eq, Structural)]
pub struct Theme {
    pub theme_type: ThemeType,
    pub colors: ThemeColors,
}

/// The dark theme.
pub open spec fn dark_theme() -> Theme {
    Theme {
        theme_type: ThemeType::Dark,
        colors: ThemeColors {
            background: Rgb { r: 30, g: 30, b: 30 },
            foreground: Rgb { r: 220, g: 220, b: 220 },
            primary: Rgb { r: 0, g: 150, b: 255 },
            secondary: Rgb { r: 100, g: 100, b: 255 },
            accent: Rgb { r: 255, g: 100, b: 100 },
            success: Rgb { r: 0, g: 255, b: 100 },
            warning: Rgb { r: 255, g: 200, b: 0 },
            error: Rgb { r: 255, g: 50, b: 50 },
            info: Rgb { r: 0, g: 200, b: 255 },
            border: Rgb { r: 80, g: 80, b: 80 },
            selected: Rgb { r: 60, g: 60, b: 100 },
            disabled: Rgb { r: 100, g: 100, b: 100 },
            graph_cpu: Rgb { r: 0, g: 255, b: 100 },
            graph_ram: Rgb { r: 0, g: 150, b: 255 },
            graph_network: Rgb { r: 255, g: 150, b: 0 },
            tab_active: Rgb { r: 0, g: 150, b: 255 },
            tab_inactive: Rgb { r: 150, g: 150, b: 150 },
        },
    }
}

/// The light theme.
pub open spec fn light_theme() -> Theme {
    Theme {
        theme_type: ThemeType::Light,
        colors: ThemeColors {
            background: Rgb { r: 250, g: 250, b: 250 },
            foreground: Rgb { r: 30, g: 30, b: 30 },
            primary: Rgb { r: 0, g: 100, b: 200 },
            secondary: Rgb { r: 80, g: 80, b: 200 },
            accent: Rgb { r: 200, g: 50, b: 50 },
            success: Rgb { r: 0, g: 180, b: 50 },
            warning: Rgb { r: 200, g: 150, b: 0 },
            error: Rgb { r: 200, g: 0, b: 0 },
            info: Rgb { r: 0, g: 150, b: 200 },
            border: Rgb { r: 180, g: 180, b: 180 },
            selected: Rgb { r: 200, g: 200, b: 230 },
            disabled: Rgb { r: 150, g: 150, b: 150 },
            graph_cpu: Rgb { r: 0, g: 180, b: 50 },
            graph_ram: Rgb { r: 0, g: 100, b: 200 },
            graph_network: Rgb { r: 200, g: 120, b: 0 },
            tab_active: Rgb { r: 0, g: 100, b: 200 },
            tab_inactive: Rgb { r: 100, g: 100, b: 100 },
        },
    }
}

/// The theme of a kind.
pub open spec fn theme_of(t: ThemeType) -> Theme {
    match t {
        ThemeType::Dark => dark_theme(),
        ThemeType::Light => light_theme(),
    }
}

/// How a piece of the interface is drawn: foreground, background, bold.
#[derive(Debug, Clone, Copy, PartialEq, Eq, Structural)]
pub struct StyleSpec {
    pub fg: Option<Rgb>,
    pub bg: Option<Rgb>,
    pub bold: bool,
}

impl Theme {
    /// The dark theme.
    pub fn dark() -> (t: Theme)
        ensures
            t == dark_theme(),
    {
        Theme {
            theme_type: ThemeType::Dark,
            colors: ThemeColors {
                background: Rgb { r: 30, g: 30, b: 30 },
                foreground: Rgb { r: 220, g: 220, b: 220 },
                primary: Rgb { r: 0, g: 150, b: 255 },
                secondary: Rgb { r: 100, g: 100, b: 255 },
                accent: Rgb { r: 255, g: 100, b: 100 },
                success: Rgb { r: 0, g: 255, b: 100 },
                warning: Rgb { r: 255, g: 200, b: 0 },
                error: Rgb { r: 255, g: 50, b: 50 },
                info: Rgb { r: 0, g: 200, b: 255 },
                border: Rgb { r: 80, g: 80, b: 80 },
                selected: Rgb { r: 60, g: 60, b: 100 },
                disabled: Rgb { r: 100, g: 100, b: 100 },
                graph_cpu: Rgb { r: 0, g: 255, b: 100 },
                graph_ram: Rgb { r: 0, g: 150, b: 255 },
                graph_network: Rgb { r: 255, g: 150, b: 0 },
                tab_active: Rgb { r: 0, g: 150, b: 255 },
                tab_inactive: Rgb { r: 150, g: 150, b: 150 },
            },
        }
    }

    /// The light theme.
    pub fn light() -> (t: Theme)
        ensures
            t == light_theme(),
    {
        Theme {
            theme_type: ThemeType::Light,
            colors: ThemeColors {
                background: Rgb { r: 250, g: 250, b: 250 },
                foreground: Rgb { r: 30, g: 30, b: 30 },
                primary: Rgb { r: 0, g: 100, b: 200 },
                secondary: Rgb { r: 80, g: 80, b: 200 },
                accent: Rgb { r: 200, g: 50, b: 50 },
                success: Rgb { r: 0, g: 180, b: 50 },
                warning: Rgb { r: 200, g: 150, b: 0 },
                error: Rgb { r: 200, g: 0, b: 0 },
                info: Rgb { r: 0, g: 150, b: 200 },
                border: Rgb { r: 180, g: 180, b: 180 },
                selected: Rgb { r: 200, g: 200, b: 230 },
                disabled: Rgb { r: 150, g: 150, b: 150 },
                graph_cpu: Rgb { r: 0, g: 180, b: 50 },
                graph_ram: Rgb { r: 0, g: 100, b: 200 },
                graph_network: Rgb { r: 200, g: 120, b: 0 },
                tab_active: Rgb { r: 0, g: 100, b: 200 },
                tab_inactive: Rgb { r: 100, g: 100, b: 100 },
            },
        }
    }

    /// The theme of a kind.
    pub fn of(t: ThemeType) -> (r: Theme)
        ensures
            r == theme_of(t),
    {
        match t {
            ThemeType::Dark => Theme::dark(),
            ThemeType::Light => Theme::light(),
        }
    }

    /// Switches to the other theme.
    pub fn toggle(&mut self)
        ensures
            *final(self) == theme_of(other(old(self).theme_type)),
    {
        *self = Theme::of(self.theme_type.toggle());
    }

    /// Plain text: the foreground colour.
    pub fn text_style(&self) -> (s: StyleSpec)
        ensures
            s == (StyleSpec { fg: Some(self.colors.foreground), bg: None, bold: false }),
    {
        StyleSpec { fg: Some(self.colors.foreground), bg: None, bold: false }
    }

    /// Titles: the primary colour, bold.
    pub fn title_style(&self) -> (s: StyleSpec)
        ensures
            s == (StyleSpec { fg: Some(self.colors.primary), bg: None, bold: true }),
    {
        StyleSpec { fg: Some(self.colors.primary), bg: None, bold: true }
    }

    /// The selection: the selection background, bold.
    pub fn selected_style(&self) -> (s: StyleSpec)
        ensures
            s == (StyleSpec { fg: None, bg: Some(self.colors.selected), bold: true }),
    {
        StyleSpec { fg: None, bg: Some(self.colors.selected), bold: true }
    }

    /// Success: the success colour.
    pub fn success_style(&self) -> (s: StyleSpec)
        ensures
            s == (StyleSpec { fg: Some(self.colors.success), bg: None, bold: false }),
    {
        StyleSpec { fg: Some(self.colors.success), bg: None, bold: false }
    }

    /// Warnings: the warning colour.
    pub fn warning_style(&self) -> (s: StyleSpec)
        ensures
            s == (StyleSpec { fg: Some(self.colors.warning), bg: None, bold: false }),
    {
        StyleSpec { fg: Some(self.colors.warning), bg: None, bold: false }
    }

    /// Errors: the error colour.
    pub fn error_style(&self) -> (s: StyleSpec)
        ensures
            s == (StyleSpec { fg: Some(self.colors.error), bg: None, bold: false }),
    {
        StyleSpec { fg: Some(self.colors.error), bg: None, bold: false }
    }

    /// Borders: the border colour.
    pub fn border_style(&self) -> (s: StyleSpec)
        ensures
            s == (StyleSpec { fg: Some(self.colors.border), bg: None, bold: false }),
    {
        StyleSpec { fg: Some(self.colors.border), bg: None, bold: false }
    }
}

impl Default for Theme {
    fn default() -> (t: Theme)
        ensures
            t == dark_theme(),
    {
        Theme::dark()
    }
}

/// Toggling a theme twice gives back the theme of its kind; for the dark or
/// light theme itself, the theme unchanged.
pub proof fn lemma_theme_toggle_twice(t: Theme)
    ensures
        theme_of(other(theme_of(other(t.theme_type)).theme_type)) == theme_of(t.theme_type),
        t == theme_of(t.theme_type) ==> theme_of(other(theme_of(other(t.theme_type)).theme_type)) == t,
{
}

/// The current theme and the themes one can pick.
pub struct ThemeManager {
    current_theme: Theme,
    available_themes: Vec<ThemeType>,
}

impl ThemeManager {
    /// The current theme.
    pub closed spec fn theme(&self) -> Theme {
        self.current_theme
    }

    /// The themes one can pick.
    pub closed spec fn available(&self) -> Seq<ThemeType> {
        self.available_themes@
    }

    /// A manager with the dark theme, offering the dark and the light one.
    pub fn new() -> (m: ThemeManager)
        ensures
            m.theme() == dark_theme(),
            m.available() == seq![ThemeType::Dark, ThemeType::Light],
    {
        let v = vec![ThemeType::Dark, ThemeType::Light];
        assert(v@ =~= seq![ThemeType::Dark, ThemeType::Light]);
        ThemeManager { current_theme: Theme::dark(), available_themes: v }
    }

    /// The current theme.
    pub fn get_theme(&self) -> (t: &Theme)
        ensures
            *t == self.theme(),
    {
        &self.current_theme
    }

    /// Switches to the other theme.
    pub fn toggle(&mut self)
        ensures
            final(self).theme() == theme_of(other(old(self).theme().theme_type)),
            final(self).available() == old(self).available(),
    {
        self.current_theme.toggle();
    }

    /// Picks a theme.
    pub fn set_theme(&mut self, theme_type: ThemeType)
        ensures
            final(self).theme() == theme_of(theme_type),
            final(self).available() == old(self).available(),
    {
        self.current_theme = Theme::of(theme_type);
    }

    /// The current theme, to change in place.
    pub fn get_theme_mut(&mut self) -> (t: &mut Theme)
        ensures
            *t == old(self).theme(),
            final(self).theme() == *final(t),
            final(self).available() == old(self).available(),
    {
        &mut self.current_theme
    }

    /// The themes one can pick.
    pub fn get_available_themes(&self) -> (r: &[ThemeType])
        ensures
            r@ == self.available(),
    {
        self.available_themes.as_slice()
    }
}

impl Default for ThemeManager {
    fn default() -> (m: ThemeManager)
        ensures
            m.theme() == dark_theme(),
            m.available() == seq![ThemeType::Dark, ThemeType::Light],
    {
        ThemeManager::new()
    }
}

} // verus!
