//! The application shell: the browser and slideshow modes and their keyboard shortcuts, the
//! tutorial's steps, the color themes, and the selection of a work by offset.
use crate::text::str_eq;
use vstd::prelude::*;

verus! {

// ---------------------------------------------------------------------------------------------
// Work selection
// ---------------------------------------------------------------------------------------------
/// A selected work, by its offset in the gallery, or no selection.
#[derive(Clone, Copy, Debug, PartialEq, Eq, Structural)]
pub enum WorkSelection {
    NoSelection,
    Work { offset: usize },
}

impl Default for WorkSelection {
    /// No work selected.
    fn default() -> (r: WorkSelection)
        ensures
            r == WorkSelection::NoSelection,
    {
        WorkSelection::NoSelection
    }
}

impl WorkSelection {
    /// The work at `offset` selected.
    pub fn new(offset: usize) -> (r: Self)
        ensures
            r == (WorkSelection::Work { offset: offset }),
    {
        WorkSelection::Work { offset }
    }

    /// Whether the work at `offset` is the selected one.
    pub fn is_selected(&self, offset: usize) -> (r: bool)
        ensures
            r == (*self == WorkSelection::Work { offset: offset }),
    {
        match self {
            WorkSelection::NoSelection => false,
            WorkSelection::Work { offset: idx } => *idx == offset,
        }
    }

    /// The offset of the selected work, if any.
    pub fn get_selected_offset(&self) -> (r: Option<usize>)
        ensures
            r == match *self {
                WorkSelection::NoSelection => None,
                WorkSelection::Work { offset } => Some(offset),
            },
    {
        match self {
            WorkSelection::NoSelection => None,
            WorkSelection::Work { offset } => Some(*offset),
        }
    }

    /// Selects the next work, wrapping past the largest offset.
    pub fn move_to_next(&mut self)
        ensures
            *final(self) == match *old(self) {
                WorkSelection::NoSelection => WorkSelection::NoSelection,
                WorkSelection::Work { offset } => WorkSelection::Work {
                    offset: if offset == usize::MAX {
                        0
                    } else {
                        (offset + 1) as usize
                    },
                },
            },
    {
        match self {
            WorkSelection::NoSelection => {},
            WorkSelection::Work { offset } => {
                *offset = offset.wrapping_add(1);
            },
        }
    }

    /// Selects the previous work, stopping at the first.
    pub fn move_to_prev(&mut self)
        ensures
            *final(self) == match *old(self) {
                WorkSelection::NoSelection => WorkSelection::NoSelection,
                WorkSelection::Work { offset } => WorkSelection::Work {
                    offset: if offset == 0 {
                        0
                    } else {
                        (offset - 1) as usize
                    },
                },
            },
    {
        match self {
            WorkSelection::NoSelection => {},
            WorkSelection::Work { offset } => {
                *offset = offset.saturating_sub(1);
            },
        }
    }

    /// Whether a work is selected.
    pub fn has_selection(&self) -> (r: bool)
        ensures
            r == (*self != WorkSelection::NoSelection),
    {
        match self {
            WorkSelection::NoSelection => false,
            WorkSelection::Work { .. } => true,
        }
    }
}

/// Moving to the previous work undoes moving to the next one, short of the largest offset.
pub proof fn lemma_next_then_prev(offset: usize)
    requires
        offset < usize::MAX,
    ensures
        ({
            let next = (offset + 1) as usize;
            (if next == 0 {
                0
            } else {
                (next - 1) as usize
            }) == offset
        }),
{
}

// ---------------------------------------------------------------------------------------------
// Modes and shortcuts
// ---------------------------------------------------------------------------------------------
/// The application's two modes.
#[derive(Clone, Copy, Debug, PartialEq, Eq, Structural)]
pub enum UxMode {
    /// The docked panels: plugins, tags, works.
    Browser,
    /// One work at a time, full screen.
    Slideshow,
}

/// The shell's state: the mode and which windows are open.
#[derive(Clone, Copy, Debug, PartialEq, Eq, Structural)]
pub struct ShellState {
    pub mode: UxMode,
    pub show_preferences: bool,
    pub show_performance: bool,
    pub show_about: bool,
}

/// The shortcut keys pressed this frame.
#[derive(Clone, Copy, Debug, PartialEq, Eq, Structural)]
pub struct ShortcutKeys {
    pub escape: bool,
    pub f3: bool,
    pub f11: bool,
    pub space: bool,
}

/// What the shell must do for the shortcuts, beyond changing its state.
#[derive(Clone, Copy, Debug, PartialEq, Eq, Structural)]
pub enum ShellAction {
    /// Nothing.
    Nothing,
    /// Take the keyboard focus from the focused widget.
    SurrenderFocus,
    /// Go full screen, for the slideshow.
    EnterFullscreen,
    /// Leave full screen, back from the slideshow; the gallery centers the selection.
    LeaveFullscreen,
    /// Close the application.
    Close,
}

/// The state and action for the shortcuts pressed in state `s`: with a widget focused only
/// escape acts, taking the focus away. In the browser, F11 or space enters the slideshow
/// when a work is selected; escape closes the topmost open window (about, then performance,
/// then preferences) or, with none open, the application; F3 opens the performance window.
/// In the slideshow, escape or space goes back to the browser.
pub open spec fn spec_shortcuts(
    s: ShellState,
    k: ShortcutKeys,
    focused: bool,
    has_selection: bool,
) -> (ShellState, ShellAction) {
    if focused && k.escape {
        (s, ShellAction::SurrenderFocus)
    } else {
        match s.mode {
            UxMode::Browser => if k.f11 || k.space {
                if has_selection {
                    (ShellState { mode: UxMode::Slideshow, ..s }, ShellAction::EnterFullscreen)
                } else {
                    (s, ShellAction::Nothing)
                }
            } else if k.escape {
                if s.show_about {
                    (ShellState { show_about: false, ..s }, ShellAction::Nothing)
                } else if s.show_performance {
                    (ShellState { show_performance: false, ..s }, ShellAction::Nothing)
                } else if s.show_preferences {
                    (ShellState { show_preferences: false, ..s }, ShellAction::Nothing)
                } else {
                    (s, ShellAction::Close)
                }
            } else if k.f3 {
                (ShellState { show_performance: true, ..s }, ShellAction::Nothing)
            } else {
                (s, ShellAction::Nothing)
            },
            UxMode::Slideshow => if k.escape || k.space {
                (ShellState { mode: UxMode::Browser, ..s }, ShellAction::LeaveFullscreen)
            } else {
                (s, ShellAction::Nothing)
            },
        }
    }
}

impl ShellState {
    /// The browser with no window open.
    pub fn new() -> (r: Self)
        ensures
            r == (ShellState {
                mode: UxMode::Browser,
                show_preferences: false,
                show_performance: false,
                show_about: false,
            }),
    {
        ShellState {
            mode: UxMode::Browser,
            show_preferences: false,
            show_performance: false,
            show_about: false,
        }
    }

    /// Applies the shortcuts pressed this frame.
    pub fn handle_shortcuts(&mut self, keys: ShortcutKeys, focused: bool, has_selection: bool) -> (r:
        ShellAction)
        ensures
            (*final(self), r) == spec_shortcuts(*old(self), keys, focused, has_selection),
    {
        if focused && keys.escape {
            return ShellAction::SurrenderFocus;
        }
        match self.mode {
            UxMode::Browser => {
                if keys.f11 || keys.space {
                    if has_selection {
                        self.mode = UxMode::Slideshow;
                        ShellAction::EnterFullscreen
                    } else {
                        ShellAction::Nothing
                    }
                } else if keys.escape {
                    if self.show_about {
                        self.show_about = false;
                        ShellAction::Nothing
                    } else if self.show_performance {
                        self.show_performance = false;
                        ShellAction::Nothing
                    } else if self.show_preferences {
                        self.show_preferences = false;
                        ShellAction::Nothing
                    } else {
                        ShellAction::Close
                    }
                } else if keys.f3 {
                    self.show_performance = true;
                    ShellAction::Nothing
                } else {
                    ShellAction::Nothing
                }
            },
            UxMode::Slideshow => {
                if keys.escape || keys.space {
                    self.mode = UxMode::Browser;
                    ShellAction::LeaveFullscreen
                } else {
                    ShellAction::Nothing
                }
            },
        }
    }

    /// The slideshow needs a selection: back to the browser when there is none.
    pub fn require_selection(&mut self, has_selection: bool)
        ensures
            *final(self) == if old(self).mode == UxMode::Slideshow && !has_selection {
                ShellState { mode: UxMode::Browser, ..*old(self) }
            } else {
                *old(self)
            },
    {
        if self.mode == UxMode::Slideshow && !has_selection {
            self.mode = UxMode::Browser;
        }
    }
}

/// Space enters the slideshow from the browser when a work is selected, and space leaves it
/// again: the two presses come back to the same state.
pub proof fn lemma_space_round_trip(s: ShellState)
    requires
        s.mode == UxMode::Browser,
    ensures
        ({
            let k = ShortcutKeys { escape: false, f3: false, f11: false, space: true };
            let (s1, a1) = spec_shortcuts(s, k, false, true);
            let (s2, a2) = spec_shortcuts(s1, k, false, true);
            a1 == ShellAction::EnterFullscreen && a2 == ShellAction::LeaveFullscreen && s2 == s
        }),
{
}

// ---------------------------------------------------------------------------------------------
// Tutorial
// ---------------------------------------------------------------------------------------------
/// The steps of the tutorial, in order.
#[derive(Clone, Copy, Debug, PartialEq, Eq, Structural)]
pub enum TutorialStep {
    Beginning,
    PluginsIntro,
    PluginsRefresh,
    TagsIntro,
    TagsRefresh,
    TagsViewGeneral,
    TagsViewAdd,
    TagsViewSubtract,
    WorksIntro,
    WorksSlideshow,
    Finished,
}

/// The position of a step in the tutorial.
pub open spec fn step_index(s: TutorialStep) -> nat {
    match s {
        TutorialStep::Beginning => 0,
        TutorialStep::PluginsIntro => 1,
        TutorialStep::PluginsRefresh => 2,
        TutorialStep::TagsIntro => 3,
        TutorialStep::TagsRefresh => 4,
        TutorialStep::TagsViewGeneral => 5,
        TutorialStep::TagsViewAdd => 6,
        TutorialStep::TagsViewSubtract => 7,
        TutorialStep::WorksIntro => 8,
        TutorialStep::WorksSlideshow => 9,
        TutorialStep::Finished => 10,
    }
}

/// The step after `s`.
pub open spec fn spec_next_step(s: TutorialStep) -> TutorialStep {
    match s {
        TutorialStep::Beginning => TutorialStep::PluginsIntro,
        TutorialStep::PluginsIntro => TutorialStep::PluginsRefresh,
        TutorialStep::PluginsRefresh => TutorialStep::TagsIntro,
        TutorialStep::TagsIntro => TutorialStep::TagsRefresh,
        TutorialStep::TagsRefresh => TutorialStep::TagsViewGeneral,
        TutorialStep::TagsViewGeneral => TutorialStep::TagsViewAdd,
        TutorialStep::TagsViewAdd => TutorialStep::TagsViewSubtract,
        TutorialStep::TagsViewSubtract => TutorialStep::WorksIntro,
        TutorialStep::WorksIntro => TutorialStep::WorksSlideshow,
        TutorialStep::WorksSlideshow => TutorialStep::Finished,
        TutorialStep::Finished => TutorialStep::Finished,
    }
}

/// The step `n` steps after `s`.
pub open spec fn steps_after(s: TutorialStep, n: nat) -> TutorialStep
    decreases n,
{
    if n == 0 {
        s
    } else {
        spec_next_step(steps_after(s, (n - 1) as nat))
    }
}

impl TutorialStep {
    /// The step after this one; there is none after the last.
    pub fn next(&self) -> (r: TutorialStep)
        requires
            *self != TutorialStep::Finished,
        ensures
            r == spec_next_step(*self),
    {
        match self {
            TutorialStep::Beginning => TutorialStep::PluginsIntro,
            TutorialStep::PluginsIntro => TutorialStep::PluginsRefresh,
            TutorialStep::PluginsRefresh => TutorialStep::TagsIntro,
            TutorialStep::TagsIntro => TutorialStep::TagsRefresh,
            TutorialStep::TagsRefresh => TutorialStep::TagsViewGeneral,
            TutorialStep::TagsViewGeneral => TutorialStep::TagsViewAdd,
            TutorialStep::TagsViewAdd => TutorialStep::TagsViewSubtract,
            TutorialStep::TagsViewSubtract => TutorialStep::WorksIntro,
            TutorialStep::WorksIntro => TutorialStep::WorksSlideshow,
            TutorialStep::WorksSlideshow => TutorialStep::Finished,
            TutorialStep::Finished => TutorialStep::Finished,
        }
    }

    /// Whether this is the step that asks to refresh the named plugin's tags.
    pub fn is_plugin_refresh_step(&self, name: &str) -> (r: bool)
        ensures
            r == (*self == TutorialStep::PluginsRefresh && name@
                == "The National Gallery of Art"@),
    {
        *self == TutorialStep::PluginsRefresh && str_eq(name, "The National Gallery of Art")
    }

    /// Whether this is the step that asks to fetch the named tag's works.
    pub fn is_tag_refresh_step(&self, name: &str) -> (r: bool)
        ensures
            r == (*self == TutorialStep::TagsRefresh && name@ == "Cat"@),
    {
        *self == TutorialStep::TagsRefresh && str_eq(name, "Cat")
    }

    /// Whether the step's highlighted control sits in a row of tag buttons, which are drawn
    /// without spacing.
    pub fn fixes_spacing(&self) -> (r: bool)
        ensures
            r == (*self == TutorialStep::TagsRefresh || *self == TutorialStep::TagsViewGeneral
                || *self == TutorialStep::TagsViewAdd || *self == TutorialStep::TagsViewSubtract),
    {
        match self {
            TutorialStep::TagsRefresh | TutorialStep::TagsViewGeneral | TutorialStep::TagsViewAdd
            | TutorialStep::TagsViewSubtract => true,
            _ => false,
        }
    }
}

/// Each step moves one position forward, so following `next` from the beginning reaches the
/// end after ten steps and passes every step once.
pub proof fn lemma_tutorial_progresses(s: TutorialStep)
    requires
        s != TutorialStep::Finished,
    ensures
        step_index(spec_next_step(s)) == step_index(s) + 1,
        steps_after(TutorialStep::Beginning, 10) == TutorialStep::Finished,
{
    reveal_with_fuel(steps_after, 11);
}

/// The button at the bottom of a tutorial panel.
#[derive(Clone, Copy, Debug, PartialEq, Eq, Structural)]
pub enum NextButton {
    Next,
    Skip,
    NoButton,
}

impl NextButton {
    /// The button's label.
    pub fn label(&self) -> (r: &'static str)
        ensures
            r@ == match *self {
                NextButton::Next => "Next"@,
                NextButton::Skip => "Skip"@,
                NextButton::NoButton => ""@,
            },
    {
        match self {
            NextButton::Next => "Next",
            NextButton::Skip => "Skip",
            NextButton::NoButton => "",
        }
    }
}

// ---------------------------------------------------------------------------------------------
// Themes
// ---------------------------------------------------------------------------------------------
/// The color themes; the two tutorial themes highlight the tutorial and cannot be chosen.
#[derive(Clone, Copy, Debug, PartialEq, Eq, Structural)]
pub enum ColorTheme {
    Light,
    Dark,
    NordicLight,
    NordicDark,
    TokioNight,
    TokioNightStorm,
    CatppuccinLatte,
    CatppuccinFrappe,
    CatppuccinMacchiato,
    CatppuccinMocha,
    SolarizedLight,
    SolarizedDark,
    TutorialLight,
    TutorialDark,
}

/// The theme's entry in the theme chooser.
pub open spec fn theme_index(t: ColorTheme) -> int {
    match t {
        ColorTheme::Light => 0,
        ColorTheme::Dark => 1,
        ColorTheme::NordicLight => 2,
        ColorTheme::NordicDark => 3,
        ColorTheme::TokioNight => 4,
        ColorTheme::TokioNightStorm => 5,
        ColorTheme::CatppuccinLatte => 6,
        ColorTheme::CatppuccinFrappe => 7,
        ColorTheme::CatppuccinMacchiato => 8,
        ColorTheme::CatppuccinMocha => 9,
        ColorTheme::SolarizedLight => 10,
        ColorTheme::SolarizedDark => 11,
        ColorTheme::TutorialLight => 12,
        ColorTheme::TutorialDark => 13,
    }
}

/// The number of entries in the theme chooser.
pub const THEME_CHOICES: usize = 12;

impl ColorTheme {
    /// The default theme.
    pub fn default_theme() -> (r: ColorTheme)
        ensures
            r == ColorTheme::CatppuccinFrappe,
    {
        ColorTheme::CatppuccinFrappe
    }

    /// Whether the theme is one of the tutorial's.
    pub fn is_tutorial(&self) -> (r: bool)
        ensures
            r == (*self == ColorTheme::TutorialLight || *self == ColorTheme::TutorialDark),
    {
        match self {
            ColorTheme::TutorialLight | ColorTheme::TutorialDark => true,
            _ => false,
        }
    }

    /// The theme's entry in the chooser.
    pub fn index(&self) -> (r: usize)
        requires
            !(*self == ColorTheme::TutorialLight || *self == ColorTheme::TutorialDark),
        ensures
            r == theme_index(*self),
            r < THEME_CHOICES,
    {
        match self {
            ColorTheme::Light => 0,
            ColorTheme::Dark => 1,
            ColorTheme::NordicLight => 2,
            ColorTheme::NordicDark => 3,
            ColorTheme::TokioNight => 4,
            ColorTheme::TokioNightStorm => 5,
            ColorTheme::CatppuccinLatte => 6,
            ColorTheme::CatppuccinFrappe => 7,
            ColorTheme::CatppuccinMacchiato => 8,
            ColorTheme::CatppuccinMocha => 9,
            ColorTheme::SolarizedLight => 10,
            ColorTheme::SolarizedDark => 11,
            ColorTheme::TutorialLight => 12,
            ColorTheme::TutorialDark => 13,
        }
    }

    /// The theme at entry `i` of the chooser.
    pub fn from_index(i: usize) -> (r: ColorTheme)
        requires
            i < THEME_CHOICES,
        ensures
            theme_index(r) == i,
    {
        if i == 0 {
            ColorTheme::Light
        } else if i == 1 {
            ColorTheme::Dark
        } else if i == 2 {
            ColorTheme::NordicLight
        } else if i == 3 {
            ColorTheme::NordicDark
        } else if i == 4 {
            ColorTheme::TokioNight
        } else if i == 5 {
            ColorTheme::TokioNightStorm
        } else if i == 6 {
            ColorTheme::CatppuccinLatte
        } else if i == 7 {
            ColorTheme::CatppuccinFrappe
        } else if i == 8 {
            ColorTheme::CatppuccinMacchiato
        } else if i == 9 {
            ColorTheme::CatppuccinMocha
        } else if i == 10 {
            ColorTheme::SolarizedLight
        } else {
            ColorTheme::SolarizedDark
        }
    }

    /// The tutorial theme that stands out against a light or a dark theme.
    pub fn tutorial_theme(dark_mode: bool) -> (r: ColorTheme)
        ensures
            r == if dark_mode {
                ColorTheme::TutorialDark
            } else {
                ColorTheme::TutorialLight
            },
    {
        if dark_mode {
            ColorTheme::TutorialDark
        } else {
            ColorTheme::TutorialLight
        }
    }
}

/// Choosing the entry of a theme in the chooser gives the theme back.
pub proof fn lemma_theme_index_round_trip(t: ColorTheme, r: ColorTheme)
    requires
        !(t == ColorTheme::TutorialLight || t == ColorTheme::TutorialDark),
        theme_index(r) == theme_index(t),
    ensures
        r == t,
{
}

/// The red, green, blue and alpha channels of an opaque color written 0xRRGGBB.
pub fn rgb(v: u32) -> (r: (u8, u8, u8, u8))
    requires
        v <= 0xFF_FFFF,
    ensures
        r.0 == v / 0x1_0000,
        r.1 == (v / 0x100) % 0x100,
        r.2 == v % 0x100,
        r.3 == 255,
{
    let red = v / 0x1_0000;
    let green = (v / 0x100) % 0x100;
    let blue = v % 0x100;
    (red as u8, green as u8, blue as u8, 255)
}

/// The red, green, blue and alpha channels of a color written 0xRRGGBBAA.
pub fn rgba(v: u32) -> (r: (u8, u8, u8, u8))
    ensures
        r.0 == v / 0x100_0000,
        r.1 == (v / 0x1_0000) % 0x100,
        r.2 == (v / 0x100) % 0x100,
        r.3 == v % 0x100,
{
    let red = v / 0x100_0000;
    let green = (v / 0x1_0000) % 0x100;
    let blue = (v / 0x100) % 0x100;
    let alpha = v % 0x100;
    (red as u8, green as u8, blue as u8, alpha as u8)
}

} // verus!
