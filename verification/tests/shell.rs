use artchiver::ux_shell::{
    rgb, rgba, ColorTheme, NextButton, ShellAction, ShellState, ShortcutKeys, TutorialStep, UxMode, WorkSelection,
    THEME_CHOICES,
};

fn keys(escape: bool, f3: bool, f11: bool, space: bool) -> ShortcutKeys {
    ShortcutKeys { escape, f3, f11, space }
}

#[test]
fn work_selection_moves() {
    let mut s = WorkSelection::new(3);
    assert!(s.has_selection());
    assert!(s.is_selected(3));
    assert!(!s.is_selected(4));
    s.move_to_next();
    assert_eq!(s.get_selected_offset(), Some(4));
    s.move_to_prev();
    s.move_to_prev();
    assert_eq!(s.get_selected_offset(), Some(2));
    let mut z = WorkSelection::new(0);
    z.move_to_prev();
    assert_eq!(z.get_selected_offset(), Some(0));
    let mut m = WorkSelection::new(usize::MAX);
    m.move_to_next();
    assert_eq!(m.get_selected_offset(), Some(0));
    let mut n = WorkSelection::NoSelection;
    n.move_to_next();
    assert_eq!(n, WorkSelection::NoSelection);
    assert!(!n.has_selection());
    assert_eq!(n.get_selected_offset(), None);
}

#[test]
fn shortcuts_switch_modes_and_close_windows() {
    let mut s = ShellState::new();
    // Space needs a selection.
    assert_eq!(s.handle_shortcuts(keys(false, false, false, true), false, false), ShellAction::Nothing);
    assert_eq!(s.mode, UxMode::Browser);
    assert_eq!(s.handle_shortcuts(keys(false, false, true, false), false, true), ShellAction::EnterFullscreen);
    assert_eq!(s.mode, UxMode::Slideshow);
    assert_eq!(s.handle_shortcuts(keys(false, false, false, true), false, true), ShellAction::LeaveFullscreen);
    assert_eq!(s.mode, UxMode::Browser);

    assert_eq!(s.handle_shortcuts(keys(false, true, false, false), false, false), ShellAction::Nothing);
    assert!(s.show_performance);
    s.show_about = true;
    s.show_preferences = true;
    assert_eq!(s.handle_shortcuts(keys(true, false, false, false), false, false), ShellAction::Nothing);
    assert!(!s.show_about && s.show_performance);
    s.handle_shortcuts(keys(true, false, false, false), false, false);
    assert!(!s.show_performance && s.show_preferences);
    s.handle_shortcuts(keys(true, false, false, false), false, false);
    assert!(!s.show_preferences);
    assert_eq!(s.handle_shortcuts(keys(true, false, false, false), false, false), ShellAction::Close);
    // A focused widget only gives up the focus.
    assert_eq!(s.handle_shortcuts(keys(true, false, false, false), true, false), ShellAction::SurrenderFocus);

    let mut show = ShellState { mode: UxMode::Slideshow, ..ShellState::new() };
    show.require_selection(true);
    assert_eq!(show.mode, UxMode::Slideshow);
    show.require_selection(false);
    assert_eq!(show.mode, UxMode::Browser);
}

#[test]
fn tutorial_steps_in_order() {
    let mut step = TutorialStep::Beginning;
    let mut n = 0;
    while step != TutorialStep::Finished {
        step = step.next();
        n += 1;
    }
    assert_eq!(n, 10);
    assert_eq!(TutorialStep::TagsIntro.next(), TutorialStep::TagsRefresh);
    assert!(TutorialStep::PluginsRefresh.is_plugin_refresh_step("The National Gallery of Art"));
    assert!(!TutorialStep::PluginsRefresh.is_plugin_refresh_step("The Met"));
    assert!(TutorialStep::TagsRefresh.is_tag_refresh_step("Cat"));
    assert!(!TutorialStep::TagsIntro.is_tag_refresh_step("Cat"));
    assert!(TutorialStep::TagsViewAdd.fixes_spacing());
    assert!(!TutorialStep::WorksIntro.fixes_spacing());
    assert_eq!(NextButton::Next.label(), "Next");
    assert_eq!(NextButton::Skip.label(), "Skip");
    assert_eq!(NextButton::NoButton.label(), "");
}

#[test]
fn themes_and_colors() {
    assert_eq!(ColorTheme::default_theme(), ColorTheme::CatppuccinFrappe);
    for i in 0..THEME_CHOICES {
        assert_eq!(ColorTheme::from_index(i).index(), i);
    }
    assert!(ColorTheme::TutorialDark.is_tutorial());
    assert_eq!(ColorTheme::tutorial_theme(true), ColorTheme::TutorialDark);
    assert_eq!(ColorTheme::tutorial_theme(false), ColorTheme::TutorialLight);
    assert_eq!(rgb(0x0061CF), (0x00, 0x61, 0xCF, 0xFF));
    assert_eq!(rgba(0x11223344), (0x11, 0x22, 0x33, 0x44));
}

#[test]
fn the_default_selection_is_empty() {
    let s = WorkSelection::default();
    assert!(!s.has_selection());
    assert_eq!(s.get_selected_offset(), None);
    assert_eq!(s, WorkSelection::NoSelection);
}
