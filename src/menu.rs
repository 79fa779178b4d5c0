use vstd::prelude::*;
use crate::config::{AppConfig, TimerStyle};

verus! {

/// Number of entries in the options menu: style, arming option, start, exit.
pub const MENU_ENTRIES: usize = 4;

/// A key as the options menu sees it.
#[derive(Debug, Clone, Copy, PartialEq, Eq, Structural)]
pub enum MenuKey {
    Up,
    Down,
    Enter,
    Esc,
    Other,
}

/// What the menu asks of its caller after a key.
#[derive(Debug, Clone, Copy, PartialEq, Eq, Structural)]
pub enum MenuAction {
    /// Draw the menu again and wait for the next key.
    Stay,
    /// Leave the menu and run the timer with the settings chosen.
    StartTimer,
    /// Leave the program.
    Exit,
}

/// The menu's answer to a key: the entry now selected, the settings, and what
/// to do next. Enter on the first entry cycles the style, on the second
/// toggles the arming option, on the third starts the timer and on the last
/// exits; Esc exits; the arrows move the selection within the entries.
pub open spec fn menu_next(selected: usize, config: AppConfig, key: MenuKey) -> (
    usize,
    AppConfig,
    MenuAction,
) {
    match key {
        MenuKey::Up => (
            if selected > 0 {
                (selected - 1) as usize
            } else {
                selected
            },
            config,
            MenuAction::Stay,
        ),
        MenuKey::Down => (
            if selected + 1 < MENU_ENTRIES {
                (selected + 1) as usize
            } else {
                selected
            },
            config,
            MenuAction::Stay,
        ),
        MenuKey::Enter => if selected == 0 {
            (selected, AppConfig { style: config.style.spec_next(), ..config }, MenuAction::Stay)
        } else if selected == 1 {
            (
                selected,
                AppConfig { run_option: config.run_option.spec_toggled(), ..config },
                MenuAction::Stay,
            )
        } else if selected == 2 {
            (selected, config, MenuAction::StartTimer)
        } else {
            (selected, config, MenuAction::Exit)
        },
        MenuKey::Esc => (selected, config, MenuAction::Exit),
        MenuKey::Other => (selected, config, MenuAction::Stay),
    }
}

/// One key handled by the options menu; see [`menu_next`].
pub fn menu_step(selected: usize, config: AppConfig, key: MenuKey) -> (r: (
    usize,
    AppConfig,
    MenuAction,
))
    requires
        selected < MENU_ENTRIES,
    ensures
        r == menu_next(selected, config, key),
        r.0 < MENU_ENTRIES,
{
    match key {
        MenuKey::Up => {
            let s = if selected > 0 {
                selected - 1
            } else {
                selected
            };
            (s, config, MenuAction::Stay)
        },
        MenuKey::Down => {
            let s = if selected + 1 < MENU_ENTRIES {
                selected + 1
            } else {
                selected
            };
            (s, config, MenuAction::Stay)
        },
        MenuKey::Enter => {
            if selected == 0 {
                (selected, AppConfig { style: config.style.next(), ..config }, MenuAction::Stay)
            } else if selected == 1 {
                (
                    selected,
                    AppConfig { run_option: config.run_option.toggled(), ..config },
                    MenuAction::Stay,
                )
            } else if selected == 2 {
                (selected, config, MenuAction::StartTimer)
            } else {
                (selected, config, MenuAction::Exit)
            }
        },
        MenuKey::Esc => (selected, config, MenuAction::Exit),
        MenuKey::Other => (selected, config, MenuAction::Stay),
    }
}

/// Column at which text of width `len` starts to stand centred in `total`
/// columns; zero when it does not fit.
pub fn centered(total: u16, len: u16) -> (r: u16)
    ensures
        r == (if total >= len {
            (total - len) / 2
        } else {
            0
        }),
        r as int + len <= total || r == 0,
{
    total.saturating_sub(len) / 2
}

/// The corner and edge glyphs of a box in a style (top left, top right,
/// bottom left, bottom right, horizontal, vertical); the text style draws no
/// box.
pub fn box_glyphs(style: TimerStyle) -> (r: Option<(char, char, char, char, char, char)>)
    ensures
        r is None <==> style == TimerStyle::Text,
        style == TimerStyle::Boxes ==> r == Some(
            ('\u{250c}', '\u{2510}', '\u{2514}', '\u{2518}', '\u{2500}', '\u{2502}'),
        ),
        style == TimerStyle::BoxesRounded ==> r == Some(
            ('\u{256d}', '\u{256e}', '\u{2570}', '\u{256f}', '\u{2500}', '\u{2502}'),
        ),
{
    match style {
        TimerStyle::Text => None,
        TimerStyle::Boxes => Some(
            ('\u{250c}', '\u{2510}', '\u{2514}', '\u{2518}', '\u{2500}', '\u{2502}'),
        ),
        TimerStyle::BoxesRounded => Some(
            ('\u{256d}', '\u{256e}', '\u{2570}', '\u{256f}', '\u{2500}', '\u{2502}'),
        ),
    }
}

} // verus!
