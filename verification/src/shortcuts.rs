//! The keyboard shortcuts the browser window intercepts.
use vstd::prelude::*;

verus! {

/// A key as the shortcut handler tells keys apart; a letter stands for both of its cases.
#[derive(Debug, Clone, Copy, PartialEq, Eq, Structural)]
pub enum Key {
    T,
    W,
    L,
    D,
    B,
    R,
    I,
    H,
    O,
    Comma,
    /// One of the digit keys 1 to 9 of the main keyboard, by its number.
    Digit(u8),
    Tab,
    IsoLeftTab,
    PageUp,
    PageDown,
    Left,
    KpLeft,
    Right,
    KpRight,
    F4,
    F5,
    F6,
    F12,
    Other,
}

/// An internal page a shortcut opens in a new tab.
#[derive(Debug, Clone, Copy, PartialEq, Eq)]
pub enum Page {
    History,
    Bookmarks,
    Settings,
}

/// What a shortcut does.
#[derive(Debug, Clone, Copy, PartialEq, Eq)]
pub enum Shortcut {
    NewTab,
    ReopenClosedTab,
    CloseTab,
    NextTab,
    PrevTab,
    /// Switch to the tab at this position; 999 stands for the last tab.
    SwitchToIndex(usize),
    FocusUrlbar,
    ToggleToolbar,
    Reload,
    GoBack,
    GoForward,
    ToggleDevtools,
    Open(Page),
}

/// The tab position a digit key selects: 1 to 8 the first eight tabs, 9 the last tab.
pub open spec fn digit_index(n: u8) -> Option<usize> {
    if 1 <= n <= 8 {
        Some((n - 1) as usize)
    } else if n == 9 {
        Some(999)
    } else {
        None
    }
}

/// The shortcut for a key pressed with the given modifiers, the first rule that applies in
/// the handler's order.
pub open spec fn shortcut_of(ctrl: bool, shift: bool, alt: bool, key: Key) -> Option<Shortcut> {
    if ctrl && !shift && !alt && key == Key::T {
        Some(Shortcut::NewTab)
    } else if ctrl && shift && !alt && key == Key::T {
        Some(Shortcut::ReopenClosedTab)
    } else if (ctrl && !shift && !alt && key == Key::W) || (ctrl && key == Key::F4) {
        Some(Shortcut::CloseTab)
    } else if (ctrl && !shift && key == Key::Tab) || (ctrl && key == Key::PageDown) {
        Some(Shortcut::NextTab)
    } else if (ctrl && (key == Key::IsoLeftTab || (shift && key == Key::Tab))) || (ctrl && key
        == Key::PageUp) {
        Some(Shortcut::PrevTab)
    } else if ctrl && !shift && !alt && (key matches Key::Digit(n) && digit_index(n) is Some) {
        Some(Shortcut::SwitchToIndex(digit_index(key->Digit_0)->0))
    } else if (ctrl && !shift && key == Key::L) || (alt && key == Key::D) || key == Key::F6 {
        Some(Shortcut::FocusUrlbar)
    } else if ctrl && !shift && !alt && key == Key::B {
        Some(Shortcut::ToggleToolbar)
    } else if (ctrl && !shift && key == Key::R) || key == Key::F5 {
        Some(Shortcut::Reload)
    } else if alt && (key == Key::Left || key == Key::KpLeft) {
        Some(Shortcut::GoBack)
    } else if alt && (key == Key::Right || key == Key::KpRight) {
        Some(Shortcut::GoForward)
    } else if (ctrl && shift && key == Key::I) || key == Key::F12 {
        Some(Shortcut::ToggleDevtools)
    } else if ctrl && !shift && !alt && key == Key::H {
        Some(Shortcut::Open(Page::History))
    } else if ctrl && shift && !alt && key == Key::O {
        Some(Shortcut::Open(Page::Bookmarks))
    } else if ctrl && !shift && !alt && key == Key::Comma {
        Some(Shortcut::Open(Page::Settings))
    } else {
        None
    }
}

fn digit_position(n: u8) -> (r: Option<usize>)
    ensures
        r == digit_index(n),
{
    if 1 <= n && n <= 8 {
        Some((n - 1) as usize)
    } else if n == 9 {
        Some(999)
    } else {
        None
    }
}

/// The shortcut for a key pressed with the given modifiers, if the window intercepts it.
pub fn shortcut_for(ctrl: bool, shift: bool, alt: bool, key: Key) -> (r: Option<Shortcut>)
    ensures
        r == shortcut_of(ctrl, shift, alt, key),
{
    let is = |k: Key| -> (b: bool)
        ensures
            b == (key == k),
        { key == k };
    if ctrl && !shift && !alt && is(Key::T) {
        return Some(Shortcut::NewTab);
    }
    if ctrl && shift && !alt && is(Key::T) {
        return Some(Shortcut::ReopenClosedTab);
    }
    if (ctrl && !shift && !alt && is(Key::W)) || (ctrl && is(Key::F4)) {
        return Some(Shortcut::CloseTab);
    }
    if (ctrl && !shift && is(Key::Tab)) || (ctrl && is(Key::PageDown)) {
        return Some(Shortcut::NextTab);
    }
    if (ctrl && (is(Key::IsoLeftTab) || (shift && is(Key::Tab)))) || (ctrl && is(Key::PageUp)) {
        return Some(Shortcut::PrevTab);
    }
    if ctrl && !shift && !alt {
        if let Key::Digit(n) = key {
            if let Some(idx) = digit_position(n) {
                return Some(Shortcut::SwitchToIndex(idx));
            }
        }
    }
    if (ctrl && !shift && is(Key::L)) || (alt && is(Key::D)) || is(Key::F6) {
        return Some(Shortcut::FocusUrlbar);
    }
    if ctrl && !shift && !alt && is(Key::B) {
        return Some(Shortcut::ToggleToolbar);
    }
    if (ctrl && !shift && is(Key::R)) || is(Key::F5) {
        return Some(Shortcut::Reload);
    }
    if alt && (is(Key::Left) || is(Key::KpLeft)) {
        return Some(Shortcut::GoBack);
    }
    if alt && (is(Key::Right) || is(Key::KpRight)) {
        return Some(Shortcut::GoForward);
    }
    if (ctrl && shift && is(Key::I)) || is(Key::F12) {
        return Some(Shortcut::ToggleDevtools);
    }
    if ctrl && !shift && !alt && is(Key::H) {
        return Some(Shortcut::Open(Page::History));
    }
    if ctrl && shift && !alt && is(Key::O) {
        return Some(Shortcut::Open(Page::Bookmarks));
    }
    if ctrl && !shift && !alt && is(Key::Comma) {
        return Some(Shortcut::Open(Page::Settings));
    }
    None
}

/// With Alt held, the Left arrow and the keypad Left go back and the Right arrow and the
/// keypad Right go forward, whatever Ctrl and Shift do; no earlier rule claims these keys.
pub proof fn law_alt_arrows_navigate(ctrl: bool, shift: bool)
    ensures
        shortcut_of(ctrl, shift, true, Key::Left) == Some(Shortcut::GoBack),
        shortcut_of(ctrl, shift, true, Key::KpLeft) == Some(Shortcut::GoBack),
        shortcut_of(ctrl, shift, true, Key::Right) == Some(Shortcut::GoForward),
        shortcut_of(ctrl, shift, true, Key::KpRight) == Some(Shortcut::GoForward),
        shortcut_of(ctrl, shift, false, Key::Left) == None::<Shortcut>,
        shortcut_of(ctrl, shift, false, Key::Right) == None::<Shortcut>,
{
}

/// Ctrl alone with a letter or digit: T new tab, W close, L address bar, B toolbar, R reload,
/// H history, comma settings, 1 to 8 that tab, 9 the last tab; with Shift added: T reopens,
/// O bookmarks, I developer tools, Tab the previous tab. F5 reloads, F6 focuses the address
/// bar and F12 opens the developer tools whatever the modifiers; Ctrl+F4 always closes.
pub proof fn law_shortcut_table(ctrl: bool, shift: bool, alt: bool, n: u8)
    ensures
        shortcut_of(true, false, false, Key::T) == Some(Shortcut::NewTab),
        shortcut_of(true, false, false, Key::W) == Some(Shortcut::CloseTab),
        shortcut_of(true, false, false, Key::L) == Some(Shortcut::FocusUrlbar),
        shortcut_of(true, false, false, Key::B) == Some(Shortcut::ToggleToolbar),
        shortcut_of(true, false, false, Key::R) == Some(Shortcut::Reload),
        shortcut_of(true, false, false, Key::H) == Some(Shortcut::Open(Page::History)),
        shortcut_of(true, false, false, Key::Comma) == Some(Shortcut::Open(Page::Settings)),
        1 <= n <= 8 ==> shortcut_of(true, false, false, Key::Digit(n)) == Some(
            Shortcut::SwitchToIndex((n - 1) as usize),
        ),
        shortcut_of(true, false, false, Key::Digit(9)) == Some(Shortcut::SwitchToIndex(999)),
        shortcut_of(true, true, false, Key::T) == Some(Shortcut::ReopenClosedTab),
        shortcut_of(true, true, false, Key::O) == Some(Shortcut::Open(Page::Bookmarks)),
        shortcut_of(true, true, alt, Key::I) == Some(Shortcut::ToggleDevtools),
        shortcut_of(true, true, alt, Key::Tab) == Some(Shortcut::PrevTab),
        shortcut_of(true, false, alt, Key::Tab) == Some(Shortcut::NextTab),
        shortcut_of(ctrl, shift, alt, Key::F5) == Some(Shortcut::Reload),
        shortcut_of(ctrl, shift, alt, Key::F6) == Some(Shortcut::FocusUrlbar),
        shortcut_of(ctrl, shift, alt, Key::F12) == Some(Shortcut::ToggleDevtools),
        shortcut_of(true, shift, alt, Key::F4) == Some(Shortcut::CloseTab),
        shortcut_of(false, shift, alt, Key::T) == None::<Shortcut>,
        shortcut_of(ctrl, shift, alt, Key::Other) == None::<Shortcut>,
{
}

} // verus!
