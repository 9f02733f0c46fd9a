//! The overlay's global shortcuts and what each one does.
use vstd::prelude::*;

verus! {

pub const EVENT_WHEEL_OPEN: &'static str = "jingzhuo-wheel-open";

pub const EVENT_TOOLBAR_OPEN: &'static str = "jingzhuo-toolbar-open";

pub const EVENT_AI_OPEN: &'static str = "jingzhuo-ai-open";

/// The keys the shortcuts use.
#[derive(Clone, Copy, Debug, PartialEq, Eq, Structural)]
pub enum KeyCode {
    Space,
    KeyT,
    KeyQ,
    Other,
}

/// A key with its modifiers.
#[derive(Clone, Copy, Debug, PartialEq, Eq, Structural)]
pub struct ShortcutKey {
    pub control: bool,
    pub alt: bool,
    pub shift: bool,
    pub super_key: bool,
    pub key: KeyCode,
}

/// What a shortcut does.
#[derive(Clone, Copy, Debug, PartialEq, Eq, Structural)]
pub enum ShortcutAction {
    OpenToolbar,
    OpenWheel,
    OpenAi,
    Quit,
}

pub open spec fn key_of(control: bool, alt: bool, shift: bool, key: KeyCode) -> ShortcutKey {
    ShortcutKey { control, alt, shift, super_key: false, key }
}

/// `Ctrl+Space` opens the toolbar.
pub fn toolbar_shortcut() -> (s: ShortcutKey)
    ensures
        s == key_of(true, false, false, KeyCode::Space),
{
    ShortcutKey { control: true, alt: false, shift: false, super_key: false, key: KeyCode::Space }
}

/// `Ctrl+Alt+Space` opens the wheel.
pub fn wheel_shortcut() -> (s: ShortcutKey)
    ensures
        s == key_of(true, true, false, KeyCode::Space),
{
    ShortcutKey { control: true, alt: true, shift: false, super_key: false, key: KeyCode::Space }
}

/// `Ctrl+T` opens the assistant.
pub fn ai_shortcut() -> (s: ShortcutKey)
    ensures
        s == key_of(true, false, false, KeyCode::KeyT),
{
    ShortcutKey { control: true, alt: false, shift: false, super_key: false, key: KeyCode::KeyT }
}

/// `Ctrl+Shift+Q` quits.
pub fn quit_shortcut() -> (s: ShortcutKey)
    ensures
        s == key_of(true, false, true, KeyCode::KeyQ),
{
    ShortcutKey { control: true, alt: false, shift: true, super_key: false, key: KeyCode::KeyQ }
}

/// The handler's decision: only a press acts, and each of the four shortcuts has its
/// action; any other key does nothing.
pub open spec fn action_spec(pressed: bool, s: ShortcutKey) -> Option<ShortcutAction> {
    if !pressed {
        None
    } else if s == key_of(true, false, false, KeyCode::Space) {
        Some(ShortcutAction::OpenToolbar)
    } else if s == key_of(true, true, false, KeyCode::Space) {
        Some(ShortcutAction::OpenWheel)
    } else if s == key_of(true, false, false, KeyCode::KeyT) {
        Some(ShortcutAction::OpenAi)
    } else if s == key_of(true, false, true, KeyCode::KeyQ) {
        Some(ShortcutAction::Quit)
    } else {
        None
    }
}

pub fn shortcut_action(pressed: bool, shortcut: &ShortcutKey) -> (a: Option<ShortcutAction>)
    ensures
        a == action_spec(pressed, *shortcut),
{
    if !pressed {
        return None;
    }
    if *shortcut == toolbar_shortcut() {
        return Some(ShortcutAction::OpenToolbar);
    }
    if *shortcut == wheel_shortcut() {
        return Some(ShortcutAction::OpenWheel);
    }
    if *shortcut == ai_shortcut() {
        return Some(ShortcutAction::OpenAi);
    }
    if *shortcut == quit_shortcut() {
        return Some(ShortcutAction::Quit);
    }
    None
}

/// The event the front end receives for an action; quitting sends none.
pub fn event_for(action: ShortcutAction) -> (e: Option<&'static str>)
    ensures
        match action {
            ShortcutAction::OpenToolbar => e == Some(EVENT_TOOLBAR_OPEN),
            ShortcutAction::OpenWheel => e == Some(EVENT_WHEEL_OPEN),
            ShortcutAction::OpenAi => e == Some(EVENT_AI_OPEN),
            ShortcutAction::Quit => e is None,
        },
{
    match action {
        ShortcutAction::OpenToolbar => Some(EVENT_TOOLBAR_OPEN),
        ShortcutAction::OpenWheel => Some(EVENT_WHEEL_OPEN),
        ShortcutAction::OpenAi => Some(EVENT_AI_OPEN),
        ShortcutAction::Quit => None,
    }
}

/// The four shortcuts are distinct, so each key press has at most one action.
pub proof fn law_shortcuts_distinct()
    ensures
        key_of(true, false, false, KeyCode::Space) != key_of(true, true, false, KeyCode::Space),
        key_of(true, false, false, KeyCode::Space) != key_of(true, false, false, KeyCode::KeyT),
        key_of(true, false, false, KeyCode::Space) != key_of(true, false, true, KeyCode::KeyQ),
        key_of(true, true, false, KeyCode::Space) != key_of(true, false, false, KeyCode::KeyT),
        key_of(true, true, false, KeyCode::Space) != key_of(true, false, true, KeyCode::KeyQ),
        key_of(true, false, false, KeyCode::KeyT) != key_of(true, false, true, KeyCode::KeyQ),
{
}

} // verus!
