//! Key presses and the commands they are bound to.

use vstd::prelude::*;

verus! {

/// The modifier keys held down with a key, as far as the bindings tell them
/// apart.
#[derive(Clone, Copy, Debug, PartialEq, Eq, Hash, Structural)]
pub enum Modifiers {
    /// No modifier.
    Plain,
    /// Shift and no other.
    Shift,
    /// Control and no other.
    Control,
    /// Any other modifier or combination.
    Other,
}

/// The key itself.
#[derive(Clone, Copy, Debug, PartialEq, Eq, Hash, Structural)]
pub enum KeyCode {
    Char(char),
    Enter,
    Up,
    Down,
    Left,
    Right,
    Home,
    End,
    Backspace,
    Delete,
    /// A key without a binding.
    Other,
}

/// One event of the keyboard.
#[derive(Clone, Copy, Debug, PartialEq, Eq, Hash, Structural)]
pub struct KeyEvent {
    pub modifiers: Modifiers,
    pub code: KeyCode,
    /// Whether the key went down. A key that is released or repeats has no
    /// binding.
    pub pressed: bool,
}

/// What a key asks the editor to do.
#[derive(Clone, Copy, Debug, PartialEq, Eq, Hash, Structural)]
pub enum Command {
    /// Bound, to nothing.
    Nop,
    ExitRepl,
    CancelNav,
    Eval,
    NavUp,
    NavDown,
    NavCmdLeft,
    NavCmdRight,
    NavToStartOfCmd,
    NavToEndOfCmd,
    ReverseSearchHistory,
    InsertChar(char),
    InsertNewline,
    RmGraphemeBeforeCursor,
    RmGraphemeAtCursor,
    /// Not bound.
    Ignore,
}

/// The binding of `key`.
pub open spec fn binding(key: KeyEvent) -> Command {
    if !key.pressed {
        Command::Ignore
    } else {
        match (key.modifiers, key.code) {
            (Modifiers::Control, KeyCode::Char('c')) => Command::Nop,
            (Modifiers::Control, KeyCode::Char('d')) => Command::ExitRepl,
            (Modifiers::Control, KeyCode::Char('g')) => Command::CancelNav,
            (Modifiers::Plain, KeyCode::Enter) => Command::Eval,
            (Modifiers::Control, KeyCode::Char('p')) => Command::NavUp,
            (Modifiers::Plain, KeyCode::Up) => Command::NavUp,
            (Modifiers::Control, KeyCode::Char('n')) => Command::NavDown,
            (Modifiers::Plain, KeyCode::Down) => Command::NavDown,
            (Modifiers::Control, KeyCode::Char('b')) => Command::NavCmdLeft,
            (Modifiers::Plain, KeyCode::Left) => Command::NavCmdLeft,
            (Modifiers::Control, KeyCode::Char('f')) => Command::NavCmdRight,
            (Modifiers::Plain, KeyCode::Right) => Command::NavCmdRight,
            (Modifiers::Control, KeyCode::Char('a')) => Command::NavToStartOfCmd,
            (Modifiers::Plain, KeyCode::Home) => Command::NavToStartOfCmd,
            (Modifiers::Control, KeyCode::Char('e')) => Command::NavToEndOfCmd,
            (Modifiers::Plain, KeyCode::End) => Command::NavToEndOfCmd,
            (Modifiers::Control, KeyCode::Char('r')) => Command::ReverseSearchHistory,
            (Modifiers::Plain, KeyCode::Char(c)) => Command::InsertChar(c),
            (Modifiers::Shift, KeyCode::Char(c)) => Command::InsertChar(c),
            (Modifiers::Shift, KeyCode::Enter) => Command::InsertNewline,
            (Modifiers::Control, KeyCode::Char('o')) => Command::InsertNewline,
            (Modifiers::Plain, KeyCode::Backspace) => Command::RmGraphemeBeforeCursor,
            (Modifiers::Plain, KeyCode::Delete) => Command::RmGraphemeAtCursor,
            _ => Command::Ignore,
        }
    }
}

/// The command that `key` is bound to.
pub fn command_for(key: KeyEvent) -> (command: Command)
    ensures
        command == binding(key),
{
    if !key.pressed {
        return Command::Ignore;
    }
    match key.modifiers {
        Modifiers::Control => match key.code {
            KeyCode::Char(c) => {
                if c == 'c' {
                    Command::Nop
                } else if c == 'd' {
                    Command::ExitRepl
                } else if c == 'g' {
                    Command::CancelNav
                } else if c == 'p' {
                    Command::NavUp
                } else if c == 'n' {
                    Command::NavDown
                } else if c == 'b' {
                    Command::NavCmdLeft
                } else if c == 'f' {
                    Command::NavCmdRight
                } else if c == 'a' {
                    Command::NavToStartOfCmd
                } else if c == 'e' {
                    Command::NavToEndOfCmd
                } else if c == 'r' {
                    Command::ReverseSearchHistory
                } else if c == 'o' {
                    Command::InsertNewline
                } else {
                    Command::Ignore
                }
            },
            _ => Command::Ignore,
        },
        Modifiers::Plain => match key.code {
            KeyCode::Char(c) => Command::InsertChar(c),
            KeyCode::Enter => Command::Eval,
            KeyCode::Up => Command::NavUp,
            KeyCode::Down => Command::NavDown,
            KeyCode::Left => Command::NavCmdLeft,
            KeyCode::Right => Command::NavCmdRight,
            KeyCode::Home => Command::NavToStartOfCmd,
            KeyCode::End => Command::NavToEndOfCmd,
            KeyCode::Backspace => Command::RmGraphemeBeforeCursor,
            KeyCode::Delete => Command::RmGraphemeAtCursor,
            KeyCode::Other => Command::Ignore,
        },
        Modifiers::Shift => match key.code {
            KeyCode::Char(c) => Command::InsertChar(c),
            KeyCode::Enter => Command::InsertNewline,
            _ => Command::Ignore,
        },
        Modifiers::Other => Command::Ignore,
    }
}

} // verus!
