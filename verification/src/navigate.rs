//! The navigator: which slide a key leads to.

use vstd::prelude::*;

verus! {

/// A key, as far as the navigator tells keys apart.
#[derive(Clone, Copy, Debug, PartialEq, Eq, Structural)]
pub enum Key {
    /// A character key.
    Character(char),
    /// A key that the terminal reports by its code only.
    Unknown(i32),
    F5,
    Beg,
    Home,
    End,
    Left,
    Right,
    Up,
    Down,
    NextPage,
    PreviousPage,
    /// Any other key.
    Other,
}

/// What a key asks for.
#[derive(Clone, Copy, Debug, PartialEq, Eq, Structural)]
pub enum Command {
    Quit,
    First,
    Last,
    Next,
    Previous,
    Nothing,
}

/// What the presenter does next.
#[derive(Clone, Copy, Debug, PartialEq, Eq, Structural)]
pub enum Action {
    /// Ends the presentation.
    Quit,
    /// Draws the slide with this index.
    Show(usize),
    /// Waits for the next key.
    Wait,
}

/// The code of the escape key.
pub const ESCAPE: i32 = 27;

/// The command of a key: escape, `q` and F5 quit; `u`, Beg and Home lead to
/// the first slide; `i` and End to the last; `j`, `l`, `B`, `C`, right, down
/// and page down to the next; `h`, `k`, `A`, `D`, left, up and page up to the
/// previous one. Every other key asks for nothing.
pub open spec fn command_of(key: Key) -> Command {
    match key {
        Key::Unknown(code) => if code == ESCAPE {
            Command::Quit
        } else {
            Command::Nothing
        },
        Key::Character(c) => if c == 'q' {
            Command::Quit
        } else if c == 'u' {
            Command::First
        } else if c == 'i' {
            Command::Last
        } else if c == 'j' || c == 'l' || c == 'B' || c == 'C' {
            Command::Next
        } else if c == 'h' || c == 'k' || c == 'A' || c == 'D' {
            Command::Previous
        } else {
            Command::Nothing
        },
        Key::F5 => Command::Quit,
        Key::Beg => Command::First,
        Key::Home => Command::First,
        Key::End => Command::Last,
        Key::Right => Command::Next,
        Key::Down => Command::Next,
        Key::NextPage => Command::Next,
        Key::Left => Command::Previous,
        Key::Up => Command::Previous,
        Key::PreviousPage => Command::Previous,
        Key::Other => Command::Nothing,
    }
}

/// What follows from a command at the slide `cursor` of `count` slides. The
/// next slide of the last one is the last one, and the previous slide of the
/// first one is the first one.
pub open spec fn action_of(command: Command, cursor: int, count: int) -> Action {
    match command {
        Command::Quit => Action::Quit,
        Command::Nothing => Action::Wait,
        Command::First => Action::Show(0),
        Command::Last => Action::Show(
            if count > 0 {
                (count - 1) as usize
            } else {
                0
            },
        ),
        Command::Next => Action::Show(
            if cursor + 1 < count {
                (cursor + 1) as usize
            } else {
                cursor as usize
            },
        ),
        Command::Previous => Action::Show(
            if cursor > 0 {
                (cursor - 1) as usize
            } else {
                cursor as usize
            },
        ),
    }
}

/// The command of `key`.
pub fn command(key: Key) -> (c: Command)
    ensures
        c == command_of(key),
{
    match key {
        Key::Unknown(code) => if code == ESCAPE {
            Command::Quit
        } else {
            Command::Nothing
        },
        Key::Character(c) => if c == 'q' {
            Command::Quit
        } else if c == 'u' {
            Command::First
        } else if c == 'i' {
            Command::Last
        } else if c == 'j' || c == 'l' || c == 'B' || c == 'C' {
            Command::Next
        } else if c == 'h' || c == 'k' || c == 'A' || c == 'D' {
            Command::Previous
        } else {
            Command::Nothing
        },
        Key::F5 => Command::Quit,
        Key::Beg | Key::Home => Command::First,
        Key::End => Command::Last,
        Key::Right | Key::Down | Key::NextPage => Command::Next,
        Key::Left | Key::Up | Key::PreviousPage => Command::Previous,
        Key::Other => Command::Nothing,
    }
}

/// What the presenter does after `key` at the slide `cursor` of `count`
/// slides. A slide that is shown is one of the `count` slides, as long as
/// `cursor` is.
pub fn navigate(key: Key, cursor: usize, count: usize) -> (action: Action)
    ensures
        action == action_of(command_of(key), cursor as int, count as int),
        cursor < count ==> match action {
            Action::Show(index) => index < count,
            _ => true,
        },
{
    match command(key) {
        Command::Quit => Action::Quit,
        Command::Nothing => Action::Wait,
        Command::First => Action::Show(0),
        Command::Last => Action::Show(
            if count > 0 {
                count - 1
            } else {
                0
            },
        ),
        Command::Next => Action::Show(
            if count > 0 && cursor < count - 1 {
                cursor + 1
            } else {
                cursor
            },
        ),
        Command::Previous => Action::Show(
            if cursor > 0 {
                cursor - 1
            } else {
                cursor
            },
        ),
    }
}

} // verus!
