//! What the keys do in the terminal client: from the screen that is on top
//! and the key that was pressed to the command that the client carries out.

use vstd::prelude::*;

verus! {

/// A key of the keyboard.
#[derive(Clone, Copy, Debug, PartialEq, Eq)]
pub enum Key {
    Char(char),
    Left,
    Right,
    Up,
    Down,
    Enter,
    Esc,
    /// Any other key.
    Other,
}

/// A key that was pressed, with what was held down together with it.
#[derive(Clone, Copy, Debug, PartialEq, Eq)]
pub struct KeyPress {
    pub key: Key,
    /// Shift was held down, alone or with others.
    pub shift: bool,
    /// Control was held down, and nothing else.
    pub control_alone: bool,
}

/// Where the keys go while an entry is shown.
#[derive(Clone, Copy, Debug, PartialEq, Eq)]
pub enum ViewerState {
    /// To the entry itself.
    Content,
    /// To the list of its children.
    Navigate,
}

/// The screen that is on top.
#[derive(Clone, Copy, Debug, PartialEq, Eq)]
pub enum Screen {
    /// An entry with its children.
    Viewer(ViewerState),
    /// The choice of the kind of entry to write.
    WriteSelection,
    /// A list of errors.
    Error,
    /// Nothing.
    Blank,
}

/// What the client is to do.
#[derive(Clone, Copy, Debug, PartialEq, Eq)]
pub enum Command {
    /// Leave the program.
    Exit,
    /// Take the screen on top away; leave the program if it was the last.
    Close,
    /// Let the user choose the kind of entry to write.
    OpenWriteSelection,
    /// Go to the parent of the entry that is shown.
    GoToParent,
    /// Let the keys go to the list of children.
    ShowNavigation,
    /// Let the keys go to the entry itself.
    ShowContent,
    /// Move the cursor of the list on the screen up.
    CursorUp,
    /// Move the cursor of the list on the screen down.
    CursorDown,
    /// Go to the child that the cursor is on.
    OpenChild,
    /// Write an entry of the kind that the cursor is on.
    WriteChosen,
    /// Take the screen on top away.
    Dismiss,
    /// Nothing.
    Nothing,
}

/// The command that a key gives while an entry is shown. `w` opens the
/// choice of what to write; `H` or the left arrow with shift goes to the
/// parent; `l` and `h`, or the arrows right and left, move between the
/// entry and the list of its children; in that list `k` and `j`, or the
/// arrows up and down, move the cursor, and enter opens the child.
pub open spec fn viewer_command(state: ViewerState, press: KeyPress) -> Command {
    if press.key == Key::Char('w') {
        Command::OpenWriteSelection
    } else if (press.key == Key::Char('H') || press.key == Key::Left) && press.shift {
        Command::GoToParent
    } else {
        match state {
            ViewerState::Content => if press.key == Key::Char('l') || press.key == Key::Right {
                Command::ShowNavigation
            } else {
                Command::Nothing
            },
            ViewerState::Navigate => if press.key == Key::Char('h') || press.key == Key::Left {
                Command::ShowContent
            } else if press.key == Key::Char('k') || press.key == Key::Up {
                Command::CursorUp
            } else if press.key == Key::Char('j') || press.key == Key::Down {
                Command::CursorDown
            } else if press.key == Key::Enter {
                Command::OpenChild
            } else {
                Command::Nothing
            },
        }
    }
}

/// The command that a key gives. On every screen `c` with control leaves
/// the program and escape closes the screen. Where something is to be
/// chosen, `k` and `j`, or the arrows up and down, move the cursor and
/// enter chooses. Any key takes a list of errors away.
pub open spec fn command_of(screen: Screen, press: KeyPress) -> Command {
    if press.key == Key::Char('c') && press.control_alone {
        Command::Exit
    } else if press.key == Key::Esc {
        Command::Close
    } else {
        match screen {
            Screen::Viewer(state) => viewer_command(state, press),
            Screen::WriteSelection => if press.key == Key::Char('k') || press.key == Key::Up {
                Command::CursorUp
            } else if press.key == Key::Char('j') || press.key == Key::Down {
                Command::CursorDown
            } else if press.key == Key::Enter {
                Command::WriteChosen
            } else {
                Command::Nothing
            },
            Screen::Error => Command::Dismiss,
            Screen::Blank => Command::Dismiss,
        }
    }
}

/// Whether `key` is the letter `letter`.
fn is_char(key: Key, letter: char) -> (same: bool)
    ensures
        same == (key == Key::Char(letter)),
{
    match key {
        Key::Char(c) => c == letter,
        _ => false,
    }
}

/// The command that a key gives on a screen.
pub fn command(screen: Screen, press: KeyPress) -> (command: Command)
    ensures
        command == command_of(screen, press),
{
    let key = press.key;
    let up = is_char(key, 'k') || matches!(key, Key::Up);
    let down = is_char(key, 'j') || matches!(key, Key::Down);
    let enter = matches!(key, Key::Enter);
    if is_char(key, 'c') && press.control_alone {
        return Command::Exit;
    }
    if matches!(key, Key::Esc) {
        return Command::Close;
    }
    match screen {
        Screen::Viewer(state) => {
            if is_char(key, 'w') {
                Command::OpenWriteSelection
            } else if (is_char(key, 'H') || matches!(key, Key::Left)) && press.shift {
                Command::GoToParent
            } else {
                match state {
                    ViewerState::Content => {
                        if is_char(key, 'l') || matches!(key, Key::Right) {
                            Command::ShowNavigation
                        } else {
                            Command::Nothing
                        }
                    },
                    ViewerState::Navigate => {
                        if is_char(key, 'h') || matches!(key, Key::Left) {
                            Command::ShowContent
                        } else if up {
                            Command::CursorUp
                        } else if down {
                            Command::CursorDown
                        } else if enter {
                            Command::OpenChild
                        } else {
                            Command::Nothing
                        }
                    },
                }
            }
        },
        Screen::WriteSelection => {
            if up {
                Command::CursorUp
            } else if down {
                Command::CursorDown
            } else if enter {
                Command::WriteChosen
            } else {
                Command::Nothing
            }
        },
        Screen::Error => Command::Dismiss,
        Screen::Blank => Command::Dismiss,
    }
}

} // verus!
