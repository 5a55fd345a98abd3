//! The commands that a driver offers.

use crate::text::{join, join_strings, texts};
use vstd::prelude::*;
use vstd::string::*;

verus! {

/// A command of the menu.
#[derive(Clone, Copy, Debug, PartialEq, Eq, Structural)]
pub enum Command {
    Critic,
    Actor,
    FourActor,
    Compress,
    Question,
    Critique,
    Connect,
    FreeText,
    Conversation,
    Quit,
}

/// Number of commands in the menu.
pub const COMMAND_COUNT: usize = 10;

/// The command at a position of the menu, counted from one.
pub open spec fn command_of(position: int) -> Option<Command> {
    if position == 1 {
        Some(Command::Critic)
    } else if position == 2 {
        Some(Command::Actor)
    } else if position == 3 {
        Some(Command::FourActor)
    } else if position == 4 {
        Some(Command::Compress)
    } else if position == 5 {
        Some(Command::Question)
    } else if position == 6 {
        Some(Command::Critique)
    } else if position == 7 {
        Some(Command::Connect)
    } else if position == 8 {
        Some(Command::FreeText)
    } else if position == 9 {
        Some(Command::Conversation)
    } else if position == 10 {
        Some(Command::Quit)
    } else {
        None
    }
}

/// The command at `position` of the menu, counted from one, or `None`
/// where the menu has no such position.
pub fn command_at(position: usize) -> (command: Option<Command>)
    ensures
        command == command_of(position as int),
        command is Some <==> 1 <= position <= COMMAND_COUNT,
{
    match position {
        1 => Some(Command::Critic),
        2 => Some(Command::Actor),
        3 => Some(Command::FourActor),
        4 => Some(Command::Compress),
        5 => Some(Command::Question),
        6 => Some(Command::Critique),
        7 => Some(Command::Connect),
        8 => Some(Command::FreeText),
        9 => Some(Command::Conversation),
        10 => Some(Command::Quit),
        _ => None,
    }
}

impl Command {
    /// What the menu says of the command.
    pub open spec fn label(self) -> Seq<char> {
        match self {
            Command::Critic => "Load random note & analyse (critic) (ChatGPT)"@,
            Command::Actor => "Load random note & analyse (actor) (ChatGPT)"@,
            Command::FourActor => "Load 4 random notes & analyse (actor) (ChatGPT)"@,
            Command::Compress => "Load two random notes & compress"@,
            Command::Question => "Load random note & question"@,
            Command::Critique => "Load random note & critique"@,
            Command::Connect => "Load random note & connect to random notes"@,
            Command::FreeText => "Free text input"@,
            Command::Conversation => "Conversation between geists"@,
            Command::Quit => "Quit"@,
        }
    }

    /// What the menu says of the command.
    pub fn to_string(&self) -> (text: String)
        ensures
            text@ == self.label(),
    {
        String::from_str(
            match self {
                Command::Critic => "Load random note & analyse (critic) (ChatGPT)",
                Command::Actor => "Load random note & analyse (actor) (ChatGPT)",
                Command::FourActor => "Load 4 random notes & analyse (actor) (ChatGPT)",
                Command::Compress => "Load two random notes & compress",
                Command::Question => "Load random note & question",
                Command::Critique => "Load random note & critique",
                Command::Connect => "Load random note & connect to random notes",
                Command::FreeText => "Free text input",
                Command::Conversation => "Conversation between geists",
                Command::Quit => "Quit",
            },
        )
    }
}

/// What heads the menu.
pub const MENU_HEADING: &'static str = "Commands:\n";

/// What stands between two lines of the menu, and after the last.
pub const LINE_END: &'static str = "\n";

/// A position of the menu in decimal digits.
pub open spec fn position_text(position: int) -> Seq<char> {
    if position == 1 {
        "1"@
    } else if position == 2 {
        "2"@
    } else if position == 3 {
        "3"@
    } else if position == 4 {
        "4"@
    } else if position == 5 {
        "5"@
    } else if position == 6 {
        "6"@
    } else if position == 7 {
        "7"@
    } else if position == 8 {
        "8"@
    } else if position == 9 {
        "9"@
    } else {
        "10"@
    }
}

/// The line of the menu for the command at `position`: the position in
/// square brackets, a space, and what the menu says of the command.
pub open spec fn menu_line(position: int) -> Seq<char> {
    "["@ + position_text(position) + "] "@ + command_of(position)->0.label()
}

/// The lines of the menu for the positions from one to `count`.
pub open spec fn menu_lines(count: int) -> Seq<Seq<char>> {
    Seq::new(count as nat, |i: int| menu_line(i + 1))
}

/// The menu: its heading and one line for each command, in order.
pub open spec fn menu() -> Seq<char> {
    MENU_HEADING@ + join(menu_lines(COMMAND_COUNT as int), LINE_END@) + LINE_END@
}

fn position_digits(position: usize) -> (digits: &'static str)
    requires
        1 <= position <= COMMAND_COUNT,
    ensures
        digits@ == position_text(position as int),
{
    match position {
        1 => "1",
        2 => "2",
        3 => "3",
        4 => "4",
        5 => "5",
        6 => "6",
        7 => "7",
        8 => "8",
        9 => "9",
        _ => "10",
    }
}

/// The text of the menu.
pub fn menu_text() -> (text: String)
    ensures
        text@ == menu(),
{
    let mut lines: Vec<String> = Vec::new();
    let mut position: usize = 1;
    while position <= COMMAND_COUNT
        invariant
            1 <= position <= COMMAND_COUNT + 1,
            texts(lines@) == menu_lines(position - 1),
        decreases COMMAND_COUNT + 1 - position,
    {
        let ghost before = texts(lines@);
        let mut line = String::from_str("[");
        line.append(position_digits(position));
        line.append("] ");
        match command_at(position) {
            Some(command) => {
                let label = command.to_string();
                line.append(label.as_str());
            },
            None => {},
        }
        assert(line@ == menu_line(position as int));
        lines.push(line);
        assert(texts(lines@) == before.push(menu_line(position as int)));
        assert(menu_lines(position as int) == menu_lines(position - 1).push(
            menu_line(position as int),
        ));
        position += 1;
    }
    let mut text = String::from_str(MENU_HEADING);
    let body = join_strings(&lines, LINE_END);
    text.append(body.as_str());
    text.append(LINE_END);
    text
}

} // verus!
