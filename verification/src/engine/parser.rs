//! The command parser: from a line of input to a command.

use vstd::prelude::*;
use crate::text::{lowercase, same_text, split_whitespace, to_lowercase, views, words};

verus! {

/// What a player can ask for. The parser never yields `Save`, `Load` or
/// `ListSaves`: the engine keeps no sessions, and answers them as it answers
/// `Unknown`.
#[derive(Debug)]
pub enum Command {
    Look,
    Go(String),
    North,
    South,
    East,
    West,
    Take(String),
    Drop(String),
    Inventory,
    Save(String),
    Load(String),
    ListSaves,
    Help,
    Unknown,
}

/// A command with its argument as plain text.
pub enum CommandView {
    Look,
    Go(Seq<char>),
    North,
    South,
    East,
    West,
    Take(Seq<char>),
    Drop(Seq<char>),
    Inventory,
    Save(Seq<char>),
    Load(Seq<char>),
    ListSaves,
    Help,
    Unknown,
}

impl View for Command {
    type V = CommandView;

    open spec fn view(&self) -> CommandView {
        match self {
            Command::Look => CommandView::Look,
            Command::Go(direction) => CommandView::Go(direction@),
            Command::North => CommandView::North,
            Command::South => CommandView::South,
            Command::East => CommandView::East,
            Command::West => CommandView::West,
            Command::Take(item) => CommandView::Take(item@),
            Command::Drop(item) => CommandView::Drop(item@),
            Command::Inventory => CommandView::Inventory,
            Command::Save(file) => CommandView::Save(file@),
            Command::Load(file) => CommandView::Load(file@),
            Command::ListSaves => CommandView::ListSaves,
            Command::Help => CommandView::Help,
            Command::Unknown => CommandView::Unknown,
        }
    }
}

impl CommandView {
    /// Whether the command asks to move: `Go` or one of the four directions.
    pub open spec fn is_movement(self) -> bool {
        self is Go || self is North || self is South || self is East || self is West
    }
}

/// The command that a verb calls for. `verb` is the first word in lower
/// case; `words` are all the words of the line as the player wrote them,
/// the verb among them, so that an argument is `words[1]` or, after
/// `pick up`, `words[2]`.
pub open spec fn command_of(verb: Seq<char>, words: Seq<Seq<char>>) -> CommandView {
    if verb == "look"@ || verb == "l"@ || verb == "examine"@ || verb == "x"@ {
        CommandView::Look
    } else if verb == "go"@ {
        if words.len() > 1 {
            CommandView::Go(words[1])
        } else {
            CommandView::Unknown
        }
    } else if verb == "n"@ || verb == "north"@ {
        CommandView::North
    } else if verb == "s"@ || verb == "south"@ {
        CommandView::South
    } else if verb == "e"@ || verb == "east"@ {
        CommandView::East
    } else if verb == "w"@ || verb == "west"@ {
        CommandView::West
    } else if verb == "take"@ || verb == "get"@ || verb == "pick"@ {
        if words.len() > 1 {
            if verb == "pick"@ && words.len() > 2 && words[1] == "up"@ {
                CommandView::Take(words[2])
            } else {
                CommandView::Take(words[1])
            }
        } else {
            CommandView::Unknown
        }
    } else if verb == "drop"@ {
        if words.len() > 1 {
            CommandView::Drop(words[1])
        } else {
            CommandView::Unknown
        }
    } else if verb == "inventory"@ || verb == "i"@ || verb == "inv"@ {
        CommandView::Inventory
    } else if verb == "help"@ || verb == "h"@ || verb == "?"@ {
        CommandView::Help
    } else {
        CommandView::Unknown
    }
}

/// The command that a line of input stands for: the line is split on
/// whitespace, the first word is the verb whatever its case, and a line
/// without words is `Unknown`.
pub open spec fn parse(input: Seq<char>) -> CommandView {
    let words = words(input);
    if words.len() == 0 {
        CommandView::Unknown
    } else {
        command_of(lowercase(words[0]), words)
    }
}

/// The command for a verb that is already in lower case and the words of
/// the line it came from.
pub fn command_from_words(verb: &str, words: &Vec<String>) -> (cmd: Command)
    ensures
        cmd@ == command_of(verb@, views(words@)),
{
    let has_argument = words.len() > 1;
    if same_text(verb, "look") || same_text(verb, "l") || same_text(verb, "examine") || same_text(
        verb,
        "x",
    ) {
        Command::Look
    } else if same_text(verb, "go") {
        if has_argument {
            Command::Go(words[1].clone())
        } else {
            Command::Unknown
        }
    } else if same_text(verb, "n") || same_text(verb, "north") {
        Command::North
    } else if same_text(verb, "s") || same_text(verb, "south") {
        Command::South
    } else if same_text(verb, "e") || same_text(verb, "east") {
        Command::East
    } else if same_text(verb, "w") || same_text(verb, "west") {
        Command::West
    } else if same_text(verb, "take") || same_text(verb, "get") || same_text(verb, "pick") {
        if has_argument {
            if same_text(verb, "pick") && words.len() > 2 && same_text(words[1].as_str(), "up") {
                Command::Take(words[2].clone())
            } else {
                Command::Take(words[1].clone())
            }
        } else {
            Command::Unknown
        }
    } else if same_text(verb, "drop") {
        if has_argument {
            Command::Drop(words[1].clone())
        } else {
            Command::Unknown
        }
    } else if same_text(verb, "inventory") || same_text(verb, "i") || same_text(verb, "inv") {
        Command::Inventory
    } else if same_text(verb, "help") || same_text(verb, "h") || same_text(verb, "?") {
        Command::Help
    } else {
        Command::Unknown
    }
}

/// Parses one line of input. Never fails: a line that is no command is
/// `Unknown`.
pub fn parse_command(input: &str) -> (cmd: Command)
    ensures
        cmd@ == parse(input@),
{
    let words = split_whitespace(input);
    if words.len() == 0 {
        return Command::Unknown;
    }
    let verb = to_lowercase(words[0].as_str());
    command_from_words(verb.as_str(), &words)
}

/// Parsing depends on the line alone: two commands parsed from the same
/// line are equal.
pub proof fn lemma_parse_deterministic(first: Command, second: Command, input: Seq<char>)
    requires
        first@ == parse(input),
        second@ == parse(input),
    ensures
        first@ == second@,
{
}

} // verus!
