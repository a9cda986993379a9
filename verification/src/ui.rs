//! The terminal front end, as far as it decides anything: what it keeps of
//! a line that was read, and the texts it shows.

use vstd::prelude::*;
use crate::engine::game::GameError;
use crate::text::{same_text, trim, trimmed, views};
use crate::ui::input_handler::{InputHandler, InputHandlerView};

pub mod input_handler;

verus! {

/// The terminal of one session.
pub struct TerminalUI {
    input_handler: InputHandler,
}

impl View for TerminalUI {
    type V = InputHandlerView;

    closed spec fn view(&self) -> InputHandlerView {
        self.input_handler@
    }
}

/// The line of signs above and below the welcome.
pub open spec fn rule_text() -> Seq<char> {
    "========================================="@
}

/// The welcome to a story, between two rules.
pub open spec fn welcome_text(title: Seq<char>) -> Seq<char> {
    rule_text() + "\n    Welcome to: "@ + title + "\n"@ + rule_text()
}

/// Writes the welcome to the story called `title`.
pub fn welcome(title: &str) -> (text: String)
    ensures
        text@ == welcome_text(title@),
{
    let mut text = "=========================================".to_owned();
    text.append("\n    Welcome to: ");
    text.append(title);
    text.append("\n");
    text.append("=========================================");
    text
}

/// A colour of the terminal.
#[derive(Debug, Clone, Copy, PartialEq, Eq, Structural)]
pub enum Tint {
    Blue,
    Magenta,
    Green,
    Yellow,
    White,
    Rgb { r: u8, g: u8, b: u8 },
}

/// The colour of a room's title, by the mood of the room.
pub open spec fn title_tint_of(atmosphere: Seq<char>) -> Tint {
    if atmosphere == "mysterious"@ || atmosphere == "eerie"@ {
        Tint::Blue
    } else if atmosphere == "awe-inspiring"@ || atmosphere == "transcendent"@ {
        Tint::Magenta
    } else if atmosphere == "warm"@ || atmosphere == "friendly"@ {
        Tint::Green
    } else {
        Tint::White
    }
}

/// The colour of a room's description, by the light in the room.
pub open spec fn description_tint_of(lighting: Seq<char>) -> Tint {
    if lighting == "dim_blue"@ {
        Tint::Blue
    } else if lighting == "bright"@ {
        Tint::Yellow
    } else if lighting == "multicolor"@ {
        Tint::Rgb { r: 100, g: 200, b: 255 }
    } else {
        Tint::White
    }
}

/// Picks the colour of a room's title.
pub fn title_tint(atmosphere: &str) -> (tint: Tint)
    ensures
        tint == title_tint_of(atmosphere@),
{
    if same_text(atmosphere, "mysterious") || same_text(atmosphere, "eerie") {
        Tint::Blue
    } else if same_text(atmosphere, "awe-inspiring") || same_text(atmosphere, "transcendent") {
        Tint::Magenta
    } else if same_text(atmosphere, "warm") || same_text(atmosphere, "friendly") {
        Tint::Green
    } else {
        Tint::White
    }
}

/// Picks the colour of a room's description.
pub fn description_tint(lighting: &str) -> (tint: Tint)
    ensures
        tint == description_tint_of(lighting@),
{
    if same_text(lighting, "dim_blue") {
        Tint::Blue
    } else if same_text(lighting, "bright") {
        Tint::Yellow
    } else if same_text(lighting, "multicolor") {
        Tint::Rgb { r: 100, g: 200, b: 255 }
    } else {
        Tint::White
    }
}

/// Whether a message is written out character by character: one of fewer
/// than 200 bytes is.
pub fn is_typed_out(message: &str) -> (typed: bool)
    ensures
        typed == (message.len() < 200),
{
    message.len() < 200
}

/// The pause after a character that is written out, in milliseconds: none
/// after a space, a line break or a mark that ends a sentence, 15 after any
/// other.
pub open spec fn pause_after(c: char) -> u64 {
    if c == ' ' || c == '\n' || c == '.' || c == '!' || c == '?' {
        0
    } else {
        15
    }
}

/// The pause after `c`, in milliseconds.
pub fn typing_pause(c: char) -> (millis: u64)
    ensures
        millis == pause_after(c),
{
    if c == ' ' || c == '\n' || c == '.' || c == '!' || c == '?' {
        0
    } else {
        15
    }
}

/// A message of the fight, behind its label.
pub open spec fn combat_text(message: Seq<char>) -> Seq<char> {
    "COMBAT: "@ + message
}

/// Writes a message of the fight behind its label.
pub fn combat_line(message: &str) -> (line: String)
    ensures
        line@ == combat_text(message@),
{
    let mut line = "COMBAT: ".to_owned();
    line.append(message);
    line
}

impl TerminalUI {
    /// A terminal that has read nothing yet. This never fails.
    pub fn new() -> (made: Result<Self, GameError>)
        ensures
            made is Ok,
            made->Ok_0@ == InputHandlerView::empty(),
    {
        Ok(TerminalUI { input_handler: InputHandler::new() })
    }

    /// Takes in a line that was read: the line without the whitespace at
    /// its ends is handed back, and goes to the history unless it is empty.
    pub fn accept_input(&mut self, raw: &str) -> (input: String)
        ensures
            input@ == trimmed(raw@),
            final(self)@ == (if trimmed(raw@).len() == 0 {
                old(self)@
            } else {
                InputHandlerView { history: old(self)@.history.push(trimmed(raw@)), ..old(self)@ }
            }),
    {
        let input = trim(raw);
        if !input.as_str().is_empty() {
            self.input_handler.add_to_history(input.as_str());
        }
        input
    }

    /// Replaces the names that matter where the player stands.
    pub fn update_context(&mut self, items: Vec<String>, npcs: Vec<String>, exits: Vec<String>)
        ensures
            final(self)@ == (InputHandlerView {
                history: old(self)@.history,
                items: views(items@),
                npcs: views(npcs@),
                exits: views(exits@),
            }),
    {
        self.input_handler.update_context(items, npcs, exits);
    }

    /// What the terminal remembers.
    pub fn input_handler(&self) -> (handler: &InputHandler)
        ensures
            handler@ == self@,
    {
        &self.input_handler
    }
}

} // verus!
