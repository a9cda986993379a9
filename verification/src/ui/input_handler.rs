//! What the terminal remembers of the player's input and of the place the
//! player is in.

use vstd::prelude::*;
use crate::text::views;

verus! {

/// The lines the player has entered, oldest first, and the names that
/// matter where the player stands: items, characters and exits.
pub struct InputHandler {
    history: Vec<String>,
    items: Vec<String>,
    npcs: Vec<String>,
    exits: Vec<String>,
}

/// An input handler as plain data.
pub struct InputHandlerView {
    pub history: Seq<Seq<char>>,
    pub items: Seq<Seq<char>>,
    pub npcs: Seq<Seq<char>>,
    pub exits: Seq<Seq<char>>,
}

impl View for InputHandler {
    type V = InputHandlerView;

    closed spec fn view(&self) -> InputHandlerView {
        InputHandlerView {
            history: views(self.history@),
            items: views(self.items@),
            npcs: views(self.npcs@),
            exits: views(self.exits@),
        }
    }
}

impl InputHandlerView {
    /// A handler that has seen no input and knows no names.
    pub open spec fn empty() -> InputHandlerView {
        InputHandlerView {
            history: Seq::empty(),
            items: Seq::empty(),
            npcs: Seq::empty(),
            exits: Seq::empty(),
        }
    }
}

impl InputHandler {
    /// A handler that has seen no input and knows no names.
    pub fn new() -> (handler: Self)
        ensures
            handler@ == InputHandlerView::empty(),
    {
        let handler = InputHandler {
            history: Vec::new(),
            items: Vec::new(),
            npcs: Vec::new(),
            exits: Vec::new(),
        };
        proof {
            assert(views(handler.history@) =~= Seq::<Seq<char>>::empty());
        }
        handler
    }

    /// Puts `input` at the end of the history.
    pub fn add_to_history(&mut self, input: &str)
        ensures
            final(self)@ == (InputHandlerView {
                history: old(self)@.history.push(input@),
                ..old(self)@
            }),
    {
        let line = input.to_owned();
        proof {
            assert(views(self.history@.push(line)) =~= views(self.history@).push(line@));
        }
        self.history.push(line);
    }

    /// Replaces the names that matter where the player stands.
    pub fn update_context(&mut self, items: Vec<String>, npcs: Vec<String>, exits: Vec<String>)
        ensures
            final(self)@ == (InputHandlerView {
                history: old(self)@.history,
                items: views(items@),
                npcs: views(npcs@),
                exits: views(exits@),
            }),
    {
        self.items = items;
        self.npcs = npcs;
        self.exits = exits;
    }

    /// The lines entered so far, oldest first.
    pub fn history(&self) -> (lines: &Vec<String>)
        ensures
            views(lines@) == self@.history,
    {
        &self.history
    }

    /// The names of the items where the player stands.
    pub fn items(&self) -> (names: &Vec<String>)
        ensures
            views(names@) == self@.items,
    {
        &self.items
    }

    /// The names of the characters where the player stands.
    pub fn npcs(&self) -> (names: &Vec<String>)
        ensures
            views(names@) == self@.npcs,
    {
        &self.npcs
    }

    /// The names of the exits where the player stands.
    pub fn exits(&self) -> (names: &Vec<String>)
        ensures
            views(names@) == self@.exits,
    {
        &self.exits
    }
}

} // verus!
