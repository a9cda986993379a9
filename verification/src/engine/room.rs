//! Places of the world, with their exits and the items that lie in them.

use vstd::prelude::*;
use crate::table::Table;

verus! {

/// A place of the world. `exits` leads from a direction's name to the
/// identifier of the room that lies there; `items` holds the identifiers of
/// the items in the room, in the order in which they are listed.
#[derive(Debug, Clone)]
pub struct Room {
    pub title: String,
    pub description: String,
    pub exits: Table<String>,
    pub items: Vec<String>,
}

/// A room as plain data. `exit_names` lists the directions of `exits` in
/// the order in which the room shows them.
pub struct RoomView {
    pub title: Seq<char>,
    pub description: Seq<char>,
    pub exits: Map<Seq<char>, Seq<char>>,
    pub exit_names: Seq<Seq<char>>,
    pub items: Seq<Seq<char>>,
}

impl RoomView {
    /// Whether the exit names are the directions of the exits, each of them
    /// once. This holds of every room.
    pub open spec fn exits_listed_once(self) -> bool {
        &&& self.exit_names.no_duplicates()
        &&& forall|direction: Seq<char>|
            self.exit_names.contains(direction) <==> self.exits.contains_key(direction)
    }
}

impl View for Room {
    type V = RoomView;

    open spec fn view(&self) -> RoomView {
        RoomView {
            title: self.title@,
            description: self.description@,
            exits: self.exits@.map_values(|target: String| target@),
            exit_names: self.exits.key_order(),
            items: crate::text::views(self.items@),
        }
    }
}

} // verus!
