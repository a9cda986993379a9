//! Things that a player can take and drop.

use vstd::prelude::*;

verus! {

/// Something that can lie in a room or be carried. An item does not know
/// where it is: rooms and the inventory hold its identifier.
#[derive(Debug)]
pub struct Item {
    pub name: String,
    pub description: String,
}

/// What an item says of itself, as plain text.
pub struct ItemView {
    pub name: Seq<char>,
    pub description: Seq<char>,
}

impl View for Item {
    type V = ItemView;

    open spec fn view(&self) -> ItemView {
        ItemView { name: self.name@, description: self.description@ }
    }
}

impl Clone for Item {
    fn clone(&self) -> (copy: Self)
        ensures
            copy@ == self@,
    {
        Item { name: self.name.clone(), description: self.description.clone() }
    }
}

} // verus!
