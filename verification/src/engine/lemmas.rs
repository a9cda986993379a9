//! What holds of every session, proved from the meaning of the commands.

use vstd::prelude::*;
use crate::engine::game::{
    apply_model, drop_model, find_from, find_item, go_model, lemma_find_from, look_model,
    name_matches, no_exit_text, take_model, went_text, without, GameError, GameView,
};
use crate::engine::item::ItemView;
use crate::engine::parser::CommandView;

verus! {

/// A move in a direction in which the room has no exit is answered with the
/// same words every time, is no error, and leaves the session as it was.
pub proof fn lemma_go_without_exit(game: GameView, direction: Seq<char>)
    requires
        game.room_exists(),
        !game.room().exits.contains_key(direction),
    ensures
        go_model(game, direction).reply == Ok::<Seq<char>, GameError>(no_exit_text()),
        go_model(game, direction).state == game,
{
}

/// A move through an exit that leads to a room of the world puts the
/// player in exactly that room and changes nothing else.
pub proof fn lemma_go_through_exit(game: GameView, direction: Seq<char>)
    requires
        game.room_exists(),
        game.room().exits.contains_key(direction),
        game.story.rooms.contains_key(game.room().exits[direction]),
    ensures
        go_model(game, direction).state.current_room == game.room().exits[direction],
        go_model(game, direction).state.story == game.story,
        go_model(game, direction).state.inventory == game.inventory,
        go_model(game, direction).reply == Ok::<Seq<char>, GameError>(went_text(direction)),
{
}

/// A move through an exit that leads nowhere is `RoomNotFound` and leaves
/// the player where they were.
pub proof fn lemma_go_through_dangling_exit(game: GameView, direction: Seq<char>)
    requires
        game.room_exists(),
        game.room().exits.contains_key(direction),
        !game.story.rooms.contains_key(game.room().exits[direction]),
    ensures
        go_model(game, direction).reply == Err::<Seq<char>, GameError>(GameError::RoomNotFound),
        go_model(game, direction).state == game,
{
}

/// Looking changes nothing, so looking twice in a row gives the same text
/// both times.
pub proof fn lemma_look_twice(game: GameView)
    ensures
        apply_model(game, CommandView::Look).state == game,
        apply_model(apply_model(game, CommandView::Look).state, CommandView::Look).reply
            == apply_model(game, CommandView::Look).reply,
        apply_model(game, CommandView::Look).reply == look_model(game),
{
}

/// A command that does not move the player or an item leaves the whole
/// session as it was: what `Look` shows afterwards is what it showed before.
pub proof fn lemma_quiet_commands(game: GameView, command: CommandView)
    requires
        !command.is_movement(),
        !(command is Take),
        !(command is Drop),
    ensures
        apply_model(game, command).state == game,
{
}

/// A player who stands in a room of the world still does after any command.
pub proof fn lemma_room_stays_valid(game: GameView, command: CommandView)
    requires
        game.room_exists(),
    ensures
        apply_model(game, command).state.room_exists(),
{
}

/// No command adds a room to the world or takes one away, and no command
/// changes a room's title, description or exits, or any item.
pub proof fn lemma_world_keeps_shape(game: GameView, command: CommandView)
    ensures
        apply_model(game, command).state.story.rooms.dom() == game.story.rooms.dom(),
        apply_model(game, command).state.story.items == game.story.items,
        apply_model(game, command).state.story.title == game.story.title,
        apply_model(game, command).state.story.start_room == game.story.start_room,
        forall|id: Seq<char>| #[trigger]
            game.story.rooms.contains_key(id) ==> {
                let before = game.story.rooms[id];
                let after = apply_model(game, command).state.story.rooms[id];
                &&& after.title == before.title
                &&& after.description == before.description
                &&& after.exits == before.exits
                &&& after.exit_names == before.exit_names
            },
{
    let after = apply_model(game, command).state;
    assert(after.story.rooms.dom() =~= game.story.rooms.dom());
}

/// A failed command changes nothing.
pub proof fn lemma_failure_changes_nothing(game: GameView, command: CommandView)
    requires
        apply_model(game, command).reply is Err,
    ensures
        apply_model(game, command).state == game,
{
}

/// The player never carries an item twice.
pub proof fn lemma_inventory_stays_unique(game: GameView, command: CommandView)
    requires
        game.carries_each_once(),
    ensures
        apply_model(game, command).state.carries_each_once(),
{
    match command {
        CommandView::Take(query) => {
            if game.room_exists() {
                if let Some(at) = find_item(game.room().items, game.story.items, query) {
                    let id = game.room().items[at];
                    if !game.inventory.contains(id) {
                        lemma_push_no_duplicates(game.inventory, id);
                    }
                }
            }
        },
        CommandView::Drop(query) => {
            if let Some(at) = find_item(game.inventory, game.story.items, query) {
                lemma_find_from(game.inventory, game.story.items, query, 0);
                lemma_remove_no_duplicates(game.inventory, at, query);
            }
        },
        _ => {},
    }
}

/// A sequence with `last` at its end holds what it held before, and `last`.
proof fn lemma_push_contains(ids: Seq<Seq<char>>, last: Seq<char>, x: Seq<char>)
    ensures
        ids.push(last).contains(x) <==> ids.contains(x) || x == last,
{
    let all = ids.push(last);
    if all.contains(x) {
        let k = choose|k: int| 0 <= k < all.len() && all[k] == x;
        if k < ids.len() {
            assert(ids[k] == x);
        }
    }
    if ids.contains(x) {
        let k = choose|k: int| 0 <= k < ids.len() && ids[k] == x;
        assert(all[k] == x);
    }
    if x == last {
        assert(all[ids.len() as int] == x);
    }
}

/// What is left after every occurrence of `id` is taken out of `ids`: the
/// others, and `id` no more.
pub proof fn lemma_without(ids: Seq<Seq<char>>, id: Seq<char>, x: Seq<char>)
    ensures
        without(ids, id).contains(x) <==> ids.contains(x) && x != id,
    decreases ids.len(),
{
    if ids.len() > 0 {
        let front = ids.drop_last();
        lemma_without(front, id, x);
        assert(ids =~= front.push(ids.last()));
        lemma_push_contains(front, ids.last(), x);
        if ids.last() != id {
            lemma_push_contains(without(front, id), ids.last(), x);
        }
    }
}

/// Where nothing in `ids` answers to `query`, the first answer in `ids`
/// with `id` at its end is `id` itself, if it answers.
proof fn lemma_find_after_push(
    ids: Seq<Seq<char>>,
    id: Seq<char>,
    items: Map<Seq<char>, ItemView>,
    query: Seq<char>,
    from: int,
)
    requires
        0 <= from <= ids.len(),
        find_from(ids, items, query, from) is None,
        items.contains_key(id),
        name_matches(items[id].name, query),
    ensures
        find_from(ids.push(id), items, query, from) == Some(ids.len() as int),
    decreases ids.len() - from,
{
    let grown = ids.push(id);
    if from < ids.len() {
        assert(grown[from] == ids[from]);
        lemma_find_after_push(ids, id, items, query, from + 1);
    } else {
        assert(grown[from] == id);
    }
}

/// Taking an item and dropping it again by the same name, with no command
/// between, puts it back in the room: the room holds the same items as
/// before the take, though the item may now stand at the end of the list,
/// and the player carries what they carried before. This is stated for a
/// player who carries nothing that answers to the name, since the drop lets
/// go of the first carried item that does.
pub proof fn lemma_take_then_drop(game: GameView, query: Seq<char>)
    requires
        take_model(game, query).reply is Ok,
        find_item(game.inventory, game.story.items, query) is None,
    ensures
        ({
            let taken = take_model(game, query).state;
            let dropped = drop_model(taken, query);
            &&& dropped.reply is Ok
            &&& dropped.state.current_room == game.current_room
            &&& dropped.state.room_exists()
            &&& dropped.state.room().items.to_set() == game.room().items.to_set()
            &&& dropped.state.inventory == game.inventory
        }),
{
    let items = game.story.items;
    let at = find_item(game.room().items, items, query)->Some_0;
    lemma_find_from(game.room().items, items, query, 0);
    let id = game.room().items[at];
    lemma_find_from(game.inventory, items, query, 0);
    if game.inventory.contains(id) {
        let k = choose|k: int| 0 <= k < game.inventory.len() && game.inventory[k] == id;
        assert(items.contains_key(game.inventory[k]));
    }
    let taken = take_model(game, query).state;
    assert(taken.inventory == game.inventory.push(id));
    lemma_find_after_push(game.inventory, id, items, query, 0);
    let dropped = drop_model(taken, query).state;
    assert(dropped.inventory =~= game.inventory);
    let left = without(game.room().items, id);
    let back = left.push(id);
    assert(dropped.room().items == back);
    assert forall|x: Seq<char>| back.to_set().contains(x) <==> game.room().items.to_set().contains(
        x,
    ) by {
        lemma_without(game.room().items, id, x);
        lemma_push_contains(left, id, x);
        assert(game.room().items.contains(id));
    }
    assert(back.to_set() =~= game.room().items.to_set());
}

/// Whether the item `id` lies in the room `room`.
pub open spec fn lies_in(game: GameView, room: Seq<char>, id: Seq<char>) -> bool {
    game.story.rooms.contains_key(room) && game.story.rooms[room].items.contains(id)
}

/// Whether the item `id` is somewhere: carried, or in a room.
pub open spec fn is_placed(game: GameView, id: Seq<char>) -> bool {
    game.inventory.contains(id) || exists|room: Seq<char>| lies_in(game, room, id)
}

/// Whether every item is in one place at most: no item is carried twice,
/// listed twice in a room, carried and in a room, or in two rooms.
pub open spec fn placed_once(game: GameView) -> bool {
    &&& game.inventory.no_duplicates()
    &&& forall|room: Seq<char>| #[trigger]
        game.story.rooms.contains_key(room) ==> game.story.rooms[room].items.no_duplicates()
    &&& forall|room: Seq<char>, id: Seq<char>| #[trigger]
        lies_in(game, room, id) ==> !game.inventory.contains(id)
    &&& forall|a: Seq<char>, b: Seq<char>, id: Seq<char>|
        #[trigger] lies_in(game, a, id) && #[trigger] lies_in(game, b, id) ==> a == b
}

/// Taking every occurrence of an identifier out of a list without
/// repetitions leaves a list without repetitions.
proof fn lemma_without_no_duplicates(ids: Seq<Seq<char>>, id: Seq<char>)
    requires
        ids.no_duplicates(),
    ensures
        without(ids, id).no_duplicates(),
    decreases ids.len(),
{
    if ids.len() > 0 {
        let front = ids.drop_last();
        let last = ids.last();
        assert(front.no_duplicates()) by {
            assert forall|i: int, j: int| 0 <= i < front.len() && 0 <= j < front.len() && i != j
                implies front[i] != front[j] by {
                assert(ids[i] != ids[j]);
            }
        }
        lemma_without_no_duplicates(front, id);
        if last != id {
            let kept = without(front, id);
            lemma_without(front, id, last);
            if front.contains(last) {
                let k = choose|k: int| 0 <= k < front.len() && front[k] == last;
                assert(ids[k] == ids[ids.len() - 1]);
            }
            let all = kept.push(last);
            assert forall|i: int, j: int| 0 <= i < all.len() && 0 <= j < all.len() && i != j
                implies all[i] != all[j] by {
                if i < kept.len() && j < kept.len() {
                } else if i < kept.len() {
                    assert(kept.contains(kept[i]));
                } else {
                    assert(kept.contains(kept[j]));
                }
            }
        }
    }
}

/// A list without repetitions to which something new is added has none.
proof fn lemma_push_no_duplicates(ids: Seq<Seq<char>>, id: Seq<char>)
    requires
        ids.no_duplicates(),
        !ids.contains(id),
    ensures
        ids.push(id).no_duplicates(),
{
    let all = ids.push(id);
    assert forall|i: int, j: int| 0 <= i < all.len() && 0 <= j < all.len() && i != j implies all[i]
        != all[j] by {
        if i < ids.len() && j < ids.len() {
        } else if i < ids.len() {
            assert(ids.contains(ids[i]));
        } else {
            assert(ids.contains(ids[j]));
        }
    }
}

/// What is left of a list without repetitions when one position is taken
/// out: the others, and what stood there no more.
proof fn lemma_remove_no_duplicates(ids: Seq<Seq<char>>, at: int, x: Seq<char>)
    requires
        ids.no_duplicates(),
        0 <= at < ids.len(),
    ensures
        ids.remove(at).no_duplicates(),
        ids.remove(at).contains(x) <==> ids.contains(x) && x != ids[at],
{
    let rest = ids.remove(at);
    assert forall|i: int, j: int| 0 <= i < rest.len() && 0 <= j < rest.len() && i != j implies rest[i]
        != rest[j] by {
        let a = if i < at { i } else { i + 1 };
        let b = if j < at { j } else { j + 1 };
        assert(rest[i] == ids[a]);
        assert(rest[j] == ids[b]);
    }
    if rest.contains(x) {
        let k = choose|k: int| 0 <= k < rest.len() && rest[k] == x;
        let a = if k < at { k } else { k + 1 };
        assert(ids[a] == x);
    }
    if ids.contains(x) && x != ids[at] {
        let k = choose|k: int| 0 <= k < ids.len() && ids[k] == x;
        let a = if k < at { k } else { k - 1 };
        assert(rest[a] == x);
    }
}

/// In a session in which every item is in one place at most, that is
/// still so after any command, and no item has come from nowhere or gone:
/// what was somewhere before the command is somewhere after it, and nothing
/// else is.
pub proof fn lemma_items_stay_in_one_place(game: GameView, command: CommandView)
    requires
        placed_once(game),
    ensures
        placed_once(apply_model(game, command).state),
        forall|id: Seq<char>|
            is_placed(apply_model(game, command).state, id) <==> is_placed(game, id),
{
    let after = apply_model(game, command).state;
    let here = game.current_room;
    let items = game.story.items;
    match command {
        CommandView::Take(query) if game.room_exists() => {
            if let Some(at) = find_item(game.room().items, items, query) {
                lemma_find_from(game.room().items, items, query, 0);
                let id = game.room().items[at];
                let left = without(game.room().items, id);
                assert(lies_in(game, here, id));
                lemma_without_no_duplicates(game.room().items, id);
                lemma_push_no_duplicates(game.inventory, id);
                assert(after.inventory == game.inventory.push(id));
                assert forall|room: Seq<char>, x: Seq<char>|
                    lies_in(after, room, x) <==> lies_in(game, room, x) && !(room == here && x
                        == id) by {
                    lemma_without(game.room().items, id, x);
                    if room != here && x == id && lies_in(game, room, x) {
                        assert(lies_in(game, here, id));
                    }
                }
                assert forall|x: Seq<char>|
                    after.inventory.contains(x) <==> game.inventory.contains(x) || x == id by {
                    lemma_push_contains(game.inventory, id, x);
                }
                assert forall|room: Seq<char>| #[trigger]
                    after.story.rooms.contains_key(room) implies after.story.rooms[room].items.no_duplicates() by {
                    if room != here {
                        assert(game.story.rooms.contains_key(room));
                    }
                }
                assert forall|room: Seq<char>, x: Seq<char>| #[trigger]
                    lies_in(after, room, x) implies !after.inventory.contains(x) by {
                    assert(lies_in(game, room, x));
                    if x == id {
                        assert(lies_in(game, here, id));
                    }
                }
                assert forall|a: Seq<char>, b: Seq<char>, x: Seq<char>|
                    #[trigger] lies_in(after, a, x) && #[trigger] lies_in(after, b, x) implies a
                    == b by {
                    assert(lies_in(game, a, x) && lies_in(game, b, x));
                }
                assert forall|x: Seq<char>| is_placed(after, x) <==> is_placed(game, x) by {
                    if is_placed(after, x) && !after.inventory.contains(x) {
                        let room = choose|room: Seq<char>| lies_in(after, room, x);
                        assert(lies_in(game, room, x));
                    }
                    if is_placed(game, x) && !game.inventory.contains(x) && x != id {
                        let room = choose|room: Seq<char>| lies_in(game, room, x);
                        assert(lies_in(after, room, x));
                    }
                }
            }
        },
        CommandView::Drop(query) if game.room_exists() => {
            if let Some(at) = find_item(game.inventory, items, query) {
                lemma_find_from(game.inventory, items, query, 0);
                let id = game.inventory[at];
                assert(game.inventory.contains(id));
                if game.room().items.contains(id) {
                    assert(lies_in(game, here, id));
                }
                lemma_push_no_duplicates(game.room().items, id);
                lemma_remove_no_duplicates(game.inventory, at, id);
                assert forall|room: Seq<char>, x: Seq<char>|
                    lies_in(after, room, x) <==> lies_in(game, room, x) || (room == here && x
                        == id) by {
                    lemma_push_contains(game.room().items, id, x);
                }
                assert forall|x: Seq<char>|
                    after.inventory.contains(x) <==> game.inventory.contains(x) && x != id by {
                    lemma_remove_no_duplicates(game.inventory, at, x);
                }
                assert forall|room: Seq<char>| #[trigger]
                    after.story.rooms.contains_key(room) implies after.story.rooms[room].items.no_duplicates() by {
                    if room != here {
                        assert(game.story.rooms.contains_key(room));
                    }
                }
                assert forall|room: Seq<char>, x: Seq<char>| #[trigger]
                    lies_in(after, room, x) implies !after.inventory.contains(x) by {
                    if x != id {
                        assert(lies_in(game, room, x));
                    }
                }
                assert forall|a: Seq<char>, b: Seq<char>, x: Seq<char>|
                    #[trigger] lies_in(after, a, x) && #[trigger] lies_in(after, b, x) implies a
                    == b by {
                    if x == id {
                        if a != here {
                            assert(lies_in(game, a, id));
                        }
                        if b != here {
                            assert(lies_in(game, b, id));
                        }
                    } else {
                        assert(lies_in(game, a, x) && lies_in(game, b, x));
                    }
                }
                assert forall|x: Seq<char>| is_placed(after, x) <==> is_placed(game, x) by {
                    if is_placed(after, x) && !after.inventory.contains(x) && x != id {
                        let room = choose|room: Seq<char>| lies_in(after, room, x);
                        assert(lies_in(game, room, x));
                    }
                    if is_placed(game, x) && !game.inventory.contains(x) {
                        let room = choose|room: Seq<char>| lies_in(game, room, x);
                        assert(lies_in(after, room, x));
                    }
                    if x == id {
                        assert(lies_in(after, here, id));
                    }
                }
            }
        },
        CommandView::Go(direction) => {
            lemma_moves_keep_places(game, direction);
        },
        CommandView::North => {
            lemma_moves_keep_places(game, "north"@);
        },
        CommandView::South => {
            lemma_moves_keep_places(game, "south"@);
        },
        CommandView::East => {
            lemma_moves_keep_places(game, "east"@);
        },
        CommandView::West => {
            lemma_moves_keep_places(game, "west"@);
        },
        _ => {},
    }
}

/// A move leaves every item where it is.
proof fn lemma_moves_keep_places(game: GameView, direction: Seq<char>)
    requires
        placed_once(game),
    ensures
        placed_once(go_model(game, direction).state),
        forall|id: Seq<char>|
            is_placed(go_model(game, direction).state, id) <==> is_placed(game, id),
{
    let after = go_model(game, direction).state;
    assert forall|room: Seq<char>, x: Seq<char>| lies_in(after, room, x) <==> lies_in(
        game,
        room,
        x,
    ) by {}
    assert forall|a: Seq<char>, b: Seq<char>, x: Seq<char>|
        #[trigger] lies_in(after, a, x) && #[trigger] lies_in(after, b, x) implies a == b by {
        assert(lies_in(game, a, x) && lies_in(game, b, x));
    }
    assert forall|room: Seq<char>, x: Seq<char>| #[trigger]
        lies_in(after, room, x) implies !after.inventory.contains(x) by {
        assert(lies_in(game, room, x));
    }
    assert forall|x: Seq<char>| is_placed(after, x) <==> is_placed(game, x) by {
        if is_placed(after, x) && !after.inventory.contains(x) {
            let room = choose|room: Seq<char>| lies_in(after, room, x);
            assert(lies_in(game, room, x));
        }
        if is_placed(game, x) && !game.inventory.contains(x) {
            let room = choose|room: Seq<char>| lies_in(game, room, x);
            assert(lies_in(after, room, x));
        }
    }
}

} // verus!
