//! The session: a world, the room the player stands in and what the player
//! carries, with one function for each thing a player can ask for.

use vstd::prelude::*;
use crate::engine::inventory::Inventory;
use crate::engine::item::ItemView;
use crate::engine::parser::{parse, parse_command, Command, CommandView};
use crate::engine::room::{Room, RoomView};
use crate::story::loader::{Story, StoryView};
use crate::text::{
    contains, is_substring, join, joined, lowercase, same_text, to_lowercase, trim, trimmed, views,
};

verus! {

/// Why a command could not be carried out.
#[derive(Debug, Clone, Copy, PartialEq, Eq, Structural)]
pub enum GameError {
    /// The player stands in a room that the world does not have.
    InvalidRoom,
    /// Nothing within reach goes by the name the player gave.
    ItemNotFound,
    /// An exit leads to a room that the world does not have.
    RoomNotFound,
}

impl GameError {
    /// The text of the error.
    pub open spec fn message(self) -> Seq<char> {
        match self {
            GameError::InvalidRoom => "Invalid room"@,
            GameError::ItemNotFound => "Item not found"@,
            GameError::RoomNotFound => "Room not found"@,
        }
    }

    /// The error as text.
    pub fn to_string(&self) -> (text: String)
        ensures
            text@ == self.message(),
    {
        match self {
            GameError::InvalidRoom => "Invalid room".to_owned(),
            GameError::ItemNotFound => "Item not found".to_owned(),
            GameError::RoomNotFound => "Room not found".to_owned(),
        }
    }
}

/// A session: the world, the identifier of the room the player stands in,
/// and the identifiers of the items the player carries, oldest first.
pub struct Game {
    story: Story,
    current_room: String,
    inventory: Inventory,
}

/// A session as plain data.
pub struct GameView {
    pub story: StoryView,
    pub current_room: Seq<char>,
    pub inventory: Seq<Seq<char>>,
}

/// What a command leaves behind: the session after it, and the text for the
/// player or the reason why nothing was done.
pub struct Outcome {
    pub state: GameView,
    pub reply: Result<Seq<char>, GameError>,
}

impl GameView {
    /// Whether the player stands in a room of the world.
    pub open spec fn room_exists(self) -> bool {
        self.story.rooms.contains_key(self.current_room)
    }

    /// The room the player stands in.
    pub open spec fn room(self) -> RoomView
        recommends
            self.room_exists(),
    {
        self.story.rooms[self.current_room]
    }

    /// The session with other items in the room the player stands in.
    pub open spec fn with_room_items(self, items: Seq<Seq<char>>) -> GameView {
        GameView {
            story: StoryView {
                rooms: self.story.rooms.insert(
                    self.current_room,
                    RoomView { items: items, ..self.room() },
                ),
                ..self.story
            },
            ..self
        }
    }

    /// Whether no identifier occurs twice in the inventory. This holds of
    /// every session.
    pub open spec fn carries_each_once(self) -> bool {
        self.inventory.no_duplicates()
    }
}

/// The reply of a command as plain text.
pub open spec fn reply_view(reply: Result<String, GameError>) -> Result<Seq<char>, GameError> {
    match reply {
        Ok(text) => Ok(text@),
        Err(error) => Err(error),
    }
}

/// The confirmation of a move.
pub open spec fn went_text(direction: Seq<char>) -> Seq<char> {
    "You go "@ + direction + "."@
}

/// The answer to a move in a direction without an exit: the same words for
/// every direction and every room.
pub open spec fn no_exit_text() -> Seq<char> {
    "You can't go that way."@
}

/// Moving in a direction. Without an exit of that name the player stays and
/// is told so, which is no error. An exit to a room that the world does not
/// have is `RoomNotFound`, and the player stays. Otherwise the player stands
/// in the room the exit leads to.
pub open spec fn go_model(game: GameView, direction: Seq<char>) -> Outcome {
    if !game.room_exists() {
        Outcome { state: game, reply: Err(GameError::InvalidRoom) }
    } else if !game.room().exits.contains_key(direction) {
        Outcome { state: game, reply: Ok(no_exit_text()) }
    } else if !game.story.rooms.contains_key(game.room().exits[direction]) {
        Outcome { state: game, reply: Err(GameError::RoomNotFound) }
    } else {
        Outcome {
            state: GameView { current_room: game.room().exits[direction], ..game },
            reply: Ok(went_text(direction)),
        }
    }
}

/// The names of the items among `ids` that the world knows, in the order of
/// `ids`. An identifier without an item is passed over.
pub open spec fn known_names(ids: Seq<Seq<char>>, items: Map<Seq<char>, ItemView>) -> Seq<
    Seq<char>,
>
    decreases ids.len(),
{
    if ids.len() == 0 {
        Seq::empty()
    } else {
        let before = known_names(ids.drop_last(), items);
        if items.contains_key(ids.last()) {
            before.push(items[ids.last()].name)
        } else {
            before
        }
    }
}

/// What the player sees of a room: its title and its description, then the
/// names of the items that lie in it, then the names of its exits. A room
/// without items shows no list of items, one without exits no list of exits.
pub open spec fn room_text(room: RoomView, items: Map<Seq<char>, ItemView>) -> Seq<char> {
    let seen = if room.items.len() > 0 {
        "\n\nYou see: "@ + joined(known_names(room.items, items), ", "@)
    } else {
        Seq::empty()
    };
    let exits = if room.exit_names.len() > 0 {
        "\n\nExits: "@ + joined(room.exit_names, ", "@)
    } else {
        Seq::empty()
    };
    "\n"@ + room.title + "\n"@ + room.description + seen + exits
}

/// Looking around: the text of the room the player stands in.
pub open spec fn look_model(game: GameView) -> Result<Seq<char>, GameError> {
    if game.room_exists() {
        Ok(room_text(game.room(), game.story.items))
    } else {
        Err(GameError::InvalidRoom)
    }
}

/// One line for each name, each led in by a line break and a dash.
pub open spec fn bullet_lines(names: Seq<Seq<char>>) -> Seq<char>
    decreases names.len(),
{
    if names.len() == 0 {
        Seq::empty()
    } else {
        bullet_lines(names.drop_last()) + "\n- "@ + names.last()
    }
}

/// What the player carries, as text.
pub open spec fn inventory_model(game: GameView) -> Seq<char> {
    if game.inventory.len() == 0 {
        "Your inventory is empty. :0"@
    } else {
        "You are carrying:"@ + bullet_lines(known_names(game.inventory, game.story.items))
    }
}

/// The text that explains the commands.
pub open spec fn help_text() -> Seq<char> {
    "Available commands:\n- look: Look around the current room\n- go [direction]: Move in a direction (north, south, east, west)\n- n/s/e/w: Short forms for directions\n- take [item]: Pick up an item\n- drop [item]: Drop an item\n- inventory: Check your inventory\n- help: Show this help\n- quit: Exit the game\n\nExample: 'go north' or 'take key' :D"@
}

/// The answer to a line that is no command.
pub open spec fn unknown_text() -> Seq<char> {
    "I don't understand that command. Type 'help' for available commands. :0"@
}

/// Whether an item of this name answers to `query`: the query occurs in the
/// name, both taken in lower case.
pub open spec fn name_matches(name: Seq<char>, query: Seq<char>) -> bool {
    is_substring(lowercase(query), lowercase(name))
}

/// The position, at or after `from`, of the first identifier in `ids` whose
/// item the world knows and whose name answers to `query`.
pub open spec fn find_from(
    ids: Seq<Seq<char>>,
    items: Map<Seq<char>, ItemView>,
    query: Seq<char>,
    from: int,
) -> Option<int>
    decreases ids.len() - from,
{
    if !(0 <= from < ids.len()) {
        None
    } else if items.contains_key(ids[from]) && name_matches(items[ids[from]].name, query) {
        Some(from)
    } else {
        find_from(ids, items, query, from + 1)
    }
}

/// The position of the first identifier in `ids` that answers to `query`.
pub open spec fn find_item(
    ids: Seq<Seq<char>>,
    items: Map<Seq<char>, ItemView>,
    query: Seq<char>,
) -> Option<int> {
    find_from(ids, items, query, 0)
}

/// What is found is in range, known to the world and answers to the query,
/// and nothing before it does.
pub proof fn lemma_find_from(
    ids: Seq<Seq<char>>,
    items: Map<Seq<char>, ItemView>,
    query: Seq<char>,
    from: int,
)
    requires
        0 <= from,
    ensures
        match find_from(ids, items, query, from) {
            Some(at) => {
                &&& from <= at < ids.len()
                &&& items.contains_key(ids[at])
                &&& name_matches(items[ids[at]].name, query)
                &&& forall|k: int|
                    from <= k < at ==> !(items.contains_key(#[trigger] ids[k]) && name_matches(
                        items[ids[k]].name,
                        query,
                    ))
            },
            None => forall|k: int|
                from <= k < ids.len() ==> !(items.contains_key(#[trigger] ids[k]) && name_matches(
                    items[ids[k]].name,
                    query,
                )),
        },
    decreases ids.len() - from,
{
    if from < ids.len() && !(items.contains_key(ids[from]) && name_matches(
        items[ids[from]].name,
        query,
    )) {
        lemma_find_from(ids, items, query, from + 1);
    }
}

/// The position, at or after `from`, of the first name in `names` in which
/// `query` occurs. A `None` among the names stands for an identifier
/// without an item, and answers to nothing.
pub open spec fn first_answer_from(
    names: Seq<Option<Seq<char>>>,
    query: Seq<char>,
    from: int,
) -> Option<int>
    decreases names.len() - from,
{
    if !(0 <= from < names.len()) {
        None
    } else if names[from] is Some && is_substring(query, names[from]->Some_0) {
        Some(from)
    } else {
        first_answer_from(names, query, from + 1)
    }
}

/// The position of the first name in `names` in which `query` occurs.
pub open spec fn first_answer(names: Seq<Option<Seq<char>>>, query: Seq<char>) -> Option<int> {
    first_answer_from(names, query, 0)
}

/// A name, if there is one, as plain text.
pub open spec fn text_of(name: Option<String>) -> Option<Seq<char>> {
    match name {
        Some(name) => Some(name@),
        None => None,
    }
}

/// The names in a list as plain text.
pub open spec fn texts(names: Seq<Option<String>>) -> Seq<Option<Seq<char>>> {
    Seq::new(names.len(), |i: int| text_of(names[i]))
}

/// For each of `ids`, the name of its item in lower case, or `None` where
/// the world has no such item.
pub open spec fn lowered_names(ids: Seq<Seq<char>>, items: Map<Seq<char>, ItemView>) -> Seq<
    Option<Seq<char>>,
> {
    Seq::new(
        ids.len(),
        |i: int|
            if items.contains_key(ids[i]) {
                Some(lowercase(items[ids[i]].name))
            } else {
                None
            },
    )
}

/// To find an item by name is to find the first answer among the names in
/// lower case to the query in lower case.
pub proof fn lemma_find_is_first_answer(
    ids: Seq<Seq<char>>,
    items: Map<Seq<char>, ItemView>,
    query: Seq<char>,
    from: int,
)
    requires
        0 <= from,
    ensures
        find_from(ids, items, query, from) == first_answer_from(
            lowered_names(ids, items),
            lowercase(query),
            from,
        ),
    decreases ids.len() - from,
{
    if from < ids.len() {
        lemma_find_is_first_answer(ids, items, query, from + 1);
    }
}

/// The position of the first name among `names` in which `query` occurs.
/// Names and query are compared as they are given: whoever wants case set
/// aside hands both over in lower case. A `None` among the names answers to
/// nothing.
pub fn first_match(names: &Vec<Option<String>>, query: &str) -> (found: Option<usize>)
    ensures
        match found {
            Some(at) => at < names.len() && first_answer(texts(names@), query@) == Some(at as int),
            None => first_answer(texts(names@), query@) is None,
        },
{
    let mut i: usize = 0;
    while i < names.len()
        invariant
            i <= names.len(),
            first_answer(texts(names@), query@) == first_answer_from(
                texts(names@),
                query@,
                i as int,
            ),
        decreases names.len() - i,
    {
        match &names[i] {
            Some(name) => {
                if contains(name.as_str(), query) {
                    return Some(i);
                }
            },
            None => {},
        }
        i += 1;
    }
    None
}

/// `ids` without any occurrence of `id`, the others in their order.
pub open spec fn without(ids: Seq<Seq<char>>, id: Seq<char>) -> Seq<Seq<char>>
    decreases ids.len(),
{
    if ids.len() == 0 {
        Seq::empty()
    } else if ids.last() == id {
        without(ids.drop_last(), id)
    } else {
        without(ids.drop_last(), id).push(ids.last())
    }
}

/// The confirmation of a take.
pub open spec fn took_text(name: Seq<char>) -> Seq<char> {
    "You take the "@ + name + "."@
}

/// The confirmation of a drop.
pub open spec fn dropped_text(name: Seq<char>) -> Seq<char> {
    "You drop the "@ + name + "."@
}

/// Taking an item. The first item of the room that answers to `query`
/// leaves the room and joins what the player carries.
pub open spec fn take_model(game: GameView, query: Seq<char>) -> Outcome {
    if !game.room_exists() {
        Outcome { state: game, reply: Err(GameError::InvalidRoom) }
    } else {
        match find_item(game.room().items, game.story.items, query) {
            None => Outcome { state: game, reply: Err(GameError::ItemNotFound) },
            Some(at) => {
                let id = game.room().items[at];
                let inventory = if game.inventory.contains(id) {
                    game.inventory
                } else {
                    game.inventory.push(id)
                };
                Outcome {
                    state: GameView {
                        inventory: inventory,
                        ..game.with_room_items(without(game.room().items, id))
                    },
                    reply: Ok(took_text(game.story.items[id].name)),
                }
            },
        }
    }
}

/// Dropping an item. The first item the player carries that answers to
/// `query` leaves the inventory and goes to the end of the room's items.
/// Where nothing carried answers, that is `ItemNotFound`, whatever the room.
/// Where something does but the player stands in no room of the world, it
/// is `InvalidRoom`, and the item stays with the player.
pub open spec fn drop_model(game: GameView, query: Seq<char>) -> Outcome {
    match find_item(game.inventory, game.story.items, query) {
        None => Outcome { state: game, reply: Err(GameError::ItemNotFound) },
        Some(at) => {
            if !game.room_exists() {
                Outcome { state: game, reply: Err(GameError::InvalidRoom) }
            } else {
                let id = game.inventory[at];
                Outcome {
                    state: GameView {
                        inventory: game.inventory.remove(at),
                        ..game.with_room_items(game.room().items.push(id))
                    },
                    reply: Ok(dropped_text(game.story.items[id].name)),
                }
            }
        },
    }
}

/// Carrying out a command. Looking, listing the inventory and asking for
/// help leave the session as it is, and so does a command that the engine
/// does not carry out.
pub open spec fn apply_model(game: GameView, command: CommandView) -> Outcome {
    match command {
        CommandView::Look => Outcome { state: game, reply: look_model(game) },
        CommandView::Go(direction) => go_model(game, direction),
        CommandView::North => go_model(game, "north"@),
        CommandView::South => go_model(game, "south"@),
        CommandView::East => go_model(game, "east"@),
        CommandView::West => go_model(game, "west"@),
        CommandView::Take(item) => take_model(game, item),
        CommandView::Drop(item) => drop_model(game, item),
        CommandView::Inventory => Outcome { state: game, reply: Ok(inventory_model(game)) },
        CommandView::Help => Outcome { state: game, reply: Ok(help_text()) },
        _ => Outcome { state: game, reply: Ok(unknown_text()) },
    }
}

/// Whether the turn loop goes on after a line or has ended.
#[derive(Debug, Clone, Copy, PartialEq, Eq, Structural)]
pub enum LoopState {
    Playing,
    Terminated,
}

/// What the turn loop does after one line of input: the state it is in,
/// the text to print unless it is empty, and whether to show the room again.
pub struct Turn {
    pub state: LoopState,
    pub output: String,
    pub redraw: bool,
}

/// Whether a line ends the session.
pub open spec fn is_quit_word(line: Seq<char>) -> bool {
    line == "quit"@ || line == "exit"@ || line == "q"@
}

/// The words on leaving.
pub open spec fn farewell_text() -> Seq<char> {
    "Thanks for playing! :D"@
}

/// What is printed for a reply: its text, or the error's message behind a
/// label.
pub open spec fn printed_text(reply: Result<Seq<char>, GameError>) -> Seq<char> {
    match reply {
        Ok(text) => text,
        Err(error) => "Error: "@ + error.message(),
    }
}

/// What the loop makes of a line that the player typed: the line without
/// the whitespace at its ends, in lower case.
pub open spec fn normalized(input: Seq<char>) -> Seq<char> {
    lowercase(trimmed(input))
}

/// Whether `turn` is what one normalized line asks for in session `before`,
/// with `after` as the session it leaves. A quit word ends the loop and
/// touches nothing. Any other line is parsed and carried out, and the room
/// is shown again after a command that asks to move, whether or not the
/// player moved.
pub open spec fn step_model(before: GameView, line: Seq<char>, after: GameView, turn: Turn) -> bool {
    if is_quit_word(line) {
        &&& after == before
        &&& turn.state == LoopState::Terminated
        &&& turn.output@ == farewell_text()
        &&& !turn.redraw
    } else {
        &&& after == apply_model(before, parse(line)).state
        &&& turn.state == LoopState::Playing
        &&& turn.output@ == printed_text(apply_model(before, parse(line)).reply)
        &&& turn.redraw == parse(line).is_movement()
    }
}

/// Takes every occurrence of `id` out of `ids`.
fn remove_all(ids: &mut Vec<String>, id: &str)
    ensures
        views(final(ids)@) == without(views(old(ids)@), id@),
{
    let mut kept: Vec<String> = Vec::new();
    let mut i: usize = 0;
    while i < ids.len()
        invariant
            i <= ids.len(),
            *ids == *old(ids),
            views(kept@) == without(views(ids@).take(i as int), id@),
        decreases ids.len() - i,
    {
        proof {
            let all = views(ids@);
            assert(all.take(i + 1).drop_last() =~= all.take(i as int));
            assert(all.take(i + 1).last() == ids@[i as int]@);
        }
        if !same_text(ids[i].as_str(), id) {
            let copy = ids[i].clone();
            proof {
                assert(views(kept@.push(copy)) =~= views(kept@).push(copy@));
            }
            kept.push(copy);
        }
        i += 1;
    }
    proof {
        assert(views(ids@).take(ids.len() as int) =~= views(ids@));
    }
    *ids = kept;
}

impl View for Game {
    type V = GameView;

    closed spec fn view(&self) -> GameView {
        GameView {
            story: self.story@,
            current_room: self.current_room@,
            inventory: self.inventory@,
        }
    }
}

impl Game {
    /// A session at the start of `story`: the player stands in the start
    /// room and carries nothing. This never fails.
    pub fn new(story: Story) -> (made: Result<Self, GameError>)
        ensures
            made is Ok,
            made->Ok_0@ == (GameView {
                story: story@,
                current_room: story@.start_room,
                inventory: Seq::empty(),
            }),
    {
        let current_room = story.story.start_room.clone();
        Ok(Game { story, current_room, inventory: Inventory::new() })
    }

    /// The world of the session.
    pub fn story(&self) -> (story: &Story)
        ensures
            story@ == self@.story,
    {
        &self.story
    }

    /// The identifier of the room the player stands in.
    pub fn current_room(&self) -> (id: &String)
        ensures
            id@ == self@.current_room,
    {
        &self.current_room
    }

    /// The identifiers of the items the player carries, oldest first, each
    /// of them once.
    pub fn inventory(&self) -> (ids: &Vec<String>)
        ensures
            views(ids@) == self@.inventory,
            self@.carries_each_once(),
    {
        self.inventory.ids()
    }

    /// The room the player stands in, or `InvalidRoom` where the world has
    /// no such room.
    pub fn get_current_room(&self) -> (found: Result<&Room, GameError>)
        ensures
            match found {
                Ok(room) => {
                    &&& self@.room_exists()
                    &&& room@ == self@.room()
                    &&& room@.exits_listed_once()
                },
                Err(error) => !self@.room_exists() && error == GameError::InvalidRoom,
            },
    {
        match self.story.rooms.get(self.current_room.as_str()) {
            Some(room) => {
                proof {
                    use_type_invariant(&room.exits);
                    room.exits.lemma_lists_each_key_once();
                }
                Ok(room)
            },
            None => Err(GameError::InvalidRoom),
        }
    }

    /// Moves the player in `direction`.
    pub fn go(&mut self, direction: &str) -> (reply: Result<String, GameError>)
        ensures
            final(self)@ == go_model(old(self)@, direction@).state,
            reply_view(reply) == go_model(old(self)@, direction@).reply,
    {
        let target = match self.story.rooms.get(self.current_room.as_str()) {
            None => {
                return Err(GameError::InvalidRoom);
            },
            Some(room) => match room.exits.get(direction) {
                None => {
                    return Ok("You can't go that way.".to_owned());
                },
                Some(target) => target.clone(),
            },
        };
        if self.story.rooms.contains_key(target.as_str()) {
            self.current_room = target;
            let mut text = "You go ".to_owned();
            text.append(direction);
            text.append(".");
            Ok(text)
        } else {
            Err(GameError::RoomNotFound)
        }
    }

    /// The names of the items among `ids` that the world knows.
    fn names_of(&self, ids: &Vec<String>) -> (names: Vec<String>)
        ensures
            views(names@) == known_names(views(ids@), self@.story.items),
    {
        let mut names: Vec<String> = Vec::new();
        let mut i: usize = 0;
        while i < ids.len()
            invariant
                i <= ids.len(),
                views(names@) == known_names(views(ids@).take(i as int), self@.story.items),
            decreases ids.len() - i,
        {
            proof {
                let all = views(ids@);
                assert(all.take(i + 1).drop_last() =~= all.take(i as int));
                assert(all.take(i + 1).last() == ids@[i as int]@);
            }
            match self.story.items.get(ids[i].as_str()) {
                Some(item) => {
                    let name = item.name.clone();
                    proof {
                        assert(views(names@.push(name)) =~= views(names@).push(name@));
                    }
                    names.push(name);
                },
                None => {},
            }
            i += 1;
        }
        proof {
            assert(views(ids@).take(ids.len() as int) =~= views(ids@));
        }
        names
    }

    /// Describes the room the player stands in. The exits it names are the
    /// exits of the room, each of them once.
    pub fn look(&self) -> (reply: Result<String, GameError>)
        ensures
            reply_view(reply) == look_model(self@),
            reply is Ok ==> self@.room().exits_listed_once(),
    {
        let room = match self.get_current_room() {
            Ok(room) => room,
            Err(error) => {
                return Err(error);
            },
        };
        let mut output = "\n".to_owned();
        output.append(room.title.as_str());
        output.append("\n");
        output.append(room.description.as_str());
        if room.items.len() > 0 {
            let names = self.names_of(&room.items);
            let list = join(&names, ", ");
            output.append("\n\nYou see: ");
            output.append(list.as_str());
        }
        if !room.exits.is_empty() {
            let exits = room.exits.keys();
            let list = join(&exits, ", ");
            output.append("\n\nExits: ");
            output.append(list.as_str());
        }
        proof {
            let items = self@.story.items;
            let expected = room_text(room@, items);
            assert(output@ =~= expected);
        }
        Ok(output)
    }

    /// Lists what the player carries, each item once.
    pub fn show_inventory(&self) -> (reply: Result<String, GameError>)
        ensures
            reply_view(reply) == Ok::<Seq<char>, GameError>(inventory_model(self@)),
            self@.carries_each_once(),
    {
        let carried = self.inventory.ids();
        if carried.len() == 0 {
            return Ok("Your inventory is empty. :0".to_owned());
        }
        let names = self.names_of(carried);
        let mut output = "You are carrying:".to_owned();
        let mut i: usize = 0;
        while i < names.len()
            invariant
                i <= names.len(),
                output@ == "You are carrying:"@ + bullet_lines(views(names@).take(i as int)),
            decreases names.len() - i,
        {
            proof {
                let all = views(names@);
                assert(all.take(i + 1).drop_last() =~= all.take(i as int));
                assert(all.take(i + 1).last() == names@[i as int]@);
                let so_far = bullet_lines(all.take(i as int));
                assert(("You are carrying:"@ + so_far) + "\n- "@ + names@[i as int]@
                    =~= "You are carrying:"@ + (so_far + "\n- "@ + names@[i as int]@));
            }
            output.append("\n- ");
            output.append(names[i].as_str());
            i += 1;
        }
        proof {
            assert(views(names@).take(names.len() as int) =~= views(names@));
        }
        Ok(output)
    }

    /// Explains the commands.
    pub fn help(&self) -> (text: String)
        ensures
            text@ == help_text(),
    {
        "Available commands:\n- look: Look around the current room\n- go [direction]: Move in a direction (north, south, east, west)\n- n/s/e/w: Short forms for directions\n- take [item]: Pick up an item\n- drop [item]: Drop an item\n- inventory: Check your inventory\n- help: Show this help\n- quit: Exit the game\n\nExample: 'go north' or 'take key' :D".to_owned()
    }

    /// The position of the first identifier in `ids` whose item answers to
    /// `query`.
    fn find(&self, ids: &Vec<String>, query: &str) -> (found: Option<usize>)
        ensures
            match found {
                Some(at) => at < ids.len() && find_item(views(ids@), self@.story.items, query@)
                    == Some(at as int),
                None => find_item(views(ids@), self@.story.items, query@) is None,
            },
    {
        let wanted = to_lowercase(query);
        let mut names: Vec<Option<String>> = Vec::new();
        let mut i: usize = 0;
        while i < ids.len()
            invariant
                i <= ids.len(),
                names.len() == i,
                forall|k: int|
                    0 <= k < i ==> text_of(#[trigger] names@[k]) == lowered_names(
                        views(ids@),
                        self@.story.items,
                    )[k],
            decreases ids.len() - i,
        {
            let name = match self.story.items.get(ids[i].as_str()) {
                Some(item) => Some(to_lowercase(item.name.as_str())),
                None => None,
            };
            names.push(name);
            i += 1;
        }
        proof {
            assert(texts(names@) =~= lowered_names(views(ids@), self@.story.items));
            lemma_find_is_first_answer(views(ids@), self@.story.items, query@, 0);
        }
        first_match(&names, wanted.as_str())
    }

    /// Takes the first item of the room that answers to `item_name`.
    pub fn take(&mut self, item_name: &str) -> (reply: Result<String, GameError>)
        ensures
            final(self)@ == take_model(old(self)@, item_name@).state,
            reply_view(reply) == take_model(old(self)@, item_name@).reply,
    {
        let id = match self.story.rooms.get(self.current_room.as_str()) {
            None => {
                return Err(GameError::InvalidRoom);
            },
            Some(room) => match self.find(&room.items, item_name) {
                None => {
                    return Err(GameError::ItemNotFound);
                },
                Some(at) => room.items[at].clone(),
            },
        };
        proof {
            lemma_find_from(old(self)@.room().items, old(self)@.story.items, item_name@, 0);
        }
        let mut text = "You take the ".to_owned();
        match self.story.items.get(id.as_str()) {
            Some(item) => {
                text.append(item.name.as_str());
                text.append(".");
            },
            None => {
                text = "You take the item.".to_owned();
            },
        }
        match self.story.rooms.get_mut(self.current_room.as_str()) {
            Some(room) => {
                remove_all(&mut room.items, id.as_str());
            },
            None => {},
        }
        self.inventory.insert(id);
        proof {
            let expected = take_model(old(self)@, item_name@).state;
            assert(self@.story.rooms =~= expected.story.rooms);
        }
        Ok(text)
    }

    /// Drops the first item the player carries that answers to `item_name`.
    pub fn drop(&mut self, item_name: &str) -> (reply: Result<String, GameError>)
        ensures
            final(self)@ == drop_model(old(self)@, item_name@).state,
            reply_view(reply) == drop_model(old(self)@, item_name@).reply,
    {
        let at = match self.find(self.inventory.ids(), item_name) {
            None => {
                return Err(GameError::ItemNotFound);
            },
            Some(at) => at,
        };
        if !self.story.rooms.contains_key(self.current_room.as_str()) {
            return Err(GameError::InvalidRoom);
        }
        proof {
            lemma_find_from(old(self)@.inventory, old(self)@.story.items, item_name@, 0);
        }
        let id = self.inventory.remove(at);
        let mut text = "You drop the ".to_owned();
        match self.story.items.get(id.as_str()) {
            Some(item) => {
                text.append(item.name.as_str());
                text.append(".");
            },
            None => {
                text = "You drop the item.".to_owned();
            },
        }
        match self.story.rooms.get_mut(self.current_room.as_str()) {
            Some(room) => {
                proof {
                    assert(views(room.items@.push(id)) =~= views(room.items@).push(id@));
                }
                room.items.push(id);
            },
            None => {},
        }
        proof {
            let expected = drop_model(old(self)@, item_name@).state;
            assert(self@.story.rooms =~= expected.story.rooms);
        }
        Ok(text)
    }

    /// Carries out one command. A command that fails changes nothing, and a
    /// player who stands in a room of the world still does afterwards.
    pub fn apply(&mut self, command: &Command) -> (reply: Result<String, GameError>)
        ensures
            final(self)@ == apply_model(old(self)@, command@).state,
            reply_view(reply) == apply_model(old(self)@, command@).reply,
            reply is Err ==> final(self)@ == old(self)@,
            old(self)@.room_exists() ==> final(self)@.room_exists(),
    {
        match command {
            Command::Look => self.look(),
            Command::Go(direction) => self.go(direction.as_str()),
            Command::North => self.go("north"),
            Command::South => self.go("south"),
            Command::East => self.go("east"),
            Command::West => self.go("west"),
            Command::Take(item) => self.take(item.as_str()),
            Command::Drop(item) => self.drop(item.as_str()),
            Command::Inventory => self.show_inventory(),
            Command::Help => Ok(self.help()),
            _ => Ok(
                "I don't understand that command. Type 'help' for available commands. :0".to_owned(),
            ),
        }
    }

    /// Parses one line of input and carries out the command it stands for.
    pub fn process_command(&mut self, input: &str) -> (reply: Result<String, GameError>)
        ensures
            final(self)@ == apply_model(old(self)@, parse(input@)).state,
            reply_view(reply) == apply_model(old(self)@, parse(input@)).reply,
    {
        let command = parse_command(input);
        self.apply(&command)
    }

    /// One turn of the loop on a line that is already trimmed and in lower
    /// case.
    pub fn step(&mut self, line: &str) -> (turn: Turn)
        ensures
            step_model(old(self)@, line@, final(self)@, turn),
    {
        if same_text(line, "quit") || same_text(line, "exit") || same_text(line, "q") {
            return Turn {
                state: LoopState::Terminated,
                output: "Thanks for playing! :D".to_owned(),
                redraw: false,
            };
        }
        let command = parse_command(line);
        let redraw = match command {
            Command::Go(_) | Command::North | Command::South | Command::East | Command::West => true,
            _ => false,
        };
        let output = match self.apply(&command) {
            Ok(text) => text,
            Err(error) => {
                let mut text = "Error: ".to_owned();
                text.append(error.to_string().as_str());
                text
            },
        };
        Turn { state: LoopState::Playing, output, redraw }
    }

    /// One turn of the loop on a line as the player typed it.
    pub fn turn(&mut self, input: &str) -> (turn: Turn)
        ensures
            step_model(old(self)@, normalized(input@), final(self)@, turn),
    {
        let trimmed = trim(input);
        let line = to_lowercase(trimmed.as_str());
        self.step(line.as_str())
    }
}

} // verus!
