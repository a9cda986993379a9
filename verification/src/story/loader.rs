//! The story document as data, and the checks that a loaded story must pass.

use vstd::prelude::*;
use crate::engine::item::{Item, ItemView};
use crate::engine::room::{Room, RoomView};
use crate::table::Table;
use crate::text::chars_of;

verus! {

/// What a story says of itself.
#[derive(Debug)]
pub struct StoryInfo {
    pub title: String,
    pub start_room: String,
}

/// A whole world: its rooms and its items, each under its identifier.
#[derive(Debug)]
pub struct Story {
    pub story: StoryInfo,
    pub rooms: Table<Room>,
    pub items: Table<Item>,
}

/// A story as plain data.
pub struct StoryView {
    pub title: Seq<char>,
    pub start_room: Seq<char>,
    pub rooms: Map<Seq<char>, RoomView>,
    pub items: Map<Seq<char>, ItemView>,
}

impl View for Story {
    type V = StoryView;

    open spec fn view(&self) -> StoryView {
        StoryView {
            title: self.story.title@,
            start_room: self.story.start_room@,
            rooms: self.rooms@.map_values(|room: Room| room@),
            items: self.items@.map_values(|item: Item| item@),
        }
    }
}

impl StoryView {
    /// Whether the room in which the story starts is one of its rooms.
    pub open spec fn has_start_room(self) -> bool {
        self.rooms.contains_key(self.start_room)
    }
}

/// Why a story cannot be played.
#[derive(Debug, Clone, Copy, PartialEq, Eq, Structural)]
pub enum LoadError {
    /// The directory holds no story file.
    NoStoryFile,
    /// The story starts in a room that it does not have.
    MissingStartRoom,
}

impl LoadError {
    /// The text of the error.
    pub open spec fn message(self) -> Seq<char> {
        match self {
            LoadError::NoStoryFile => "No .toml file found in directory"@,
            LoadError::MissingStartRoom => "Start room does not exist in story"@,
        }
    }

    /// The error as text.
    pub fn to_string(&self) -> (text: String)
        ensures
            text@ == self.message(),
    {
        match self {
            LoadError::NoStoryFile => "No .toml file found in directory".to_owned(),
            LoadError::MissingStartRoom => "Start room does not exist in story".to_owned(),
        }
    }
}

/// Accepts a story whose start room exists and hands it back unchanged.
pub fn validate_story(story: Story) -> (checked: Result<Story, LoadError>)
    ensures
        match checked {
            Ok(accepted) => story@.has_start_room() && accepted == story,
            Err(error) => !story@.has_start_room() && error == LoadError::MissingStartRoom,
        },
{
    if story.rooms.contains_key(story.story.start_room.as_str()) {
        Ok(story)
    } else {
        Err(LoadError::MissingStartRoom)
    }
}

/// Whether a file of this name holds a story: the name ends in `.toml` and
/// has at least one character before that.
pub open spec fn is_story_file(name: Seq<char>) -> bool {
    name.len() > 5 && name.subrange(name.len() - 5, name.len() as int) == ".toml"@
}

/// The position of the first story file among `names`, or the length of
/// `names` when none of them is one.
pub open spec fn first_story_file(names: Seq<Seq<char>>, from: int) -> int
    decreases names.len() - from,
{
    if 0 <= from < names.len() && !is_story_file(names[from]) {
        first_story_file(names, from + 1)
    } else {
        from
    }
}

/// Whether `name` is the name of a story file.
pub fn has_story_extension(name: &str) -> (b: bool)
    ensures
        b == is_story_file(name@),
{
    let chars = chars_of(name);
    let n = chars.len();
    if n <= 5 {
        return false;
    }
    proof {
        reveal_strlit(".toml");
        let tail = name@.subrange(n - 5, n as int);
        assert(tail.len() == 5);
        assert(tail[0] == name@[n - 5]);
        assert(tail[1] == name@[n - 4]);
        assert(tail[2] == name@[n - 3]);
        assert(tail[3] == name@[n - 2]);
        assert(tail[4] == name@[n - 1]);
        if name@[n - 5] == '.' && name@[n - 4] == 't' && name@[n - 3] == 'o' && name@[n - 2] == 'm'
            && name@[n - 1] == 'l' {
            assert(tail =~= ".toml"@);
        }
    }
    chars[n - 5] == '.' && chars[n - 4] == 't' && chars[n - 3] == 'o' && chars[n - 2] == 'm'
        && chars[n - 1] == 'l'
}

/// The story file of a directory: the first of its entries, in the order
/// given, whose name is that of a story file.
pub fn pick_story_file(names: &Vec<String>) -> (found: Result<usize, LoadError>)
    ensures
        match found {
            Ok(i) => i < names.len() && i == first_story_file(crate::text::views(names@), 0),
            Err(error) => error == LoadError::NoStoryFile && first_story_file(
                crate::text::views(names@),
                0,
            ) == names.len(),
        },
{
    let mut i: usize = 0;
    while i < names.len()
        invariant
            i <= names.len(),
            first_story_file(crate::text::views(names@), 0) == first_story_file(
                crate::text::views(names@),
                i as int,
            ),
        decreases names.len() - i,
    {
        if has_story_extension(names[i].as_str()) {
            return Ok(i);
        }
        i += 1;
    }
    Err(LoadError::NoStoryFile)
}

} // verus!
