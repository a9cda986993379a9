//! The text of a new story and the name of the file it goes to.

use vstd::prelude::*;
use crate::text::chars_of;

verus! {

/// The part of a new story's file that stands before its title.
pub open spec fn template_head() -> Seq<char> {
    "[story]\ntitle = \""@
}

/// The part of a new story's file that stands after its title: a front
/// door with a key, a living room with a book, and the way between them.
pub open spec fn template_tail() -> Seq<char> {
    "\"\nstart_room = \"entrance\"\n\n[rooms.entrance]\ntitle = \"Front Door\"\ndescription = \"A wooden door stands before you. [NORTH] leads to the living room.\"\nnorth = \"living_room\"\nitems = [\"key\"]\n\n[rooms.living_room]\ntitle = \"Living Room\"\ndescription = \"A cozy room with a fireplace. [SOUTH] leads back to the entrance.\"\nsouth = \"entrance\"\nitems = [\"book\"]\n\n[items.key]\nname = \"brass key\"\ndescription = \"An old brass key.\"\n\n[items.book]\nname = \"leather-bound book\"\ndescription = \"A book with strange symbols on its cover.\"\n"@
}

/// The file of a new story called `name`.
pub open spec fn template_text(name: Seq<char>) -> Seq<char> {
    template_head() + name + template_tail()
}

/// `name` with an underscore in place of each space.
pub open spec fn underscored(name: Seq<char>) -> Seq<char> {
    Seq::new(name.len(), |i: int| if name[i] == ' ' { '_' } else { name[i] })
}

/// The name of the file that holds the story called `name`.
pub open spec fn file_name(name: Seq<char>) -> Seq<char> {
    underscored(name) + ".toml"@
}

/// The words that confirm a new story.
pub open spec fn created_text(name: Seq<char>) -> Seq<char> {
    "Created new story '"@ + name + "'! :D"@
}

/// Writes the file of a new story called `name`.
pub fn story_template(name: &str) -> (text: String)
    ensures
        text@ == template_text(name@),
{
    let mut text = "[story]\ntitle = \"".to_owned();
    text.append(name);
    text.append(
        "\"\nstart_room = \"entrance\"\n\n[rooms.entrance]\ntitle = \"Front Door\"\ndescription = \"A wooden door stands before you. [NORTH] leads to the living room.\"\nnorth = \"living_room\"\nitems = [\"key\"]\n\n[rooms.living_room]\ntitle = \"Living Room\"\ndescription = \"A cozy room with a fireplace. [SOUTH] leads back to the entrance.\"\nsouth = \"entrance\"\nitems = [\"book\"]\n\n[items.key]\nname = \"brass key\"\ndescription = \"An old brass key.\"\n\n[items.book]\nname = \"leather-bound book\"\ndescription = \"A book with strange symbols on its cover.\"\n",
    );
    text
}

/// Names the file that holds the story called `name`.
pub fn story_file_name(name: &str) -> (file: String)
    ensures
        file@ == file_name(name@),
{
    let chars = chars_of(name);
    let mut file = String::new();
    let mut i: usize = 0;
    while i < chars.len()
        invariant
            chars@ == name@,
            i <= chars.len(),
            file@ == underscored(name@).take(i as int),
        decreases chars.len() - i,
    {
        proof {
            reveal_strlit("_");
            let done = underscored(name@).take(i as int);
            let next = underscored(name@).take(i + 1);
            if name@[i as int] == ' ' {
                assert(next =~= done + "_"@);
            } else {
                assert(next =~= done + name@.subrange(i as int, i + 1));
            }
        }
        if chars[i] == ' ' {
            file.append("_");
        } else {
            file.append(name.substring_char(i, i + 1));
        }
        i += 1;
    }
    proof {
        assert(underscored(name@).take(chars.len() as int) =~= underscored(name@));
    }
    file.append(".toml");
    file
}

/// Confirms that the story called `name` was made.
pub fn created_message(name: &str) -> (text: String)
    ensures
        text@ == created_text(name@),
{
    let mut text = "Created new story '".to_owned();
    text.append(name);
    text.append("'! :D");
    text
}

} // verus!
