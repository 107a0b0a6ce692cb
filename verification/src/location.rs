//! Places in the file system.
use vstd::prelude::*;

use crate::text::texts;

verus! {

/// A place in the file system: a directory, and what is joined to it, one part after the
/// other. The root is a path of whatever type the caller's paths have.
pub struct Location<R> {
    pub root: R,
    pub below: Vec<String>,
}

impl<R> Location<R> {
    /// The root, and the texts of the parts below it.
    pub open spec fn place(self) -> (R, Seq<Seq<char>>) {
        (self.root, texts(self.below@))
    }
}

impl Location<String> {
    /// The text of the root, and the texts of the parts below it.
    pub open spec fn text_place(self) -> (Seq<char>, Seq<Seq<char>>) {
        (self.root@, texts(self.below@))
    }
}

/// The place one part below another.
pub open spec fn under(place: (Seq<char>, Seq<Seq<char>>), part: Seq<char>) -> (
    Seq<char>,
    Seq<Seq<char>>,
) {
    (place.0, place.1.push(part))
}

/// The place one part below another.
pub fn join(at: Location<String>, part: &str) -> (r: Location<String>)
    ensures
        r.text_place() == under(at.text_place(), part@),
        r.root@ == at.root@,
        texts(r.below@) == texts(at.below@).push(part@),
{
    let mut below = at.below;
    let ghost before = texts(below@);
    below.push(part.to_owned());
    assert(texts(below@) == before.push(part@));
    Location { root: at.root, below }
}

/// A place is its root and, in their order, the parts below it; the place one part below it
/// has that part as its last.
pub proof fn law_place<R>(
    at: Location<R>,
    text_at: Location<String>,
    place: (Seq<char>, Seq<Seq<char>>),
    part: Seq<char>,
)
    ensures
        at.place().0 == at.root,
        at.place().1.len() == at.below@.len(),
        forall|i: int|
            0 <= i < at.below@.len() ==> (#[trigger] at.place().1[i]) == at.below@[i]@,
        text_at.text_place() == (text_at.root@, text_at.place().1),
        under(place, part).0 == place.0,
        under(place, part).1.drop_last() == place.1,
        under(place, part).1.len() > 0 && under(place, part).1.last() == part,
{
}

} // verus!
