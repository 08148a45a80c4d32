//! One event of the runtime's event stream, reduced to what the mirrors read.

use crate::text::str_eq;
use vstd::prelude::*;

verus! {

/// An event: the type of the object it is about, what happened to it, the object's ID, and
/// the attributes that the runtime attached.
pub struct Event {
    pub typ: String,
    pub action: String,
    pub actor_id: String,
    pub attributes: Vec<(String, String)>,
}

/// The value of the first attribute with the given name.
pub open spec fn attribute_of(attributes: Seq<(String, String)>, name: Seq<char>) -> Option<
    Seq<char>,
>
    decreases attributes.len(),
{
    if attributes.len() == 0 {
        None
    } else if attributes[0].0@ == name {
        Some(attributes[0].1@)
    } else {
        attribute_of(attributes.skip(1), name)
    }
}

impl Event {
    /// The value of the attribute with the given name, if the event has one.
    pub fn attribute(&self, name: &str) -> (value: Option<&String>)
        ensures
            attribute_of(self.attributes@, name@) == match value {
                Some(v) => Some(v@),
                None => None,
            },
    {
        let mut i: usize = 0;
        assert(self.attributes@.skip(0) =~= self.attributes@);
        while i < self.attributes.len()
            invariant
                i <= self.attributes.len(),
                attribute_of(self.attributes@, name@) == attribute_of(
                    self.attributes@.skip(i as int),
                    name@,
                ),
            decreases self.attributes.len() - i,
        {
            if str_eq(self.attributes[i].0.as_str(), name) {
                return Some(&self.attributes[i].1);
            }
            assert(self.attributes@.skip(i as int).skip(1) =~= self.attributes@.skip(i + 1));
            i = i + 1;
        }
        None
    }
}

} // verus!
