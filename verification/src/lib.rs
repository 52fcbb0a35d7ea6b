//! Serialization of data structures into XML through the xml-rs emitter, with an
//! optional per-serializer hook that rewrites every start element.

pub mod de;
pub mod emitter;
pub mod markup;
pub mod ser;
mod updater;

use std::io::Write;
use vstd::prelude::*;

verus! {

/// A type that writes itself as XML through a serializer.
pub trait YaSerialize {
    /// What serializing `self` may do: take the serializer from `before` to
    /// `after` and report `outcome` (an error as its message). An
    /// implementation may say what that is for its type; by default it is left
    /// open.
    open spec fn serialized(
        &self,
        before: ser::SerializerView,
        after: ser::SerializerView,
        outcome: Result<(), Seq<char>>,
    ) -> bool {
        true
    }

    fn serialize<W: Write>(&self, writer: &mut ser::Serializer<W>) -> (outcome: Result<(), String>)
        ensures
            self.serialized(old(writer)@, final(writer)@, ser::outcome_text(outcome)),
    ;
}

} // verus!
