//! Turning a value into the bytes that stand for it on the wire.
use crate::database::Database;
use vstd::prelude::*;

verus! {

/// What an encoder reports back: whether the value it was given is SQL `NULL`.
#[derive(Clone, Copy, Debug, PartialEq, Eq, Structural)]
pub enum IsNull {
    /// The value is `NULL`. Nothing was written for it.
    Yes,
    /// The value is not `NULL`. Its bytes were written.
    No,
}

/// A value that can be bound as a parameter of the driver `DB`.
///
/// The three spec functions say what the value is on the wire; the two executable methods
/// compute just that. An argument list relies on nothing else about a value.
pub trait Encode<DB: Database> {
    /// The wire type that this one value asks for, if it asks for another than the wire type
    /// of its Rust type.
    spec fn produced(&self) -> Option<DB::TypeInfo>;

    /// Whether this value is SQL `NULL`.
    spec fn is_null(&self) -> bool;

    /// The bytes of this value in the wire format. A `NULL` has none.
    spec fn encoded(&self) -> Seq<u8>;

    /// Returns the wire type that this value asks for, if any.
    fn produces(&self) -> (ty: Option<DB::TypeInfo>)
        ensures
            ty == self.produced(),
    ;

    /// Appends the bytes of this value to `buf` and reports whether the value is `NULL`.
    /// What `buf` held before stays in front, untouched; for a `NULL` nothing is appended.
    fn encode(self, buf: &mut Vec<u8>) -> (is_null: IsNull)
        ensures
            final(buf)@ == old(buf)@ + self.encoded(),
            (is_null == IsNull::Yes) == self.is_null(),
            self.is_null() ==> self.encoded().len() == 0,
    ;
}

} // verus!
