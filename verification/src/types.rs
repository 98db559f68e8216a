//! The wire type that goes with a Rust type.
use crate::database::Database;
use vstd::prelude::*;

verus! {

/// A Rust type that has a wire type of its own in the driver `DB`.
pub trait Type<DB: Database> {
    /// The wire type of every value of this type that does not ask for another.
    spec fn type_info_spec() -> DB::TypeInfo;

    /// Returns the wire type of this Rust type.
    fn type_info() -> (ty: DB::TypeInfo)
        ensures
            ty == Self::type_info_spec(),
    ;
}

} // verus!
