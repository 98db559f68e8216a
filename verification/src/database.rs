//! The family of wire protocols that a value is bound for.
use vstd::prelude::*;

verus! {

/// A database driver, as far as binding parameters is concerned: it names the descriptor that
/// says on the wire what type a parameter has.
pub trait Database {
    /// The wire-type descriptor of this driver.
    type TypeInfo;
}

} // verus!
