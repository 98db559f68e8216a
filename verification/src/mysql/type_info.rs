//! Wire-type descriptors of the MySQL binary protocol.
use vstd::prelude::*;

verus! {

/// The wire type of one parameter: the column type code of the protocol and whether an
/// integer is sent unsigned.
#[derive(Clone, Copy, Debug, PartialEq, Eq, Structural)]
pub struct MySqlTypeInfo {
    pub code: u8,
    pub is_unsigned: bool,
}

/// Column type code of a 32-bit integer.
pub const TYPE_LONG: u8 = 0x03;

/// Column type code of a character string of any length.
pub const TYPE_VAR_STRING: u8 = 0xfd;

} // verus!
