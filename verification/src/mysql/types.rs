//! The Rust types that can be bound as MySQL parameters, and how each is sent.
use crate::encode::{Encode, IsNull};
use crate::mysql::database::MySql;
use crate::mysql::type_info::{MySqlTypeInfo, TYPE_LONG, TYPE_VAR_STRING};
use crate::mysql::wire::{bytes_lenenc, put_bytes_lenenc, put_uint_le, uint_le};
use crate::types::Type;
use vstd::prelude::*;
use vstd::string::StringSliceAdditionalSpecFns;

verus! {

/// A signed 32-bit integer as the unsigned number with the same four bytes.
pub open spec fn twos_complement(v: i32) -> nat {
    if v < 0 {
        (v + 0x1_0000_0000) as nat
    } else {
        v as nat
    }
}

impl Type<MySql> for i32 {
    open spec fn type_info_spec() -> MySqlTypeInfo {
        MySqlTypeInfo { code: TYPE_LONG, is_unsigned: false }
    }

    fn type_info() -> MySqlTypeInfo {
        MySqlTypeInfo { code: TYPE_LONG, is_unsigned: false }
    }
}

/// An `i32` is sent as its four bytes, least significant byte first.
impl Encode<MySql> for i32 {
    open spec fn produced(&self) -> Option<MySqlTypeInfo> {
        None
    }

    open spec fn is_null(&self) -> bool {
        false
    }

    open spec fn encoded(&self) -> Seq<u8> {
        uint_le(twos_complement(*self), 4)
    }

    fn produces(&self) -> Option<MySqlTypeInfo> {
        None
    }

    fn encode(self, buf: &mut Vec<u8>) -> IsNull {
        let wide: i64 = self as i64;
        let unsigned: u64 = if wide < 0 {
            (wide + 0x1_0000_0000) as u64
        } else {
            wide as u64
        };
        put_uint_le(buf, unsigned, 4);
        IsNull::No
    }
}

impl Type<MySql> for u32 {
    open spec fn type_info_spec() -> MySqlTypeInfo {
        MySqlTypeInfo { code: TYPE_LONG, is_unsigned: true }
    }

    fn type_info() -> MySqlTypeInfo {
        MySqlTypeInfo { code: TYPE_LONG, is_unsigned: true }
    }
}

/// A `u32` is sent as its four bytes, least significant byte first, and marked unsigned.
impl Encode<MySql> for u32 {
    open spec fn produced(&self) -> Option<MySqlTypeInfo> {
        None
    }

    open spec fn is_null(&self) -> bool {
        false
    }

    open spec fn encoded(&self) -> Seq<u8> {
        uint_le(*self as nat, 4)
    }

    fn produces(&self) -> Option<MySqlTypeInfo> {
        None
    }

    fn encode(self, buf: &mut Vec<u8>) -> IsNull {
        put_uint_le(buf, self as u64, 4);
        IsNull::No
    }
}

impl<'a> Type<MySql> for &'a str {
    open spec fn type_info_spec() -> MySqlTypeInfo {
        MySqlTypeInfo { code: TYPE_VAR_STRING, is_unsigned: false }
    }

    fn type_info() -> MySqlTypeInfo {
        MySqlTypeInfo { code: TYPE_VAR_STRING, is_unsigned: false }
    }
}

/// A string is sent as the number of its bytes and then the bytes.
impl<'a> Encode<MySql> for &'a str {
    open spec fn produced(&self) -> Option<MySqlTypeInfo> {
        None
    }

    open spec fn is_null(&self) -> bool {
        false
    }

    open spec fn encoded(&self) -> Seq<u8> {
        bytes_lenenc(self.spec_bytes())
    }

    fn produces(&self) -> Option<MySqlTypeInfo> {
        None
    }

    fn encode(self, buf: &mut Vec<u8>) -> IsNull {
        put_bytes_lenenc(buf, self.as_bytes());
        IsNull::No
    }
}

impl<T: Type<MySql>> Type<MySql> for Option<T> {
    open spec fn type_info_spec() -> MySqlTypeInfo {
        T::type_info_spec()
    }

    fn type_info() -> MySqlTypeInfo {
        T::type_info()
    }
}

/// `None` is SQL `NULL`, of the wire type that a value would have had; `Some` is sent as the
/// value in it.
impl<T: Encode<MySql> + Type<MySql>> Encode<MySql> for Option<T> {
    open spec fn produced(&self) -> Option<MySqlTypeInfo> {
        match self {
            Some(value) => value.produced(),
            None => Some(T::type_info_spec()),
        }
    }

    open spec fn is_null(&self) -> bool {
        match self {
            Some(value) => value.is_null(),
            None => true,
        }
    }

    open spec fn encoded(&self) -> Seq<u8> {
        match self {
            Some(value) => value.encoded(),
            None => Seq::empty(),
        }
    }

    fn produces(&self) -> Option<MySqlTypeInfo> {
        match self {
            Some(value) => value.produces(),
            None => Some(T::type_info()),
        }
    }

    fn encode(self, buf: &mut Vec<u8>) -> IsNull {
        match self {
            Some(value) => value.encode(buf),
            None => {
                IsNull::Yes
            },
        }
    }
}

} // verus!
