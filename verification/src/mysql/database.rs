//! The MySQL driver.
use crate::database::Database;
use crate::mysql::type_info::MySqlTypeInfo;
use vstd::prelude::*;

verus! {

/// The MySQL driver.
#[derive(Debug)]
pub struct MySql;

impl Database for MySql {
    type TypeInfo = MySqlTypeInfo;
}

} // verus!
