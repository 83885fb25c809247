use vstd::prelude::*;

pub mod constraints;
pub mod field;
pub mod hash_table;
pub mod polynomial;
pub mod shared_tests;
