//! The intermediate representation that programs are built in.

pub mod types;
