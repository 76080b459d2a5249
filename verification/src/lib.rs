//! A register-and-stack virtual machine together with the intermediate
//! representation it is fed from.

pub mod error;
pub mod instruction;
pub mod ir;
pub mod laws;
pub mod ops;
pub mod value;
pub mod vm;
