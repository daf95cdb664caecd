//! The core of a Python runtime: the object model, the attribute protocol,
//! the built-in sequence operations and the decisions of the top-level driver.

pub mod attrs;
pub mod bytecode;
pub mod driver;
pub mod exceptions;
pub mod frame;
pub mod function;
pub mod import;
pub mod interpreter;
pub mod obj;
pub mod pyobject;
pub mod scope;
pub mod shell;
pub mod stdlib;
pub mod vm;
