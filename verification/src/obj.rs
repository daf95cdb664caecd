//! The built-in types and the operations they share.

pub mod objbool;
pub mod objint;
pub mod objobject;
pub mod objsequence;
pub mod objstr;
pub mod objtuple;
pub mod objtype;
