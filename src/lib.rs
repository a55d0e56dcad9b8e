//! An owner-scoped journal: records addressed by a program-derived address of
//! `(owner, title)`, with storage sized to their contents and funded by their
//! owner.

pub mod key;
pub mod table;
pub mod space;
pub mod address;
pub mod journal;
pub mod instructions;
