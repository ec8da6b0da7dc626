//! The field operators: one module per command.
use vstd::prelude::*;

pub mod badges;
pub mod categories;
pub mod exclude;
pub mod fmt;
pub mod get;
pub mod inclusion;
pub mod info;
pub mod init;
pub mod keywords;
pub mod listcmd;
pub mod metadata;
pub mod set;
pub mod validate;

verus! {

/// A sub-command of a list-valued field.
pub enum ListCommand {
    /// Append the given values, skipping duplicates and applying the
    /// field's rules.
    Add(Vec<String>),
    /// Remove every occurrence of each given value.
    Remove(Vec<String>),
    /// Show the current values.
    List,
    /// Remove the whole array entry.
    Clear,
}

} // verus!
