//! Module-path resolution for `require`-style imports: alias configuration
//! loading and merging, the module-folder (index file) convention, and
//! reversible emission of normalized relative import literals.
use vstd::prelude::*;

pub mod aliases;
pub mod emit;
pub mod errors;
pub mod json;
pub mod mode;
pub mod nodes;
pub mod text;

verus! {

/// The conventional base name of a directory's index file.
pub fn get_default_module_folder_name() -> (r: String)
    ensures
        r@ == "init"@,
{
    String::from_str("init")
}

/// Whether a name equals the conventional index-file base name.
pub fn is_default_module_folder_name(value: &String) -> (r: bool)
    ensures
        r == (value@ == "init"@),
{
    crate::text::text_eq(value.as_str(), "init")
}

} // verus!
