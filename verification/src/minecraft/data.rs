//! Documents of data packs.

pub mod advancement;
pub mod conditions;
pub mod meta;
pub mod pack_format;
pub mod predicate;
