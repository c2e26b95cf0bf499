//! The known values of the `pack_format` member of `pack.mcmeta`.

use vstd::prelude::*;

verus! {

/// Minecraft 1.13 to 1.14.4.
pub const VER_4: i64 = 4;

/// Minecraft 1.15 to 1.16.1.
pub const VER_5: i64 = 5;

/// Minecraft 1.16.2 to 1.16.5.
pub const VER_6: i64 = 6;

/// Minecraft 1.17.
pub const VER_7: i64 = 7;

} // verus!
