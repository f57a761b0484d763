//! Accessory equip slots: a fixed-capacity table of catalog references with
//! mask-based exclusivity, a membership query, and a versioned byte codec
//! that migrates legacy four-slot saves.
//!
//! - `kind`: the category kind of a mask, and the icon and label of a kind.
//! - `catalog`: accessory definitions and the read-only catalog.
//! - `table`: the slot table and the equip, membership, clear and copy rules.
//! - `codec`: encoding and decoding of a table.
use vstd::prelude::*;

pub mod kind;
pub mod catalog;
pub mod table;
pub mod codec;

verus! {

} // verus!
