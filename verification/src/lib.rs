//! A budget-constrained loadout randomizer: a ledger that partitions and
//! reclaims spending power across weapons, tools and consumables, and a
//! family of constrained random selection passes that respect locking,
//! slot-size compatibility, de-duplication and affordability, with every
//! single-slot edit reversible through a refund-then-repurchase snapshot.

pub mod budget;
pub mod config;
pub mod content;
pub mod core_search_util;
pub mod gear;
pub mod generate;
pub mod generic_item;
pub mod loadout;
pub mod mutators;
pub mod rng;
pub mod text;
pub mod util;
pub mod weapons;
