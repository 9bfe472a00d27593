//! A framework of Objects, Actions, Traits and Systems.
//!
//! Objects carry traits (named, versioned pieces of state). Actions read the traits of
//! the objects in their context and propose trait updates without mutating anything.
//! The host applies the proposals to its registry of objects in a separate writeback
//! step, all or nothing.

use vstd::prelude::*;

pub mod actions;
pub mod error;
pub mod external;
pub mod ids;
pub mod named_map;
pub mod objects;
pub mod systems;
pub mod text;
pub mod traits;

pub use actions::context::ActionContext;
pub use actions::result::{ActionResult, TraitUpdate};
pub use actions::{check_context, Action};
pub use error::OatsError;
pub use ids::{id_text, parse_id, ObjectId, TraitId};
pub use named_map::NamedMap;
pub use objects::Object;
pub use rust_decimal::Decimal;
pub use systems::{dispatch_check, lifecycle_failure, lifecycle_step, processing_order, record_outcome, ApplyReport, Priority, SystemId, SystemManager};
pub use traits::{Trait, TraitData};

verus! {

/// The result type of the library's fallible operations.
pub type Result<T> = std::result::Result<T, OatsError>;

/// Identifier of an action (the 128-bit value of a UUID).
pub type ActionId = u128;

} // verus!
