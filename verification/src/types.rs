//! Plain data types of the market domain that the core itself handles.

use vstd::prelude::*;

verus! {

/// A tradeable item type: its identifier, name, and optional description.
#[derive(Debug, Clone)]
pub struct MarketType {
    /// Unique identifier of the item type.
    pub type_id: i32,
    /// Display name of the item type.
    pub name: String,
    /// Optional description.
    pub description: Option<String>,
}

} // verus!
