//! The words in which a plan speaks of its effects.
use crate::secrets::key::DriverId;
use crate::types::value::RowBatch;
use vstd::prelude::*;

verus! {

/// An effect's number within its plan.
#[derive(Debug, Clone, Copy, PartialEq, Eq, PartialOrd, Ord, Hash, Structural)]
pub struct NodeId(pub u32);

/// What an effect does.
#[derive(Debug, Clone, PartialEq, Eq)]
#[non_exhaustive]
pub enum EffectKind {
    /// Reads rows.
    Read,
    /// Lists children.
    List,
    /// Adds rows.
    Insert,
    /// Adds rows or replaces those that are there.
    Upsert,
    /// Changes rows.
    Update,
    /// Removes rows.
    Remove,
    /// Calls the procedure of this name.
    Call(String),
}

/// Where an effect lands.
#[derive(Debug, Clone, PartialEq, Eq)]
pub struct Target {
    /// The driver.
    pub driver: DriverId,
    /// The path within the driver's tree.
    pub path: String,
}

/// One effect of a plan.
#[derive(Debug, PartialEq)]
pub struct EffectNode {
    /// The effect's number within its plan.
    pub id: NodeId,
    /// What it does.
    pub kind: EffectKind,
    /// Where it lands.
    pub target: Target,
    /// The rows that it carries.
    pub args: RowBatch,
}

/// What an applied effect came to.
#[derive(Debug, Clone, Copy, PartialEq, Eq, Structural)]
pub struct EffectOutput {
    /// The effect.
    pub id: NodeId,
    /// How many rows were touched.
    pub affected: u64,
}

/// An effect that was applied.
#[derive(Debug, Clone, Copy, PartialEq, Eq, Structural)]
pub struct AppliedEffect {
    /// The effect.
    pub id: NodeId,
    /// How many rows were touched.
    pub affected: u64,
}

/// An effect that was not applied.
#[derive(Debug, Clone, PartialEq, Eq)]
pub struct ApplyError {
    /// The effect.
    pub id: NodeId,
    /// The reason, without secrets.
    pub reason: String,
}

} // verus!
