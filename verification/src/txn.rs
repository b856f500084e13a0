//! What becomes of each leg of a commit, and the descriptions that an audit ledger keeps of it.
//! No payload and no credential stands in any of them.
use crate::plan::{EffectKind, NodeId, Target};
use vstd::prelude::*;

verus! {

/// The key under which a ledger tells one effect from another.
#[derive(Debug, Clone, PartialEq, Eq)]
pub struct EffectKey(pub String);

/// The version that a versioned object has.
#[derive(Debug, Clone, PartialEq, Eq)]
pub struct Version(pub String);

/// What must hold for an effect to be applied.
#[derive(Debug, Clone, PartialEq, Eq)]
#[non_exhaustive]
pub enum Precondition {
    /// Nothing.
    Always,
    /// The object has this version.
    IfVersion(Version),
}

/// An effect that is about to be applied, as the ledger records it beforehand.
#[derive(Debug, Clone, PartialEq, Eq)]
#[non_exhaustive]
pub struct EffectDescriptor {
    /// The effect's number within its plan.
    pub id: NodeId,
    /// The key under which the ledger knows it.
    pub key: EffectKey,
    /// What it does.
    pub kind: EffectKind,
    /// Where it lands.
    pub target: Target,
    /// What must hold for it to be applied.
    pub precondition: Precondition,
    /// Whether it cannot be taken back.
    pub irreversible: bool,
    /// How many rows its payload has.
    pub arg_rows: usize,
}

/// What a driver reports of an effect that it applied.
#[derive(Debug, Clone, PartialEq, Eq)]
#[non_exhaustive]
pub struct EffectReceipt {
    /// The effect.
    pub id: NodeId,
    /// How many rows or objects were touched.
    pub affected: u64,
    /// The version that the write left behind, if the object has versions.
    pub new_version: Option<Version>,
}

impl EffectReceipt {
    /// A receipt without a version.
    #[must_use]
    pub fn new(id: NodeId, affected: u64) -> (r: EffectReceipt)
        ensures
            r.id == id,
            r.affected == affected,
            r.new_version is None,
    {
        EffectReceipt { id, affected, new_version: None }
    }

    /// The receipt with this version.
    #[must_use]
    pub fn with_version(self, v: Version) -> (r: EffectReceipt)
        ensures
            r.id == self.id,
            r.affected == self.affected,
            r.new_version == Some(v),
    {
        EffectReceipt { id: self.id, affected: self.affected, new_version: Some(v) }
    }
}

/// Why a leg failed.
#[derive(Debug, Clone, PartialEq, Eq)]
#[non_exhaustive]
pub enum EffectError {
    /// For now: a rate limit, a timeout, a fault of the server.
    Retryable {
        /// The reason, without secrets.
        reason: String,
    },
    /// For good: a bad request, nothing there.
    Terminal {
        /// The reason, without secrets.
        reason: String,
    },
}

impl EffectError {
    /// The message for people.
    pub open spec fn text(self) -> Seq<char> {
        match self {
            EffectError::Retryable { reason } => "retryable effect failure: "@ + reason@,
            EffectError::Terminal { reason } => "terminal effect failure: "@ + reason@,
        }
    }

    /// The stable code of the class.
    #[must_use]
    pub fn code(&self) -> (r: &'static str)
        ensures
            r@ == (if self is Retryable {
                "retryable"@
            } else {
                "terminal"@
            }),
    {
        match self {
            EffectError::Retryable { .. } => "retryable",
            EffectError::Terminal { .. } => "terminal",
        }
    }

    /// Whether the failure may pass.
    #[must_use]
    pub fn is_retryable(&self) -> (r: bool)
        ensures
            r == (self is Retryable),
    {
        match self {
            EffectError::Retryable { .. } => true,
            EffectError::Terminal { .. } => false,
        }
    }

    /// A failure that may pass.
    #[must_use]
    pub fn retryable(reason: String) -> (r: EffectError)
        ensures
            r == (EffectError::Retryable { reason }),
    {
        EffectError::Retryable { reason }
    }

    /// A failure for good.
    #[must_use]
    pub fn terminal(reason: String) -> (r: EffectError)
        ensures
            r == (EffectError::Terminal { reason }),
    {
        EffectError::Terminal { reason }
    }

    /// The message for people.
    pub fn message(&self) -> (r: String)
        ensures
            r@ == self.text(),
    {
        match self {
            EffectError::Retryable { reason } => {
                let mut r: String = "retryable effect failure: ".to_owned();
                r.append(reason.as_str());
                r
            },
            EffectError::Terminal { reason } => {
                let mut r: String = "terminal effect failure: ".to_owned();
                r.append(reason.as_str());
                r
            },
        }
    }
}

/// What became of one leg.
#[derive(Debug, Clone, PartialEq, Eq)]
#[non_exhaustive]
pub enum LegOutcome {
    /// The effect was applied now.
    Applied(EffectReceipt),
    /// The ledger knew the effect already, so nothing was done.
    AlreadyApplied,
    /// The object has another version than the one required: this one.
    Conflict(Version),
    /// The leg failed.
    Failed(EffectError),
}

impl LegOutcome {
    /// The stable code of the outcome.
    pub open spec fn code_text(self) -> Seq<char> {
        match self {
            LegOutcome::Applied(_) => "applied"@,
            LegOutcome::AlreadyApplied => "already_applied"@,
            LegOutcome::Conflict(_) => "conflict"@,
            LegOutcome::Failed(_) => "failed"@,
        }
    }

    /// The stable code of the outcome.
    #[must_use]
    pub fn code(&self) -> (r: &'static str)
        ensures
            r@ == self.code_text(),
    {
        match self {
            LegOutcome::Applied(_) => "applied",
            LegOutcome::AlreadyApplied => "already_applied",
            LegOutcome::Conflict(_) => "conflict",
            LegOutcome::Failed(_) => "failed",
        }
    }

    /// Whether the world holds the effect now: it was applied, now or before.
    #[must_use]
    pub fn is_success(&self) -> (r: bool)
        ensures
            r == (self is Applied || self is AlreadyApplied),
    {
        match self {
            LegOutcome::Applied(_) => true,
            LegOutcome::AlreadyApplied => true,
            _ => false,
        }
    }
}

} // verus!
