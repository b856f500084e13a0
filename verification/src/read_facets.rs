//! What a read gives to the engine: rows, or an error with the path and the driver's stable code.
//! A read that fails is never an empty list of rows, and no error holds a secret.
use vstd::prelude::*;

verus! {

/// An error of the engine's reads.
#[derive(Debug, Clone, PartialEq, Eq)]
pub enum CfsError {
    /// The path cannot be read.
    InvalidPath {
        /// The path.
        path: String,
        /// The stable code of what is wrong.
        reason: String,
    },
}

/// What a [`CfsError`] holds.
#[verifier::ext_equal]
pub ghost enum CfsErrorView {
    InvalidPath { path: Seq<char>, reason: Seq<char> },
}

impl View for CfsError {
    type V = CfsErrorView;

    open spec fn view(&self) -> CfsErrorView {
        match self {
            CfsError::InvalidPath { path, reason } => CfsErrorView::InvalidPath {
                path: path@,
                reason: reason@,
            },
        }
    }
}

/// What a driver's read of `path` gives to the engine: its rows, or the code of its error with the
/// path that was read.
pub fn scanned<T>(path: &str, read: Result<T, &str>) -> (r: Result<T, CfsError>)
    ensures
        match read {
            Ok(rows) => r == Ok::<T, CfsError>(rows),
            Err(code) => r matches Err(e) && e@ == (CfsErrorView::InvalidPath {
                path: path@,
                reason: code@,
            }),
        },
{
    match read {
        Ok(rows) => Ok(rows),
        Err(code) => Err(
            CfsError::InvalidPath { path: path.to_string(), reason: code.to_string() },
        ),
    }
}

/// An error of a read in the local file system.
#[derive(Debug, Clone, PartialEq, Eq)]
pub enum LocalError {
    /// The path leads out of the mount's root.
    OutsideSandbox(String),
    /// There is nothing at the path.
    NotFound(String),
    /// The path could not be read.
    Io {
        /// The path.
        path: String,
        /// What the system said.
        message: String,
    },
    /// Anything else, by its stable code.
    Other(String),
}

/// What a local error is to the engine: the path and a code, nothing of what the system said.
pub open spec fn local_failure(err: LocalError) -> CfsErrorView {
    match err {
        LocalError::OutsideSandbox(p) => CfsErrorView::InvalidPath {
            path: p@,
            reason: "outside_sandbox"@,
        },
        LocalError::NotFound(p) => CfsErrorView::InvalidPath {
            path: p@,
            reason: "read_failed"@,
        },
        LocalError::Io { path, message } => CfsErrorView::InvalidPath {
            path: path@,
            reason: "read_failed"@,
        },
        LocalError::Other(code) => CfsErrorView::InvalidPath { path: Seq::empty(), reason: code@ },
    }
}

/// The engine's error for an error of the local file system.
pub fn local_to_qfs(err: &LocalError) -> (r: CfsError)
    ensures
        r@ == local_failure(*err),
{
    match err {
        LocalError::OutsideSandbox(p) => CfsError::InvalidPath {
            path: p.clone(),
            reason: "outside_sandbox".to_string(),
        },
        LocalError::NotFound(p) => CfsError::InvalidPath {
            path: p.clone(),
            reason: "read_failed".to_string(),
        },
        LocalError::Io { path, .. } => CfsError::InvalidPath {
            path: path.clone(),
            reason: "read_failed".to_string(),
        },
        LocalError::Other(code) => {
            let path: String = String::new();
            assert(path@ =~= Seq::empty());
            CfsError::InvalidPath { path, reason: code.clone() }
        },
    }
}

/// Nothing that the system said gets out: two failures on the same path that differ only in the
/// system's message, or in whether the file was there, look the same. The path is the one that was
/// read, and only a path outside of the sandbox is told apart.
pub proof fn law_failures_hide_what_the_system_said(path: String, said: String, other: String)
    ensures
        local_failure(LocalError::Io { path, message: said }) == local_failure(
            LocalError::Io { path, message: other },
        ),
        local_failure(LocalError::Io { path, message: said }) == local_failure(
            LocalError::NotFound(path),
        ),
        local_failure(LocalError::NotFound(path))->InvalidPath_path == path@,
        local_failure(LocalError::OutsideSandbox(path))->InvalidPath_path == path@,
        local_failure(LocalError::OutsideSandbox(path)) != local_failure(
            LocalError::NotFound(path),
        ),
        local_failure(LocalError::Other(said))->InvalidPath_path.len() == 0,
        local_failure(LocalError::Other(said))->InvalidPath_reason == said@,
{
    reveal_strlit("outside_sandbox");
    reveal_strlit("read_failed");
    assert("outside_sandbox"@[0] == 'o' && "read_failed"@[0] == 'r');
}

} // verus!
