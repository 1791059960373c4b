//! What the cluster is asked and what it answers.
//!
//! The library makes no cluster call. It says which call is due, and the
//! caller reports what came of it, in the plain values of this module.

use crate::text::texts;
use vstd::prelude::*;

verus! {

/// Why a cluster call did not succeed.
#[derive(Debug, Clone, Copy, PartialEq, Eq, Structural)]
pub enum ApiFailure {
    /// The server answered with this status code.
    Status(u16),
    /// No answer came: the connection failed or timed out.
    Transport,
}

/// Why a pair could not be reconciled.
#[derive(Debug, Clone, Copy, PartialEq, Eq, Structural)]
pub enum SyncError {
    /// Worth trying again on the next pass.
    Transient(ApiFailure),
    /// Stays until its cause is mended from outside.
    Fatal(ApiFailure),
}

/// How the reconciling of one pair ended.
#[derive(Debug, Clone, Copy, PartialEq, Eq, Structural)]
pub enum Outcome {
    /// The entry is not meant for the namespace.
    Skipped,
    /// The secret is in place and the identity refers to it.
    Synced,
    /// The pair failed.
    Failed(SyncError),
}

/// The status code that reports that an object does not exist.
pub const NOT_FOUND: u16 = 404;

/// The status code of a request that the server gave up waiting for.
pub const REQUEST_TIMEOUT: u16 = 408;

/// The status code of a request that was turned away for coming too often.
pub const TOO_MANY_REQUESTS: u16 = 429;

/// The lowest status code that reports a fault of the server.
pub const SERVER_FAULT: u16 = 500;

/// Whether a failure reports that the object does not exist.
pub open spec fn is_absent(failure: ApiFailure) -> bool {
    failure == ApiFailure::Status(NOT_FOUND)
}

/// Whether a failure may pass by itself: no answer, a timeout, a refusal for
/// coming too often, or a fault of the server.
pub open spec fn is_transient(failure: ApiFailure) -> bool {
    match failure {
        ApiFailure::Transport => true,
        ApiFailure::Status(code) => code == REQUEST_TIMEOUT || code == TOO_MANY_REQUESTS || code
            >= SERVER_FAULT,
    }
}

/// The error that a failure stands for.
pub open spec fn classified(failure: ApiFailure) -> SyncError {
    if is_transient(failure) {
        SyncError::Transient(failure)
    } else {
        SyncError::Fatal(failure)
    }
}

/// Sorts a failure into the errors worth trying again and the others.
pub fn classify(failure: ApiFailure) -> (error: SyncError)
    ensures
        error == classified(failure),
{
    match failure {
        ApiFailure::Transport => SyncError::Transient(failure),
        ApiFailure::Status(code) => {
            if code == REQUEST_TIMEOUT || code == TOO_MANY_REQUESTS || code >= SERVER_FAULT {
                SyncError::Transient(failure)
            } else {
                SyncError::Fatal(failure)
            }
        },
    }
}

/// Whether a failure reports that the object does not exist.
pub fn absent(failure: ApiFailure) -> (r: bool)
    ensures
        r == is_absent(failure),
{
    match failure {
        ApiFailure::Transport => false,
        ApiFailure::Status(code) => code == NOT_FOUND,
    }
}

/// What reading a secret gave.
#[derive(Debug)]
pub enum SecretRead {
    /// The secret exists; this is the blob it stores, if it stores one.
    Found(Option<String>),
    /// The read failed.
    Failed(ApiFailure),
}

/// What reading a secret gave, as plain sequences.
pub enum SecretReadView {
    Found(Option<Seq<char>>),
    Failed(ApiFailure),
}

impl View for SecretRead {
    type V = SecretReadView;

    open spec fn view(&self) -> SecretReadView {
        match *self {
            SecretRead::Found(None) => SecretReadView::Found(None),
            SecretRead::Found(Some(blob)) => SecretReadView::Found(Some(blob@)),
            SecretRead::Failed(failure) => SecretReadView::Failed(failure),
        }
    }
}

/// What reading a workload identity gave.
#[derive(Debug)]
pub enum IdentityRead {
    /// The identity exists; these are the secrets it refers to, in order.
    Found(Vec<String>),
    /// The read failed.
    Failed(ApiFailure),
}

/// What reading a workload identity gave, as plain sequences.
pub enum IdentityReadView {
    Found(Seq<Seq<char>>),
    Failed(ApiFailure),
}

impl View for IdentityRead {
    type V = IdentityReadView;

    open spec fn view(&self) -> IdentityReadView {
        match *self {
            IdentityRead::Found(refs) => IdentityReadView::Found(texts(refs@)),
            IdentityRead::Failed(failure) => IdentityReadView::Failed(failure),
        }
    }
}

/// A secret to be written: where, under which name, the blob it is to store,
/// and the document to send.
#[derive(Debug)]
pub struct SecretWrite {
    pub namespace: String,
    pub name: String,
    pub blob: String,
    pub body: String,
}

/// A secret to be written, as plain sequences.
pub struct SecretWriteView {
    pub namespace: Seq<char>,
    pub name: Seq<char>,
    pub blob: Seq<char>,
    pub body: Seq<char>,
}

impl View for SecretWrite {
    type V = SecretWriteView;

    open spec fn view(&self) -> SecretWriteView {
        SecretWriteView {
            namespace: self.namespace@,
            name: self.name@,
            blob: self.blob@,
            body: self.body@,
        }
    }
}

/// A workload identity to be patched: where, under which name, the secrets it
/// is to refer to, and the document to send.
#[derive(Debug)]
pub struct IdentityWrite {
    pub namespace: String,
    pub name: String,
    pub refs: Vec<String>,
    pub body: String,
}

/// A workload identity to be patched, as plain sequences.
pub struct IdentityWriteView {
    pub namespace: Seq<char>,
    pub name: Seq<char>,
    pub refs: Seq<Seq<char>>,
    pub body: Seq<char>,
}

impl View for IdentityWrite {
    type V = IdentityWriteView;

    open spec fn view(&self) -> IdentityWriteView {
        IdentityWriteView {
            namespace: self.namespace@,
            name: self.name@,
            refs: texts(self.refs@),
            body: self.body@,
        }
    }
}

} // verus!
