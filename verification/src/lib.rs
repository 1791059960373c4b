//! Registry-credential reconciliation for a multi-tenant cluster.
//!
//! The crate holds the decisions of a reconciler that keeps registry secrets
//! in step across the namespaces of a cluster and binds each namespace's
//! workload identity to them. It makes no cluster call itself: it names the
//! call that is due, and its caller makes the call and hands back what came
//! of it.
//!
//! - [`config`]: the credential entries and the record they are read from.
//! - [`namespace`]: which of the listed namespaces are active.
//! - [`auth`], [`base64`], [`json`]: the blob that a registry secret stores.
//! - [`cluster`]: the answers of the cluster and the classes of its failures.
//! - [`worker`]: what to do about a secret and about a workload identity.
//! - [`pass`]: one pass over every namespace and every entry meant for it.
//! - [`reconcile`]: when a pass runs, and how requests for one are merged.
//! - [`model`], [`convergence`]: a model of the cluster and the laws that
//!   hold of the decisions over it.
//! - [`list`], [`text`]: a linked stack, and helpers on strings.

pub mod auth;
pub mod base64;
pub mod cluster;
pub mod config;
pub mod convergence;
pub mod json;
pub mod list;
pub mod model;
pub mod namespace;
pub mod pass;
pub mod reconcile;
pub mod text;
pub mod worker;
