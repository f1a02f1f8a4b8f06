//! Reconciles a desired list of named secret values against the secrets
//! registered on a remote repository-scoped secret store, sealing each value
//! against the store's published public key before transmission.
//!
//! The core is the reconciliation and encryption pipeline: `reconcile`
//! partitions the desired and existing names into create, update and delete
//! actions; `sealing::seal` wraps each plaintext value into an anonymous
//! sealed box against the store's public key; and `orchestrator::apply`
//! drives the actions through a [`orchestrator::SecretStore`], recording
//! each action's outcome independently so one failure does not stop the run.

pub mod config;
pub mod errors;
pub mod model;
pub mod orchestrator;
pub mod reconcile;
pub mod sealing;
pub mod secrets_manager;
pub mod tui;
