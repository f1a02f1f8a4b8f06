//! The configuration a run needs: which repository to reconcile, the bearer
//! credential, and the desired secrets. Loading it from the environment is
//! the embedding program's business; the library only defines the shape.

use vstd::prelude::*;

use crate::model::Secret;

verus! {

/// Configuration for one reconciliation run.
pub struct Config {
    pub organization: String,
    pub repository: String,
    pub token: String,
    pub secrets: Vec<Secret>,
}

} // verus!
