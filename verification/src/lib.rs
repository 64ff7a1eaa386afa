//! Request routing over a pool of interchangeable model deployments.
//!
//! A [`router::AdvancedRouter`] owns a registry of deployments, filters it to
//! the ones that may serve a model right now, and hands the candidates to one
//! of seven selection strategies. Outcome feedback updates the statistics of a
//! deployment and puts a failing one into cooldown.

use crate::error::RouterError;
use vstd::prelude::*;

mod clock;
pub mod config;
pub mod deployment;
pub mod error;
pub mod laws;
pub mod router;
pub mod selection;
pub mod strategy;
pub mod text;
pub mod tokens;

verus! {

/// Reports that the library is in working order; it always is.
pub fn health_check() -> (report: Result<bool, RouterError>)
    ensures
        report matches Ok(healthy) && healthy,
{
    Ok(true)
}

} // verus!
