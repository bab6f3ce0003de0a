//! Deploys declarative machine configurations to a fleet of hosts, with rollback
//! protection, and keeps the fleet's encrypted secrets consistent with what is
//! declared of them: the deploy state machine, the rollback-target catalog, the
//! secret expectation engine and reconciler, the generator pipeline's checks, and the
//! writer of configuration-language expressions.

use vstd::prelude::*;

pub mod commands;
pub mod declaration;
pub mod deploy;
pub mod generation;
pub mod generator;
pub mod logging;
pub mod names;
pub mod nixlike;
pub mod parts;
pub mod reconcile;
pub mod secret;
pub mod telemetry;
pub mod time;

verus! {

} // verus!
