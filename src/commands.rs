use vstd::prelude::*;
use vstd::string::StringExecFns;

use crate::deploy::{DeployAction, DeployKind};
use crate::generation::{Generation, find_generation};

verus! {

/// Options of the fleet-wide deploy.
#[derive(Clone, Copy, Debug, PartialEq, Eq, Structural)]
pub struct Deploy {
    /// Disable the automatic rollback.
    pub disable_rollback: bool,
    /// What to do once the systems are built.
    pub action: DeployAction,
}

impl Deploy {
    /// Whether a host of `kind` is deployed without rollback: only managed hosts
    /// support it.
    pub fn rollback_disabled_for(&self, kind: DeployKind) -> (r: bool)
        ensures
            r == (self.disable_rollback || !(kind is Fleet)),
    {
        self.disable_rollback || !matches!(kind, DeployKind::Fleet)
    }
}

/// Options of the build of every host's system.
#[derive(Debug)]
pub struct BuildSystems {
    /// The attribute to build; systems are deployed from `toplevel`.
    pub build_attr: String,
}

impl Default for BuildSystems {
    fn default() -> (r: BuildSystems)
        ensures
            r.build_attr@ == "toplevel"@,
    {
        BuildSystems { build_attr: String::from_str("toplevel") }
    }
}

/// The profile that keeps a host's built system alive on the deployer.
pub open spec fn gc_root_profile(prefix: Seq<char>, host: Seq<char>) -> Seq<char> {
    "/nix/var/nix/profiles/"@ + prefix + "-"@ + host
}

/// The profile namespace under which the deployer keeps a host's systems.
pub open spec fn gc_root_namespace(prefix: Seq<char>, host: Seq<char>) -> Seq<char> {
    prefix + "-"@ + host
}

/// Names the deployer's profile namespace for `host`.
pub fn host_gc_root_namespace(prefix: &str, host: &str) -> (r: String)
    ensures
        r@ == gc_root_namespace(prefix@, host@),
{
    let mut r = String::from_str(prefix);
    r.append("-");
    r.append(host);
    r
}

/// Names the deployer's profile for `host`.
pub fn host_gc_root_profile(prefix: &str, host: &str) -> (r: String)
    ensures
        r@ == gc_root_profile(prefix@, host@),
{
    let mut r = String::from_str("/nix/var/nix/profiles/");
    r.append(prefix);
    r.append("-");
    r.append(host);
    r
}

/// Options of a rollback to an earlier generation.
#[derive(Debug)]
pub struct DeployOptions {
    /// The rollback target.
    pub id: String,
    /// Roll back to the current generation if the rollback fails.
    pub enable_rollback: bool,
    /// The specialisation to activate.
    pub specialization: Option<String>,
}

/// What a rollback command does.
#[derive(Debug)]
pub enum RollbackAction {
    /// List the rollback targets.
    ListTargets,
    /// Activate the target; the current version is used after reboot.
    Test(DeployOptions),
    /// Make the target the current profile, and activate it.
    Switch(DeployOptions),
    /// Make the target the current profile, without activating it.
    Boot(DeployOptions),
}

/// A rollback of one host.
#[derive(Debug)]
pub struct RollbackSingle {
    pub machine: String,
    pub action: RollbackAction,
}

/// Why a rollback could not start.
#[derive(Clone, Copy, Debug, PartialEq, Eq, Structural)]
pub enum RollbackError {
    /// The host has no rollback target.
    NoTargets,
    /// No rollback target has the id asked for.
    TargetNotFound,
}

impl RollbackSingle {
    /// The deploy action that the rollback performs; `None` for listing.
    pub fn deploy_action(&self) -> (r: Option<DeployAction>)
        ensures
            self.action is ListTargets <==> r is None,
            self.action is Test ==> r == Some(DeployAction::Test),
            self.action is Switch ==> r == Some(DeployAction::Switch),
            self.action is Boot ==> r == Some(DeployAction::Boot),
    {
        match &self.action {
            RollbackAction::ListTargets => None,
            RollbackAction::Test(_) => Some(DeployAction::Test),
            RollbackAction::Switch(_) => Some(DeployAction::Switch),
            RollbackAction::Boot(_) => Some(DeployAction::Boot),
        }
    }

    /// The options of a deploying rollback.
    pub fn options(&self) -> (r: Option<&DeployOptions>)
        ensures
            self.action is ListTargets <==> r is None,
            self.action matches RollbackAction::Test(o) ==> r == Some(&o),
            self.action matches RollbackAction::Switch(o) ==> r == Some(&o),
            self.action matches RollbackAction::Boot(o) ==> r == Some(&o),
    {
        match &self.action {
            RollbackAction::ListTargets => None,
            RollbackAction::Test(o) => Some(o),
            RollbackAction::Switch(o) => Some(o),
            RollbackAction::Boot(o) => Some(o),
        }
    }
}

/// Picks the rollback target with the given id among the known targets.
pub fn select_rollback_target<'a>(targets: &'a Vec<Generation>, id: &String) -> (r: Result<&'a Generation, RollbackError>)
    ensures
        targets@.len() == 0 <==> r == Err::<&Generation, _>(RollbackError::NoTargets),
        targets@.len() > 0 && (forall|i: int| 0 <= i < targets@.len() ==> (#[trigger] targets@[i]).id@ != id@)
            <==> r == Err::<&Generation, _>(RollbackError::TargetNotFound),
        r matches Ok(g) ==> g.id@ == id@ && exists|i: int| 0 <= i < targets@.len() && targets@[i] == *g,
{
    if targets.len() == 0 {
        return Err(RollbackError::NoTargets);
    }
    match find_generation(targets, id) {
        Some(g) => Ok(g),
        None => Err(RollbackError::TargetNotFound),
    }
}

} // verus!
