use vstd::prelude::*;

use crate::generation::{
    CurrentGenerationError, Generation, GenerationStorage, current_count, current_generation,
    gens_view,
};

verus! {

/// What a deploy does on the target host.
#[derive(Clone, Copy, Debug, PartialEq, Eq, Structural)]
pub enum DeployAction {
    /// Upload the closure, but do not execute the update.
    Upload,
    /// Upload and execute the activation script; the old version is used after reboot.
    Test,
    /// Upload and set as current system profile; the activation script only installs
    /// the boot entry.
    Boot,
    /// Upload, set current profile, and execute the activation script.
    Switch,
}

impl DeployAction {
    pub open spec fn spec_should_switch_profile(self) -> bool {
        self is Switch || self is Boot
    }

    pub open spec fn spec_should_activate(self) -> bool {
        !(self is Upload)
    }

    pub open spec fn spec_should_create_rollback_marker(self) -> bool {
        !(self is Upload)
    }

    pub open spec fn spec_should_schedule_rollback_run(self) -> bool {
        self is Switch || self is Test
    }

    /// The argument that the activation script takes for this action.
    pub fn name(&self) -> (r: Option<&'static str>)
        ensures
            r is None <==> *self is Upload,
            *self is Test ==> r == Some("test"),
            *self is Boot ==> r == Some("boot"),
            *self is Switch ==> r == Some("switch"),
    {
        match self {
            DeployAction::Upload => None,
            DeployAction::Test => Some("test"),
            DeployAction::Boot => Some("boot"),
            DeployAction::Switch => Some("switch"),
        }
    }

    pub fn should_switch_profile(&self) -> (r: bool)
        ensures
            r == self.spec_should_switch_profile(),
    {
        matches!(self, DeployAction::Switch | DeployAction::Boot)
    }

    pub fn should_activate(&self) -> (r: bool)
        ensures
            r == self.spec_should_activate(),
    {
        matches!(self, DeployAction::Switch | DeployAction::Test | DeployAction::Boot)
    }

    /// Every action but `Upload` changes the target host, and leaves a marker to roll
    /// back to; for `Boot` the host may roll back on its next boot.
    pub fn should_create_rollback_marker(&self) -> (r: bool)
        ensures
            r == self.spec_should_create_rollback_marker(),
    {
        !matches!(self, DeployAction::Upload)
    }

    pub fn should_schedule_rollback_run(&self) -> (r: bool)
        ensures
            r == self.spec_should_schedule_rollback_run(),
    {
        matches!(self, DeployAction::Switch | DeployAction::Test)
    }
}

/// How a host is brought to its configuration.
#[derive(Clone, Copy, Debug, PartialEq, Eq, Structural)]
pub enum DeployKind {
    /// A managed host.
    Fleet,
    /// A first installation.
    NixosInstall,
    /// A foreign system migrated in place.
    NixosLustrate,
}

/// Whether a host of this kind accepts the action.
pub open spec fn kind_allows(kind: DeployKind, action: DeployAction) -> bool {
    kind is Fleet || action is Boot || action is Upload
}

/// Why a deploy stopped.
#[derive(Clone, Copy, Debug, PartialEq, Eq, Structural)]
pub enum DeployError {
    /// Installation and lustration only support boot and upload.
    UnsupportedAction(DeployKind),
    /// The host's generations could not be listed.
    ListGenerationsFailed,
    /// No generation is marked current.
    NoCurrentGeneration,
    /// More than one generation is marked current.
    AmbiguousCurrentGeneration,
    /// `/etc/NIXOS_LUSTRATE` has not been created on the host.
    LustrateMarkerMissing,
    /// Whether `/etc/NIXOS_LUSTRATE` exists could not be told.
    LustrateCheckFailed,
    /// `/etc/NIXOS` could not be created.
    NixosMarkerFailed,
}

/// The steps of a deploy, in the order in which they may run.
#[derive(Clone, Copy, Debug, PartialEq, Eq, Structural)]
pub enum DeployStage {
    FindCurrentGeneration,
    SetRollbackMarker,
    ScheduleRollbackRun,
    CheckLustrateMarker,
    CreateNixosMarker,
    RunNixosInstall,
    SwitchProfile,
    Activate,
    TriggerRollback,
    RemoveRollbackMarker,
    DisarmWatchdog,
    DisarmRollbackRun,
    ClearRollbackMarker,
    Done,
}

pub open spec fn stage_rank(s: DeployStage) -> nat {
    match s {
        DeployStage::FindCurrentGeneration => 0,
        DeployStage::SetRollbackMarker => 1,
        DeployStage::ScheduleRollbackRun => 2,
        DeployStage::CheckLustrateMarker => 3,
        DeployStage::CreateNixosMarker => 4,
        DeployStage::RunNixosInstall => 5,
        DeployStage::SwitchProfile => 6,
        DeployStage::Activate => 7,
        DeployStage::TriggerRollback => 8,
        DeployStage::RemoveRollbackMarker => 9,
        DeployStage::DisarmWatchdog => 10,
        DeployStage::DisarmRollbackRun => 11,
        DeployStage::ClearRollbackMarker => 12,
        DeployStage::Done => 13,
    }
}

pub open spec fn spec_successor(s: DeployStage) -> DeployStage {
    match s {
        DeployStage::FindCurrentGeneration => DeployStage::SetRollbackMarker,
        DeployStage::SetRollbackMarker => DeployStage::ScheduleRollbackRun,
        DeployStage::ScheduleRollbackRun => DeployStage::CheckLustrateMarker,
        DeployStage::CheckLustrateMarker => DeployStage::CreateNixosMarker,
        DeployStage::CreateNixosMarker => DeployStage::RunNixosInstall,
        DeployStage::RunNixosInstall => DeployStage::SwitchProfile,
        DeployStage::SwitchProfile => DeployStage::Activate,
        DeployStage::Activate => DeployStage::TriggerRollback,
        DeployStage::TriggerRollback => DeployStage::RemoveRollbackMarker,
        DeployStage::RemoveRollbackMarker => DeployStage::DisarmWatchdog,
        DeployStage::DisarmWatchdog => DeployStage::DisarmRollbackRun,
        DeployStage::DisarmRollbackRun => DeployStage::ClearRollbackMarker,
        DeployStage::ClearRollbackMarker => DeployStage::Done,
        DeployStage::Done => DeployStage::Done,
    }
}

fn successor(s: DeployStage) -> (r: DeployStage)
    ensures
        r == spec_successor(s),
{
    match s {
        DeployStage::FindCurrentGeneration => DeployStage::SetRollbackMarker,
        DeployStage::SetRollbackMarker => DeployStage::ScheduleRollbackRun,
        DeployStage::ScheduleRollbackRun => DeployStage::CheckLustrateMarker,
        DeployStage::CheckLustrateMarker => DeployStage::CreateNixosMarker,
        DeployStage::CreateNixosMarker => DeployStage::RunNixosInstall,
        DeployStage::RunNixosInstall => DeployStage::SwitchProfile,
        DeployStage::SwitchProfile => DeployStage::Activate,
        DeployStage::Activate => DeployStage::TriggerRollback,
        DeployStage::TriggerRollback => DeployStage::RemoveRollbackMarker,
        DeployStage::RemoveRollbackMarker => DeployStage::DisarmWatchdog,
        DeployStage::DisarmWatchdog => DeployStage::DisarmRollbackRun,
        DeployStage::DisarmRollbackRun => DeployStage::ClearRollbackMarker,
        DeployStage::ClearRollbackMarker => DeployStage::Done,
        DeployStage::Done => DeployStage::Done,
    }
}

/// Whether a step runs, given the deploy's settings and whether a step has failed.
pub open spec fn stage_applies(
    action: DeployAction,
    kind: DeployKind,
    rollback: bool,
    failed: bool,
    s: DeployStage,
) -> bool {
    let marker = action.spec_should_create_rollback_marker();
    let run = action.spec_should_schedule_rollback_run();
    match s {
        DeployStage::FindCurrentGeneration => rollback && marker,
        DeployStage::SetRollbackMarker => rollback && marker,
        DeployStage::ScheduleRollbackRun => rollback && marker && run,
        DeployStage::CheckLustrateMarker => kind is NixosLustrate,
        DeployStage::CreateNixosMarker => kind is NixosLustrate,
        DeployStage::RunNixosInstall => kind is NixosInstall,
        DeployStage::SwitchProfile => !(kind is NixosInstall) && action.spec_should_switch_profile()
            && !failed,
        DeployStage::Activate => !(kind is NixosInstall) && action.spec_should_activate() && !failed,
        DeployStage::TriggerRollback => rollback && marker && failed && run,
        DeployStage::RemoveRollbackMarker => rollback && marker && !failed,
        DeployStage::DisarmWatchdog => rollback && marker,
        DeployStage::DisarmRollbackRun => rollback && marker && run,
        DeployStage::ClearRollbackMarker => !rollback && marker,
        DeployStage::Done => true,
    }
}

/// The first step, from `s` on, that runs.
pub open spec fn settle(
    action: DeployAction,
    kind: DeployKind,
    rollback: bool,
    failed: bool,
    s: DeployStage,
) -> DeployStage
    decreases 13 - stage_rank(s),
{
    if stage_rank(s) >= 13 || stage_applies(action, kind, rollback, failed, s) {
        s
    } else {
        settle(action, kind, rollback, failed, spec_successor(s))
    }
}

/// What the host is asked to do next.
#[derive(Debug)]
pub enum DeployCommand {
    /// List the host's system generations.
    ListGenerations,
    /// Atomically write a marker holding this generation id, without overwriting one.
    SetRollbackMarker(String),
    /// Arm a timer that starts the rollback service if the deploy is not confirmed.
    ScheduleRollbackRun,
    /// Tell whether `/etc/NIXOS_LUSTRATE` exists.
    CheckLustrateMarker,
    /// Create `/etc/NIXOS`.
    CreateNixosMarker,
    /// Install the system onto `/mnt`.
    RunNixosInstall,
    /// Point the system profile at the built closure.
    SwitchProfile,
    /// Run the activation script of the closure, or of one of its specialisations.
    Activate { specialisation: Option<String>, action: String, install_bootloader: bool },
    /// Start the rollback service now.
    TriggerRollback,
    /// Remove the rollback marker: the deploy succeeded.
    RemoveRollbackMarker,
    /// Stop the rollback watchdog timer.
    DisarmWatchdog,
    /// Stop the timer that would start the rollback service.
    DisarmRollbackRun,
    /// Remove a rollback marker that may be left over; failure is not an error.
    ClearRollbackMarker,
    /// Nothing is left to do.
    Finished,
}

/// What came of the last command.
#[derive(Debug)]
pub enum StepOutcome {
    Succeeded,
    Failed,
    /// The host's generations, as listed.
    Generations(Vec<Generation>),
    /// Whether the file asked about exists.
    Exists(bool),
}

/// A deploy to one host, one step at a time. The caller performs `command()` and
/// hands its outcome to `advance`, until the deploy is done or stops with an error.
#[derive(Debug)]
pub struct Deployment {
    pub action: DeployAction,
    pub kind: DeployKind,
    /// The rollback marker and watchdog are used.
    pub rollback: bool,
    pub specialisation: Option<String>,
    pub stage: DeployStage,
    /// A step has failed; later changes are skipped, and a rollback may follow.
    pub failed: bool,
    /// The generation to roll back to, once found.
    pub rollback_target: Option<String>,
}

impl Deployment {
    /// Starts a deploy; an action that the host's kind does not accept is refused
    /// before anything is done on the host.
    pub fn start(
        action: DeployAction,
        kind: DeployKind,
        disable_rollback: bool,
        specialisation: Option<String>,
    ) -> (r: Result<Deployment, DeployError>)
        ensures
            !kind_allows(kind, action) <==> r == Err::<Deployment, _>(DeployError::UnsupportedAction(kind)),
            kind_allows(kind, action) <==> r is Ok,
            r matches Ok(d) ==> d.action == action && d.kind == kind && d.rollback == !disable_rollback
                && d.specialisation == specialisation && !d.failed && d.rollback_target is None
                && d.stage == settle(action, kind, !disable_rollback, false, DeployStage::FindCurrentGeneration),
    {
        if (matches!(kind, DeployKind::NixosInstall) || matches!(kind, DeployKind::NixosLustrate))
            && !matches!(action, DeployAction::Boot | DeployAction::Upload) {
            return Err(DeployError::UnsupportedAction(kind));
        }
        let mut d = Deployment {
            action,
            kind,
            rollback: !disable_rollback,
            specialisation,
            stage: DeployStage::FindCurrentGeneration,
            failed: false,
            rollback_target: None,
        };
        d.stage = d.settle_from(DeployStage::FindCurrentGeneration);
        Ok(d)
    }

    fn applies(&self, s: DeployStage) -> (r: bool)
        ensures
            r == stage_applies(self.action, self.kind, self.rollback, self.failed, s),
    {
        let marker = self.action.should_create_rollback_marker();
        let run = self.action.should_schedule_rollback_run();
        let install = matches!(self.kind, DeployKind::NixosInstall);
        match s {
            DeployStage::FindCurrentGeneration => self.rollback && marker,
            DeployStage::SetRollbackMarker => self.rollback && marker,
            DeployStage::ScheduleRollbackRun => self.rollback && marker && run,
            DeployStage::CheckLustrateMarker => matches!(self.kind, DeployKind::NixosLustrate),
            DeployStage::CreateNixosMarker => matches!(self.kind, DeployKind::NixosLustrate),
            DeployStage::RunNixosInstall => install,
            DeployStage::SwitchProfile => !install && self.action.should_switch_profile()
                && !self.failed,
            DeployStage::Activate => !install && self.action.should_activate() && !self.failed,
            DeployStage::TriggerRollback => self.rollback && marker && self.failed && run,
            DeployStage::RemoveRollbackMarker => self.rollback && marker && !self.failed,
            DeployStage::DisarmWatchdog => self.rollback && marker,
            DeployStage::DisarmRollbackRun => self.rollback && marker && run,
            DeployStage::ClearRollbackMarker => !self.rollback && marker,
            DeployStage::Done => true,
        }
    }

    fn settle_from(&self, s: DeployStage) -> (r: DeployStage)
        ensures
            r == settle(self.action, self.kind, self.rollback, self.failed, s),
    {
        let mut cur = s;
        while !matches!(cur, DeployStage::Done) && !self.applies(cur)
            invariant
                settle(self.action, self.kind, self.rollback, self.failed, cur) == settle(
                    self.action,
                    self.kind,
                    self.rollback,
                    self.failed,
                    s,
                ),
            decreases 13 - stage_rank(cur),
        {
            cur = successor(cur);
        }
        cur
    }

    /// Whether nothing is left to do.
    pub fn is_done(&self) -> (r: bool)
        ensures
            r == (self.stage is Done),
    {
        matches!(self.stage, DeployStage::Done)
    }

    /// What the host should do now.
    pub fn command(&self) -> (r: DeployCommand)
        ensures
            self.stage is FindCurrentGeneration ==> r is ListGenerations,
            self.stage is SetRollbackMarker ==> ((r matches DeployCommand::SetRollbackMarker(id)
                && (self.rollback_target matches Some(t) && id@ == t@)) || (r is Finished
                && self.rollback_target is None)),
            self.stage is ScheduleRollbackRun ==> r is ScheduleRollbackRun,
            self.stage is CheckLustrateMarker ==> r is CheckLustrateMarker,
            self.stage is CreateNixosMarker ==> r is CreateNixosMarker,
            self.stage is RunNixosInstall ==> r is RunNixosInstall,
            self.stage is SwitchProfile ==> r is SwitchProfile,
            self.stage is Activate ==> ((r matches DeployCommand::Activate {
                specialisation,
                action,
                install_bootloader,
            } && specialisation == self.specialisation && install_bootloader == (
            self.kind is NixosLustrate) && (self.action is Test ==> action@ == "test"@) && (
            self.action is Boot ==> action@ == "boot"@) && (self.action is Switch ==> action@
                == "switch"@)) || (r is Finished && self.action is Upload)),
            self.stage is TriggerRollback ==> r is TriggerRollback,
            self.stage is RemoveRollbackMarker ==> r is RemoveRollbackMarker,
            self.stage is DisarmWatchdog ==> r is DisarmWatchdog,
            self.stage is DisarmRollbackRun ==> r is DisarmRollbackRun,
            self.stage is ClearRollbackMarker ==> r is ClearRollbackMarker,
            self.stage is Done ==> r is Finished,
    {
        match self.stage {
            DeployStage::FindCurrentGeneration => DeployCommand::ListGenerations,
            DeployStage::SetRollbackMarker => match &self.rollback_target {
                Some(id) => DeployCommand::SetRollbackMarker(id.clone()),
                None => DeployCommand::Finished,
            },
            DeployStage::ScheduleRollbackRun => DeployCommand::ScheduleRollbackRun,
            DeployStage::CheckLustrateMarker => DeployCommand::CheckLustrateMarker,
            DeployStage::CreateNixosMarker => DeployCommand::CreateNixosMarker,
            DeployStage::RunNixosInstall => DeployCommand::RunNixosInstall,
            DeployStage::SwitchProfile => DeployCommand::SwitchProfile,
            DeployStage::Activate => match self.action.name() {
                Some(name) => DeployCommand::Activate {
                    specialisation: self.specialisation.clone(),
                    action: name.to_string(),
                    install_bootloader: matches!(self.kind, DeployKind::NixosLustrate),
                },
                None => DeployCommand::Finished,
            },
            DeployStage::TriggerRollback => DeployCommand::TriggerRollback,
            DeployStage::RemoveRollbackMarker => DeployCommand::RemoveRollbackMarker,
            DeployStage::DisarmWatchdog => DeployCommand::DisarmWatchdog,
            DeployStage::DisarmRollbackRun => DeployCommand::DisarmRollbackRun,
            DeployStage::ClearRollbackMarker => DeployCommand::ClearRollbackMarker,
            DeployStage::Done => DeployCommand::Finished,
        }
    }

    /// Takes the outcome of the current command and moves to the next step that runs.
    /// Listing the generations, checking the lustration marker and creating `/etc/NIXOS`
    /// stop the deploy when they fail; the other steps only mark it failed, and the
    /// rollback steps go on regardless of their outcome.
    pub fn advance(&mut self, outcome: StepOutcome) -> (r: Result<(), DeployError>)
        ensures
            old(self).stage is FindCurrentGeneration ==> match outcome {
                StepOutcome::Generations(g) => {
                    &&& current_count(gens_view(g@)) == 0 <==> r == Err::<(), _>(DeployError::NoCurrentGeneration)
                    &&& current_count(gens_view(g@)) > 1 <==> r == Err::<(), _>(DeployError::AmbiguousCurrentGeneration)
                    &&& current_count(gens_view(g@)) == 1 <==> r is Ok
                    &&& r is Ok ==> (final(self).rollback_target matches Some(t)
                        && exists|i: int| 0 <= i < g@.len() && g@[i].current && g@[i].id@ == t@)
                },
                _ => r == Err::<(), _>(DeployError::ListGenerationsFailed),
            },
            old(self).stage is CheckLustrateMarker ==> match outcome {
                StepOutcome::Exists(true) => r is Ok,
                StepOutcome::Exists(false) => r == Err::<(), _>(DeployError::LustrateMarkerMissing),
                _ => r == Err::<(), _>(DeployError::LustrateCheckFailed),
            },
            old(self).stage is CreateNixosMarker ==> (r is Err <==> outcome is Failed),
            old(self).stage is CreateNixosMarker && r is Err ==> r == Err::<(), _>(DeployError::NixosMarkerFailed),
            !(old(self).stage is FindCurrentGeneration) && !(old(self).stage is CheckLustrateMarker)
                && !(old(self).stage is CreateNixosMarker) ==> r is Ok,
            r is Ok ==> {
                &&& final(self).action == old(self).action
                &&& final(self).kind == old(self).kind
                &&& final(self).rollback == old(self).rollback
                &&& final(self).specialisation == old(self).specialisation
                &&& final(self).failed == (old(self).failed || (outcome is Failed && (
                old(self).stage is SetRollbackMarker || old(self).stage is ScheduleRollbackRun
                    || old(self).stage is RunNixosInstall || old(self).stage is SwitchProfile
                    || old(self).stage is Activate)))
                &&& !(old(self).stage is FindCurrentGeneration) ==> final(self).rollback_target
                    == old(self).rollback_target
                &&& final(self).stage == settle(
                    final(self).action,
                    final(self).kind,
                    final(self).rollback,
                    final(self).failed,
                    spec_successor(old(self).stage),
                )
            },
    {
        match self.stage {
            DeployStage::FindCurrentGeneration => {
                match &outcome {
                    StepOutcome::Generations(g) => {
                        match current_generation(g) {
                            Ok(current) => {
                                self.rollback_target = Some(current.id.clone());
                            },
                            Err(CurrentGenerationError::NotFound) => {
                                return Err(DeployError::NoCurrentGeneration);
                            },
                            Err(CurrentGenerationError::Ambiguous) => {
                                return Err(DeployError::AmbiguousCurrentGeneration);
                            },
                        }
                    },
                    _ => {
                        return Err(DeployError::ListGenerationsFailed);
                    },
                }
            },
            DeployStage::CheckLustrateMarker => {
                match outcome {
                    StepOutcome::Exists(true) => {},
                    StepOutcome::Exists(false) => {
                        return Err(DeployError::LustrateMarkerMissing);
                    },
                    _ => {
                        return Err(DeployError::LustrateCheckFailed);
                    },
                }
            },
            DeployStage::CreateNixosMarker => {
                if matches!(outcome, StepOutcome::Failed) {
                    return Err(DeployError::NixosMarkerFailed);
                }
            },
            DeployStage::SetRollbackMarker | DeployStage::ScheduleRollbackRun
            | DeployStage::RunNixosInstall | DeployStage::SwitchProfile | DeployStage::Activate => {
                if matches!(outcome, StepOutcome::Failed) {
                    self.failed = true;
                }
            },
            _ => {},
        }
        let next = successor(self.stage);
        self.stage = self.settle_from(next);
        Ok(())
    }
}

/// With rollback on, a deploy that schedules a rollback run and fails by the end of
/// activation triggers the rollback at once, never removes the marker, and still
/// disarms both timers; one that succeeds removes the marker and disarms both timers.
pub proof fn lemma_rollback_resolution(action: DeployAction, kind: DeployKind)
    requires
        action.spec_should_schedule_rollback_run(),
    ensures
        settle(action, kind, true, true, spec_successor(DeployStage::Activate)) == DeployStage::TriggerRollback,
        settle(action, kind, true, true, spec_successor(DeployStage::TriggerRollback)) == DeployStage::DisarmWatchdog,
        settle(action, kind, true, false, spec_successor(DeployStage::Activate)) == DeployStage::RemoveRollbackMarker,
        settle(action, kind, true, false, spec_successor(DeployStage::RemoveRollbackMarker)) == DeployStage::DisarmWatchdog,
        settle(action, kind, true, true, spec_successor(DeployStage::DisarmWatchdog)) == DeployStage::DisarmRollbackRun,
        settle(action, kind, true, false, spec_successor(DeployStage::DisarmWatchdog)) == DeployStage::DisarmRollbackRun,
{
    assert(settle(action, kind, true, true, DeployStage::DisarmWatchdog) == DeployStage::DisarmWatchdog);
    assert(settle(action, kind, true, true, DeployStage::RemoveRollbackMarker) == DeployStage::DisarmWatchdog);
    assert(settle(action, kind, true, false, DeployStage::RemoveRollbackMarker) == DeployStage::RemoveRollbackMarker);
    assert(settle(action, kind, true, false, DeployStage::TriggerRollback) == DeployStage::RemoveRollbackMarker);
}

/// What an upload does before it copies anything.
#[derive(Clone, Copy, Debug, PartialEq, Eq, Structural)]
pub enum UploadPlan {
    /// The host is the deployer: the closure is already in place.
    InPlace,
    /// Sign the closure, then copy it to the host.
    Copy,
}

/// Why an upload did not happen.
#[derive(Clone, Copy, Debug, PartialEq, Eq, Structural)]
pub enum UploadError {
    /// Uploading through a pusher is not enabled in this version.
    PusherDisabled,
    /// Copying failed on every attempt.
    CopyFailed,
}

/// Decides how a closure kept at `location` reaches a host.
pub fn plan_upload(location: GenerationStorage, host_is_local: bool) -> (r: Result<UploadPlan, UploadError>)
    ensures
        location is Pusher ==> r == Err::<UploadPlan, _>(UploadError::PusherDisabled),
        !(location is Pusher) && host_is_local ==> r == Ok::<_, UploadError>(UploadPlan::InPlace),
        !(location is Pusher) && !host_is_local ==> r == Ok::<_, UploadError>(UploadPlan::Copy),
{
    if matches!(location, GenerationStorage::Pusher) {
        return Err(UploadError::PusherDisabled);
    }
    if host_is_local {
        Ok(UploadPlan::InPlace)
    } else {
        Ok(UploadPlan::Copy)
    }
}

/// How many times a failed copy is retried.
pub const UPLOAD_RETRIES: u32 = 3;

/// Seconds to wait before retrying a copy.
pub const UPLOAD_RETRY_DELAY_SECS: u64 = 5;

/// What to do after a copy attempt.
#[derive(Clone, Copy, Debug, PartialEq, Eq, Structural)]
pub enum CopyDecision {
    /// The copy succeeded: the closure is on the host.
    Done,
    /// Wait, then try again.
    Retry,
    /// Give up with the last error.
    GiveUp,
}

/// Counts the failed copies of one upload.
#[derive(Clone, Copy, Debug, PartialEq, Eq, Structural)]
pub struct CopyAttempts {
    pub retries: u32,
}

impl CopyAttempts {
    pub fn new() -> (r: CopyAttempts)
        ensures
            r.retries == 0,
    {
        CopyAttempts { retries: 0 }
    }

    /// Records the result of an attempt: a success ends the upload, a failure is
    /// retried until `UPLOAD_RETRIES` retries have been made.
    pub fn record(&mut self, succeeded: bool) -> (r: CopyDecision)
        requires
            old(self).retries <= UPLOAD_RETRIES,
        ensures
            succeeded ==> r == CopyDecision::Done && final(self).retries == old(self).retries,
            !succeeded && old(self).retries < UPLOAD_RETRIES ==> r == CopyDecision::Retry
                && final(self).retries == old(self).retries + 1,
            !succeeded && old(self).retries >= UPLOAD_RETRIES ==> r == CopyDecision::GiveUp
                && final(self).retries == old(self).retries,
            final(self).retries <= UPLOAD_RETRIES,
    {
        if succeeded {
            CopyDecision::Done
        } else if self.retries < UPLOAD_RETRIES {
            self.retries = self.retries + 1;
            CopyDecision::Retry
        } else {
            CopyDecision::GiveUp
        }
    }
}

} // verus!
