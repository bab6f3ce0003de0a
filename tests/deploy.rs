use fleet::commands::{
    Deploy, DeployOptions, RollbackAction, RollbackError, RollbackSingle, host_gc_root_namespace,
    host_gc_root_profile, select_rollback_target,
};
use fleet::deploy::{
    CopyAttempts, CopyDecision, DeployAction, DeployCommand, DeployError, DeployKind, Deployment,
    StepOutcome, UploadError, UploadPlan, plan_upload,
};
use fleet::generation::{Generation, GenerationStorage, current_generation, merge_generations};
use fleet::time::Timestamp;

fn generation(id: &str, secs: i64, path: &str, current: bool, location: GenerationStorage) -> Generation {
    Generation {
        id: id.to_string(),
        datetime: Timestamp { secs, nanos: 0 },
        store_path: path.to_string(),
        current,
        location,
    }
}

fn host_generations() -> Vec<Generation> {
    vec![
        generation("1", 100, "/nix/store/a-system", false, GenerationStorage::Machine),
        generation("2", 200, "/nix/store/b-system", true, GenerationStorage::Machine),
    ]
}

/// Drives a deploy, answering each command with `answer`, and returns the commands.
fn run(mut d: Deployment, answer: impl Fn(&DeployCommand) -> StepOutcome) -> Result<Vec<DeployCommand>, DeployError> {
    let mut seen = Vec::new();
    while !d.is_done() {
        let cmd = d.command();
        let outcome = answer(&cmd);
        seen.push(cmd);
        d.advance(outcome)?;
    }
    Ok(seen)
}

#[test]
fn install_and_lustrate_refuse_activating_actions() {
    for kind in [DeployKind::NixosInstall, DeployKind::NixosLustrate] {
        for action in [DeployAction::Test, DeployAction::Switch] {
            let r = Deployment::start(action, kind, false, None);
            assert!(matches!(r, Err(DeployError::UnsupportedAction(k)) if k == kind));
        }
        for action in [DeployAction::Boot, DeployAction::Upload] {
            assert!(Deployment::start(action, kind, false, None).is_ok());
        }
    }
    for action in [DeployAction::Upload, DeployAction::Test, DeployAction::Boot, DeployAction::Switch] {
        assert!(Deployment::start(action, DeployKind::Fleet, false, None).is_ok());
    }
}

#[test]
fn action_flags() {
    assert!(!DeployAction::Upload.should_create_rollback_marker());
    assert!(DeployAction::Test.should_create_rollback_marker());
    assert!(DeployAction::Boot.should_create_rollback_marker());
    assert!(DeployAction::Switch.should_create_rollback_marker());
    assert!(!DeployAction::Upload.should_schedule_rollback_run());
    assert!(DeployAction::Test.should_schedule_rollback_run());
    assert!(!DeployAction::Boot.should_schedule_rollback_run());
    assert!(DeployAction::Switch.should_schedule_rollback_run());
    assert!(DeployAction::Switch.should_switch_profile());
    assert!(DeployAction::Boot.should_switch_profile());
    assert!(!DeployAction::Test.should_switch_profile());
    assert!(!DeployAction::Upload.should_activate());
    assert_eq!(DeployAction::Upload.name(), None);
    assert_eq!(DeployAction::Test.name(), Some("test"));
    assert_eq!(DeployAction::Boot.name(), Some("boot"));
    assert_eq!(DeployAction::Switch.name(), Some("switch"));
}

#[test]
fn switch_with_failed_activation_triggers_rollback() {
    let d = Deployment::start(DeployAction::Switch, DeployKind::Fleet, false, None).unwrap();
    let seen = run(d, |cmd| match cmd {
        DeployCommand::ListGenerations => StepOutcome::Generations(host_generations()),
        DeployCommand::Activate { .. } => StepOutcome::Failed,
        _ => StepOutcome::Succeeded,
    })
    .unwrap();
    assert!(matches!(&seen[0], DeployCommand::ListGenerations));
    assert!(matches!(&seen[1], DeployCommand::SetRollbackMarker(id) if id == "2"));
    assert!(matches!(seen[2], DeployCommand::ScheduleRollbackRun));
    assert!(matches!(seen[3], DeployCommand::SwitchProfile));
    assert!(matches!(&seen[4], DeployCommand::Activate { action, specialisation: None, install_bootloader: false } if action == "switch"));
    assert!(matches!(seen[5], DeployCommand::TriggerRollback));
    assert!(matches!(seen[6], DeployCommand::DisarmWatchdog));
    assert!(matches!(seen[7], DeployCommand::DisarmRollbackRun));
    assert_eq!(seen.len(), 8);
    assert!(!seen.iter().any(|c| matches!(c, DeployCommand::RemoveRollbackMarker)));
}

#[test]
fn switch_with_successful_activation_removes_marker() {
    let d = Deployment::start(DeployAction::Switch, DeployKind::Fleet, false, Some("vm".to_string())).unwrap();
    let seen = run(d, |cmd| match cmd {
        DeployCommand::ListGenerations => StepOutcome::Generations(host_generations()),
        _ => StepOutcome::Succeeded,
    })
    .unwrap();
    assert!(matches!(&seen[4], DeployCommand::Activate { specialisation: Some(s), .. } if s == "vm"));
    assert!(matches!(seen[5], DeployCommand::RemoveRollbackMarker));
    assert!(matches!(seen[6], DeployCommand::DisarmWatchdog));
    assert!(matches!(seen[7], DeployCommand::DisarmRollbackRun));
    assert_eq!(seen.len(), 8);
    assert!(!seen.iter().any(|c| matches!(c, DeployCommand::TriggerRollback)));
}

#[test]
fn failed_marker_skips_switch_and_activation() {
    let d = Deployment::start(DeployAction::Switch, DeployKind::Fleet, false, None).unwrap();
    let seen = run(d, |cmd| match cmd {
        DeployCommand::ListGenerations => StepOutcome::Generations(host_generations()),
        DeployCommand::SetRollbackMarker(_) => StepOutcome::Failed,
        _ => StepOutcome::Succeeded,
    })
    .unwrap();
    assert!(!seen.iter().any(|c| matches!(c, DeployCommand::SwitchProfile | DeployCommand::Activate { .. })));
    assert!(seen.iter().any(|c| matches!(c, DeployCommand::TriggerRollback)));
}

#[test]
fn boot_keeps_marker_for_next_boot_without_watchdog_run() {
    let d = Deployment::start(DeployAction::Boot, DeployKind::Fleet, false, None).unwrap();
    let seen = run(d, |cmd| match cmd {
        DeployCommand::ListGenerations => StepOutcome::Generations(host_generations()),
        _ => StepOutcome::Succeeded,
    })
    .unwrap();
    assert!(matches!(&seen[1], DeployCommand::SetRollbackMarker(_)));
    assert!(matches!(seen[2], DeployCommand::SwitchProfile));
    assert!(matches!(&seen[3], DeployCommand::Activate { action, .. } if action == "boot"));
    assert!(matches!(seen[4], DeployCommand::RemoveRollbackMarker));
    assert!(matches!(seen[5], DeployCommand::DisarmWatchdog));
    assert_eq!(seen.len(), 6);
}

#[test]
fn disabled_rollback_only_clears_marker() {
    let d = Deployment::start(DeployAction::Switch, DeployKind::Fleet, true, None).unwrap();
    let seen = run(d, |_| StepOutcome::Succeeded).unwrap();
    assert_eq!(seen.len(), 3);
    assert!(matches!(seen[0], DeployCommand::SwitchProfile));
    assert!(matches!(seen[1], DeployCommand::Activate { .. }));
    assert!(matches!(seen[2], DeployCommand::ClearRollbackMarker));
}

#[test]
fn upload_only_does_nothing_on_host() {
    let d = Deployment::start(DeployAction::Upload, DeployKind::Fleet, false, None).unwrap();
    assert!(d.is_done());
    assert!(matches!(d.command(), DeployCommand::Finished));
}

#[test]
fn install_runs_installer_only() {
    let d = Deployment::start(DeployAction::Boot, DeployKind::NixosInstall, true, None).unwrap();
    let seen = run(d, |_| StepOutcome::Succeeded).unwrap();
    assert_eq!(seen.len(), 2);
    assert!(matches!(seen[0], DeployCommand::RunNixosInstall));
    assert!(matches!(seen[1], DeployCommand::ClearRollbackMarker));
}

#[test]
fn lustrate_needs_operator_marker() {
    let d = Deployment::start(DeployAction::Boot, DeployKind::NixosLustrate, true, None).unwrap();
    let r = run(d, |cmd| match cmd {
        DeployCommand::CheckLustrateMarker => StepOutcome::Exists(false),
        _ => StepOutcome::Succeeded,
    });
    assert!(matches!(r, Err(DeployError::LustrateMarkerMissing)));

    let d = Deployment::start(DeployAction::Boot, DeployKind::NixosLustrate, true, None).unwrap();
    let r = run(d, |_| StepOutcome::Failed);
    assert!(matches!(r, Err(DeployError::LustrateCheckFailed)));

    let d = Deployment::start(DeployAction::Boot, DeployKind::NixosLustrate, true, None).unwrap();
    let r = run(d, |cmd| match cmd {
        DeployCommand::CheckLustrateMarker => StepOutcome::Exists(true),
        DeployCommand::CreateNixosMarker => StepOutcome::Failed,
        _ => StepOutcome::Succeeded,
    });
    assert!(matches!(r, Err(DeployError::NixosMarkerFailed)));

    let d = Deployment::start(DeployAction::Boot, DeployKind::NixosLustrate, true, None).unwrap();
    let seen = run(d, |cmd| match cmd {
        DeployCommand::CheckLustrateMarker => StepOutcome::Exists(true),
        _ => StepOutcome::Succeeded,
    })
    .unwrap();
    assert!(matches!(&seen[3], DeployCommand::Activate { install_bootloader: true, .. }));
}

#[test]
fn current_generation_must_be_unique() {
    let d = Deployment::start(DeployAction::Test, DeployKind::Fleet, false, None).unwrap();
    let none = vec![generation("1", 1, "/nix/store/a", false, GenerationStorage::Machine)];
    assert!(matches!(run(d, move |_| StepOutcome::Generations(none.iter().map(|g| generation(&g.id, 1, &g.store_path, false, GenerationStorage::Machine)).collect())), Err(DeployError::NoCurrentGeneration)));

    let d = Deployment::start(DeployAction::Test, DeployKind::Fleet, false, None).unwrap();
    let r = run(d, |_| StepOutcome::Generations(vec![
        generation("1", 1, "/nix/store/a", true, GenerationStorage::Machine),
        generation("2", 2, "/nix/store/b", true, GenerationStorage::Machine),
    ]));
    assert!(matches!(r, Err(DeployError::AmbiguousCurrentGeneration)));

    let d = Deployment::start(DeployAction::Test, DeployKind::Fleet, false, None).unwrap();
    assert!(matches!(run(d, |_| StepOutcome::Failed), Err(DeployError::ListGenerationsFailed)));

    let gens = host_generations();
    assert_eq!(current_generation(&gens).unwrap().id, "2");
}

#[test]
fn upload_retries_then_succeeds() {
    let mut attempts = CopyAttempts::new();
    assert_eq!(attempts.record(false), CopyDecision::Retry);
    assert_eq!(attempts.record(false), CopyDecision::Retry);
    assert_eq!(attempts.record(true), CopyDecision::Done);
    assert_eq!(attempts.retries, 2);
}

#[test]
fn upload_gives_up_after_three_retries() {
    let mut attempts = CopyAttempts::new();
    assert_eq!(attempts.record(false), CopyDecision::Retry);
    assert_eq!(attempts.record(false), CopyDecision::Retry);
    assert_eq!(attempts.record(false), CopyDecision::Retry);
    assert_eq!(attempts.record(false), CopyDecision::GiveUp);
}

#[test]
fn upload_plans() {
    assert_eq!(plan_upload(GenerationStorage::Pusher, false), Err(UploadError::PusherDisabled));
    assert_eq!(plan_upload(GenerationStorage::Deployer, true), Ok(UploadPlan::InPlace));
    assert_eq!(plan_upload(GenerationStorage::Machine, false), Ok(UploadPlan::Copy));
}

#[test]
fn merge_prefers_host_entries() {
    let on_machine = vec![
        generation("3", 300, "/nix/store/c", true, GenerationStorage::Machine),
        generation("2", 200, "/nix/store/b", false, GenerationStorage::Machine),
    ];
    let local = vec![
        generation("l-2", 150, "/nix/store/b", true, GenerationStorage::Machine),
        generation("l-1", 100, "/nix/store/a", true, GenerationStorage::Machine),
    ];
    let merged = merge_generations(on_machine, local);
    let ids: Vec<&str> = merged.iter().map(|g| g.id.as_str()).collect();
    assert_eq!(ids, vec!["l-1", "2", "3"]);
    assert_eq!(merged.iter().filter(|g| g.store_path == "/nix/store/b").count(), 1);
    assert!(!merged[0].current);
    assert_eq!(merged[0].location, GenerationStorage::Deployer);
    assert!(!merged[1].current);
    assert_eq!(merged[1].location, GenerationStorage::Machine);
    assert!(merged[2].current);
}

#[test]
fn merge_sort_is_stable() {
    let on_machine = vec![generation("m", 10, "/nix/store/m", true, GenerationStorage::Machine)];
    let local = vec![
        generation("x", 10, "/nix/store/x", false, GenerationStorage::Deployer),
        generation("y", 5, "/nix/store/y", false, GenerationStorage::Deployer),
    ];
    let merged = merge_generations(on_machine, local);
    let ids: Vec<&str> = merged.iter().map(|g| g.id.as_str()).collect();
    assert_eq!(ids, vec!["y", "x", "m"]);
    assert!(merge_generations(Vec::new(), Vec::new()).is_empty());
}

#[test]
fn rollback_target_selection() {
    let gens = host_generations();
    assert_eq!(select_rollback_target(&gens, &"1".to_string()).unwrap().store_path, "/nix/store/a-system");
    assert!(matches!(select_rollback_target(&gens, &"9".to_string()), Err(RollbackError::TargetNotFound)));
    assert!(matches!(select_rollback_target(&Vec::new(), &"1".to_string()), Err(RollbackError::NoTargets)));
}

#[test]
fn rollback_command_actions() {
    let options = || DeployOptions { id: "1".to_string(), enable_rollback: false, specialization: None };
    let r = RollbackSingle { machine: "h".to_string(), action: RollbackAction::Switch(options()) };
    assert_eq!(r.deploy_action(), Some(DeployAction::Switch));
    assert_eq!(r.options().unwrap().id, "1");
    let r = RollbackSingle { machine: "h".to_string(), action: RollbackAction::Boot(options()) };
    assert_eq!(r.deploy_action(), Some(DeployAction::Boot));
    let r = RollbackSingle { machine: "h".to_string(), action: RollbackAction::Test(options()) };
    assert_eq!(r.deploy_action(), Some(DeployAction::Test));
    let r = RollbackSingle { machine: "h".to_string(), action: RollbackAction::ListTargets };
    assert_eq!(r.deploy_action(), None);
    assert!(r.options().is_none());
}

#[test]
fn deploy_disables_rollback_off_fleet() {
    let d = Deploy { disable_rollback: false, action: DeployAction::Boot };
    assert!(!d.rollback_disabled_for(DeployKind::Fleet));
    assert!(d.rollback_disabled_for(DeployKind::NixosInstall));
    assert!(d.rollback_disabled_for(DeployKind::NixosLustrate));
    let d = Deploy { disable_rollback: true, action: DeployAction::Switch };
    assert!(d.rollback_disabled_for(DeployKind::Fleet));
}

#[test]
fn gc_root_names() {
    assert_eq!(host_gc_root_namespace("fleet-gc", "web"), "fleet-gc-web");
    assert_eq!(host_gc_root_profile("fleet-gc", "web"), "/nix/var/nix/profiles/fleet-gc-web");
    assert_eq!(fleet::commands::BuildSystems::default().build_attr, "toplevel");
}

#[test]
fn upload_to_fleet_host_does_nothing() {
    for disable in [false, true] {
        let d = Deployment::start(DeployAction::Upload, DeployKind::Fleet, disable, None).unwrap();
        assert!(d.is_done());
    }
}

#[test]
fn merge_keeps_host_entry_with_several_backups() {
    let on_machine = vec![generation("h", 50, "/nix/store/p", true, GenerationStorage::Machine)];
    let local = vec![
        generation("l1", 10, "/nix/store/p", false, GenerationStorage::Machine),
        generation("l2", 20, "/nix/store/p", false, GenerationStorage::Machine),
    ];
    let merged = merge_generations(on_machine, local);
    assert_eq!(merged.len(), 1);
    assert_eq!(merged[0].id, "h");
    assert!(merged[0].current);
    assert_eq!(merged[0].location, GenerationStorage::Machine);
}
