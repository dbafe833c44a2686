use nixos_ami_upload::pipeline::{Action, Outcome, Plan, Run, Stage};
use nixos_ami_upload::publish::{descriptive_tag, registration, ImageMetadata, PublishError};
use nixos_ami_upload::region::ResolvedRegionSet;
use nixos_ami_upload::report::ImageRecord;

fn plan(system: &str, replicas: &[&str]) -> Plan {
    Plan {
        image: ImageMetadata {
            label: "beta".to_string(),
            system: system.to_string(),
            logical_bytes: 5368709120,
            file: "disk.raw".to_string(),
        },
        regions: ResolvedRegionSet {
            home: "us-east-1".to_string(),
            replicas: replicas.iter().map(|s| s.to_string()).collect(),
        },
        name_override: None,
        root_size_override: None,
    }
}

fn record(region: &str, image_id: &str) -> ImageRecord {
    ImageRecord { region: region.to_string(), image_id: image_id.to_string() }
}

fn tag_action(region: &str, image_id: &str) -> Action {
    Action::ApplyTag {
        region: region.to_string(),
        image_id: image_id.to_string(),
        tag: descriptive_tag("beta", "x86_64-linux"),
    }
}

fn copy_action(region: &str) -> Action {
    Action::CopyImage {
        region: region.to_string(),
        name: "NixOS-beta-x86_64-linux".to_string(),
        source_image_id: "ami-home".to_string(),
        source_region: "us-east-1".to_string(),
    }
}

fn published(replicas: &[&str]) -> (Run, Action) {
    let (run, _) = Run::start(plan("x86_64-linux", replicas)).unwrap();
    let (run, _) = run.advance(Outcome::Uploaded("snap-1".to_string()));
    let (run, _) = run.advance(Outcome::SnapshotReady);
    let (run, _) = run.advance(Outcome::Registered("ami-home".to_string()));
    run.advance(Outcome::Tagged)
}

#[test]
fn unsupported_system_fails_before_any_request() {
    let r = Run::start(plan("aarch64-linux", &["us-west-2"]));
    assert_eq!(r, Err(PublishError::UnsupportedSystem("aarch64-linux".to_string())));
}

#[test]
fn run_starts_with_the_upload_at_home() {
    let (run, action) = Run::start(plan("x86_64-linux", &["us-west-2"])).unwrap();
    assert_eq!(run.stage, Stage::Uploading);
    assert!(run.copies.is_empty());
    assert_eq!(
        action,
        Action::Upload {
            region: "us-east-1".to_string(),
            file: "disk.raw".to_string(),
            description: "beta".to_string(),
        }
    );
}

#[test]
fn home_publish_goes_step_by_step() {
    let p = plan("x86_64-linux", &["us-west-2"]);
    let (run, _) = Run::start(p.clone()).unwrap();
    let (run, action) = run.advance(Outcome::Uploaded("snap-1".to_string()));
    assert_eq!(run.stage, Stage::AwaitingSnapshot { snapshot_id: "snap-1".to_string() });
    assert_eq!(
        action,
        Action::AwaitSnapshot { region: "us-east-1".to_string(), snapshot_id: "snap-1".to_string() }
    );
    let (run, action) = run.advance(Outcome::SnapshotReady);
    assert_eq!(run.stage, Stage::Registering);
    assert_eq!(
        action,
        Action::Register {
            region: "us-east-1".to_string(),
            registration: registration(&p.image, &None, "snap-1", None),
        }
    );
    let (run, action) = run.advance(Outcome::Registered("ami-home".to_string()));
    assert_eq!(run.stage, Stage::TaggingHome { home_image: "ami-home".to_string() });
    assert_eq!(action, tag_action("us-east-1", "ami-home"));
    let (run, action) = run.advance(Outcome::Tagged);
    assert_eq!(run.stage, Stage::Copying { index: 0, home_image: "ami-home".to_string() });
    assert_eq!(action, copy_action("us-west-2"));
    assert_eq!(run.plan, p);
}

#[test]
fn registration_declares_five_gigabytes_for_five_gib() {
    let (run, _) = Run::start(plan("x86_64-linux", &[])).unwrap();
    let (run, _) = run.advance(Outcome::Uploaded("snap-1".to_string()));
    let (_, action) = run.advance(Outcome::SnapshotReady);
    match action {
        Action::Register { registration, .. } => {
            assert_eq!(registration.block_devices[0].ebs.as_ref().unwrap().volume_size_gb, 5);
        }
        other => panic!("expected a registration, got {:?}", other),
    }
}

#[test]
fn run_without_replicas_reports_home_alone() {
    let (run, action) = published(&[]);
    assert_eq!(run.stage, Stage::Finished);
    match action {
        Action::Finish(report) => {
            assert_eq!(report.entries, vec![record("us-east-1", "ami-home")]);
        }
        other => panic!("expected the report, got {:?}", other),
    }
}

#[test]
fn failed_replica_is_left_out_of_the_report() {
    let (run, action) = published(&["us-west-2", "eu-west-1"]);
    assert_eq!(action, copy_action("us-west-2"));
    let (run, action) = run.advance(Outcome::Failed("copy refused".to_string()));
    assert_eq!(run.stage, Stage::Copying { index: 1, home_image: "ami-home".to_string() });
    assert_eq!(action, copy_action("eu-west-1"));
    let (run, action) = run.advance(Outcome::Copied("ami-eu".to_string()));
    assert_eq!(action, tag_action("eu-west-1", "ami-eu"));
    let (run, action) = run.advance(Outcome::Tagged);
    assert_eq!(run.stage, Stage::Finished);
    match action {
        Action::Finish(report) => {
            assert_eq!(
                report.entries,
                vec![record("us-east-1", "ami-home"), record("eu-west-1", "ami-eu")]
            );
            assert_eq!(report.get(&"us-east-1".to_string()), Some("ami-home".to_string()));
            assert_eq!(report.get(&"eu-west-1".to_string()), Some("ami-eu".to_string()));
            assert_eq!(report.get(&"us-west-2".to_string()), None);
        }
        other => panic!("expected the report, got {:?}", other),
    }
}

#[test]
fn last_replica_failing_still_finishes() {
    let (run, _) = published(&["us-west-2"]);
    let (run, action) = run.advance(Outcome::Failed("copy refused".to_string()));
    assert_eq!(run.stage, Stage::Finished);
    match action {
        Action::Finish(report) => {
            assert_eq!(report.entries, vec![record("us-east-1", "ami-home")]);
        }
        other => panic!("expected the report, got {:?}", other),
    }
}

#[test]
fn copy_is_tagged_under_its_own_identifier() {
    let (run, _) = published(&["us-west-2"]);
    let (run, action) = run.advance(Outcome::Copied("ami-west".to_string()));
    assert_eq!(
        run.stage,
        Stage::TaggingCopy {
            index: 0,
            home_image: "ami-home".to_string(),
            copy_image: "ami-west".to_string(),
        }
    );
    assert_eq!(action, tag_action("us-west-2", "ami-west"));
}

#[test]
fn tagging_outcome_does_not_change_the_report() {
    let (run, _) = published(&["us-west-2"]);
    let (run, _) = run.advance(Outcome::Copied("ami-west".to_string()));
    let (tagged, tagged_action) = run.clone().advance(Outcome::Tagged);
    let (failed, failed_action) = run.advance(Outcome::Failed("tag refused".to_string()));
    assert_eq!(tagged, failed);
    assert_eq!(tagged_action, failed_action);
    match tagged_action {
        Action::Finish(report) => {
            assert_eq!(
                report.entries,
                vec![record("us-east-1", "ami-home"), record("us-west-2", "ami-west")]
            );
        }
        other => panic!("expected the report, got {:?}", other),
    }
}

#[test]
fn upload_failure_ends_the_run() {
    let (run, _) = Run::start(plan("x86_64-linux", &["us-west-2"])).unwrap();
    let (run, action) = run.advance(Outcome::Failed("no access".to_string()));
    assert_eq!(run.stage, Stage::Aborted);
    assert_eq!(action, Action::Abort(PublishError::UploadFailed("no access".to_string())));
}

#[test]
fn snapshot_failure_ends_the_run_with_the_reason() {
    let (run, _) = Run::start(plan("x86_64-linux", &[])).unwrap();
    let (run, _) = run.advance(Outcome::Uploaded("snap-1".to_string()));
    let (run, action) = run.advance(Outcome::Failed("state: error".to_string()));
    assert_eq!(run.stage, Stage::Aborted);
    assert_eq!(action, Action::Abort(PublishError::SnapshotNotReady("state: error".to_string())));
}

#[test]
fn registration_failure_ends_the_run() {
    let (run, _) = Run::start(plan("x86_64-linux", &[])).unwrap();
    let (run, _) = run.advance(Outcome::Uploaded("snap-1".to_string()));
    let (run, _) = run.advance(Outcome::SnapshotReady);
    let (run, action) = run.advance(Outcome::Failed("name taken".to_string()));
    assert_eq!(run.stage, Stage::Aborted);
    assert_eq!(action, Action::Abort(PublishError::RegistrationFailed("name taken".to_string())));
}

#[test]
fn home_tag_failure_ends_the_run() {
    let (run, _) = Run::start(plan("x86_64-linux", &["us-west-2"])).unwrap();
    let (run, _) = run.advance(Outcome::Uploaded("snap-1".to_string()));
    let (run, _) = run.advance(Outcome::SnapshotReady);
    let (run, _) = run.advance(Outcome::Registered("ami-home".to_string()));
    let (run, action) = run.advance(Outcome::Failed("denied".to_string()));
    assert_eq!(run.stage, Stage::Aborted);
    assert_eq!(action, Action::Abort(PublishError::TaggingFailed("denied".to_string())));
}

#[test]
fn answer_to_another_request_ends_the_run() {
    let (run, _) = Run::start(plan("x86_64-linux", &[])).unwrap();
    let (run, action) = run.advance(Outcome::Tagged);
    assert_eq!(run.stage, Stage::Aborted);
    assert_eq!(action, Action::Abort(PublishError::UnexpectedOutcome));
    let (run, action) = run.advance(Outcome::SnapshotReady);
    assert_eq!(run.stage, Stage::Aborted);
    assert_eq!(action, Action::Abort(PublishError::UnexpectedOutcome));
}

#[test]
fn copy_stage_beyond_the_replicas_ends_the_run() {
    let run = Run {
        plan: plan("x86_64-linux", &["us-west-2"]),
        stage: Stage::Copying { index: 1, home_image: "ami-home".to_string() },
        copies: Vec::new(),
    };
    let (run, action) = run.advance(Outcome::Copied("ami-x".to_string()));
    assert_eq!(run.stage, Stage::Aborted);
    assert_eq!(action, Action::Abort(PublishError::UnexpectedOutcome));
}

#[test]
fn copies_carry_the_overridden_name() {
    let mut p = plan("x86_64-linux", &["us-west-2"]);
    p.name_override = Some("custom".to_string());
    let (run, _) = Run::start(p).unwrap();
    let (run, _) = run.advance(Outcome::Uploaded("snap-1".to_string()));
    let (run, _) = run.advance(Outcome::SnapshotReady);
    let (run, action) = run.advance(Outcome::Registered("ami-home".to_string()));
    assert_eq!(action, tag_action("us-east-1", "ami-home"));
    let (_, action) = run.advance(Outcome::Tagged);
    assert_eq!(
        action,
        Action::CopyImage {
            region: "us-west-2".to_string(),
            name: "custom".to_string(),
            source_image_id: "ami-home".to_string(),
            source_region: "us-east-1".to_string(),
        }
    );
}
