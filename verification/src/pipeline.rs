//! A run from first request to report: after each answer of the provider,
//! what the run has become and what is to be asked next.

use vstd::prelude::*;
use crate::publish::{
    check_system, descriptive_tag, image_name, registration, spec_image_name,
    spec_supported_system, ImageMetadata, PublishError, PublishErrorView, Registration, Tag,
};
use crate::region::ResolvedRegionSet;
use crate::report::{
    aggregate, clone_records, law_report_holds_home, law_report_regions, spec_aggregate,
    spec_records, ImageRecord, Report,
};
use crate::size::spec_root_volume_gb;
use crate::text::{opt_text, texts};

verus! {

/// What a run was asked to do. Nothing in it changes while the run lasts.
#[derive(Debug, Clone, PartialEq, Eq)]
pub struct Plan {
    pub image: ImageMetadata,
    pub regions: ResolvedRegionSet,
    pub name_override: Option<String>,
    pub root_size_override: Option<u64>,
}

impl Plan {
    /// The home region.
    pub open spec fn home(&self) -> Seq<char> {
        self.regions.home@
    }

    /// The replica regions, in the order in which they are tried.
    pub open spec fn replicas(&self) -> Seq<Seq<char>> {
        texts(self.regions.replicas@)
    }

    /// The display name of the image, at home and in every copy.
    pub open spec fn name(&self) -> Seq<char> {
        spec_image_name(opt_text(self.name_override), self.image.label@, self.image.system@)
    }
}

/// The request whose answer a run waits for.
#[derive(Debug, Clone, PartialEq, Eq)]
pub enum Stage {
    /// The upload of the image file as a snapshot.
    Uploading,
    /// The snapshot becoming available.
    AwaitingSnapshot { snapshot_id: String },
    /// The registration of the image in the home region.
    Registering,
    /// The tagging of the home image.
    TaggingHome { home_image: String },
    /// The copy into the replica region at `index`.
    Copying { index: usize, home_image: String },
    /// The tagging of the copy just made in the replica region at `index`.
    TaggingCopy { index: usize, home_image: String, copy_image: String },
    /// Nothing: the report was handed out.
    Finished,
    /// Nothing: the run was given up.
    Aborted,
}

/// An answer of the provider, as the caller saw it.
#[derive(Debug, Clone, PartialEq, Eq)]
pub enum Outcome {
    /// The upload went through; the text is the snapshot's identifier.
    Uploaded(String),
    /// The snapshot is available.
    SnapshotReady,
    /// The image was registered; the text is its identifier.
    Registered(String),
    /// The tag was applied.
    Tagged,
    /// The image was copied; the text is the copy's identifier.
    Copied(String),
    /// The request failed; the text is the provider's.
    Failed(String),
}

/// What the caller is to do next.
#[derive(Debug, Clone, PartialEq, Eq)]
pub enum Action {
    /// Upload `file` as a snapshot in `region`, described by `description`.
    Upload { region: String, file: String, description: String },
    /// Wait until the snapshot is available.
    AwaitSnapshot { region: String, snapshot_id: String },
    /// Register the image.
    Register { region: String, registration: Registration },
    /// Tag the image `image_id` in `region`.
    ApplyTag { region: String, image_id: String, tag: Tag },
    /// Copy the image `source_image_id` of `source_region` into `region`.
    CopyImage { region: String, name: String, source_image_id: String, source_region: String },
    /// Hand out the report: the run succeeded.
    Finish(Report),
    /// Give up: the run failed.
    Abort(PublishError),
}

/// A run: its plan, the request it waits on, and the copies recorded so far.
#[derive(Debug, Clone, PartialEq, Eq)]
pub struct Run {
    pub plan: Plan,
    pub stage: Stage,
    pub copies: Vec<ImageRecord>,
}

/// The run is given up with `error`; what it had recorded stays.
pub open spec fn spec_aborts(
    before: Run,
    after: Run,
    action: Action,
    error: PublishErrorView,
) -> bool {
    &&& spec_records(after.copies@) == spec_records(before.copies@)
    &&& after.stage is Aborted
    &&& action matches Action::Abort(e) && e@ == error
}

/// The run, holding `copies`, turns to the replica region at `index`: it asks
/// for that copy, or, where no region is left, hands out the report of the
/// home image and the copies.
pub open spec fn spec_proceeds(
    plan: Plan,
    home_image: Seq<char>,
    copies: Seq<(Seq<char>, Seq<char>)>,
    index: int,
    after: Run,
    action: Action,
) -> bool {
    &&& spec_records(after.copies@) == copies
    &&& if 0 <= index < plan.replicas().len() {
        &&& after.stage matches Stage::Copying { index: i, home_image: h } && i == index && h@
            == home_image
        &&& action matches Action::CopyImage { region, name, source_image_id, source_region }
            && region@ == plan.replicas()[index] && name@ == plan.name() && source_image_id@
            == home_image && source_region@ == plan.home()
    } else {
        &&& after.stage is Finished
        &&& action matches Action::Finish(report) && report@ == spec_aggregate(
            (plan.home(), home_image),
            copies,
        )
    }
}

/// The tag request for `image_id` in `region` carries the descriptive tag.
pub open spec fn spec_tags(plan: Plan, action: Action, in_region: Seq<char>, image: Seq<char>) -> bool {
    action matches Action::ApplyTag { region, image_id, tag } && region@ == in_region && image_id@
        == image && tag.is_descriptive(plan.image.label@, plan.image.system@)
}

/// The first request of a run: the upload in the home region.
pub open spec fn spec_begins(plan: Plan, run: Run, action: Action) -> bool {
    &&& run.plan == plan
    &&& run.stage is Uploading
    &&& run.copies@.len() == 0
    &&& action matches Action::Upload { region, file, description } && region@ == plan.home()
        && file@ == plan.image.file@ && description@ == plan.image.label@
}

/// One step of a run: `before` received `outcome`, became `after`, and asks
/// for `action`.
pub open spec fn spec_step(before: Run, outcome: Outcome, after: Run, action: Action) -> bool {
    let plan = before.plan;
    let kept = spec_records(before.copies@);
    &&& after.plan == plan
    &&& match before.stage {
        Stage::Uploading => match outcome {
            Outcome::Uploaded(id) => {
                &&& spec_records(after.copies@) == kept
                &&& after.stage matches Stage::AwaitingSnapshot { snapshot_id } && snapshot_id@
                    == id@
                &&& action matches Action::AwaitSnapshot { region, snapshot_id } && region@
                    == plan.home() && snapshot_id@ == id@
            },
            Outcome::Failed(m) => spec_aborts(before, after, action, PublishErrorView::UploadFailed(m@)),
            _ => spec_aborts(before, after, action, PublishErrorView::UnexpectedOutcome),
        },
        Stage::AwaitingSnapshot { snapshot_id } => match outcome {
            Outcome::SnapshotReady => {
                &&& spec_records(after.copies@) == kept
                &&& after.stage is Registering
                &&& action matches Action::Register { region, registration } && region@
                    == plan.home() && registration.describes(
                    plan.name(),
                    plan.image.label@,
                    plan.image.system@,
                    snapshot_id@,
                    spec_root_volume_gb(plan.image.logical_bytes, plan.root_size_override),
                )
            },
            Outcome::Failed(m) => spec_aborts(before, after,
                action,
                PublishErrorView::SnapshotNotReady(m@),
            ),
            _ => spec_aborts(before, after, action, PublishErrorView::UnexpectedOutcome),
        },
        Stage::Registering => match outcome {
            Outcome::Registered(id) => {
                &&& spec_records(after.copies@) == kept
                &&& after.stage matches Stage::TaggingHome { home_image } && home_image@ == id@
                &&& spec_tags(plan, action, plan.home(), id@)
            },
            Outcome::Failed(m) => spec_aborts(before, after,
                action,
                PublishErrorView::RegistrationFailed(m@),
            ),
            _ => spec_aborts(before, after, action, PublishErrorView::UnexpectedOutcome),
        },
        Stage::TaggingHome { home_image } => match outcome {
            Outcome::Tagged => spec_proceeds(plan, home_image@, kept, 0, after, action),
            Outcome::Failed(m) => spec_aborts(before, after, action, PublishErrorView::TaggingFailed(m@)),
            _ => spec_aborts(before, after, action, PublishErrorView::UnexpectedOutcome),
        },
        Stage::Copying { index, home_image } => if index < plan.replicas().len() {
            match outcome {
                Outcome::Copied(id) => {
                    &&& spec_records(after.copies@) == kept
                    &&& after.stage matches Stage::TaggingCopy { index: i, home_image: h, copy_image }
                        && i == index && h@ == home_image@ && copy_image@ == id@
                    &&& spec_tags(plan, action, plan.replicas()[index as int], id@)
                },
                Outcome::Failed(_) => spec_proceeds(
                    plan,
                    home_image@,
                    kept,
                    index + 1,
                    after,
                    action,
                ),
                _ => spec_aborts(before, after, action, PublishErrorView::UnexpectedOutcome),
            }
        } else {
            spec_aborts(before, after, action, PublishErrorView::UnexpectedOutcome)
        },
        Stage::TaggingCopy { index, home_image, copy_image } => if index
            < plan.replicas().len() {
            match outcome {
                Outcome::Tagged | Outcome::Failed(_) => spec_proceeds(
                    plan,
                    home_image@,
                    kept.push((plan.replicas()[index as int], copy_image@)),
                    index + 1,
                    after,
                    action,
                ),
                _ => spec_aborts(before, after, action, PublishErrorView::UnexpectedOutcome),
            }
        } else {
            spec_aborts(before, after, action, PublishErrorView::UnexpectedOutcome)
        },
        Stage::Finished => spec_aborts(before, after, action, PublishErrorView::UnexpectedOutcome),
        Stage::Aborted => spec_aborts(before, after, action, PublishErrorView::UnexpectedOutcome),
    }
}

/// The number of replica regions that a run at `stage` has dealt with, of
/// `replicas` in all.
pub open spec fn spec_settled(stage: Stage, replicas: int) -> int {
    match stage {
        Stage::Copying { index, .. } => index as int,
        Stage::TaggingCopy { index, .. } => index as int,
        Stage::Finished => replicas,
        Stage::Aborted => replicas,
        _ => 0,
    }
}

impl Run {
    /// The regions of the plan are well formed, the run stands at a replica
    /// region that exists, and the copies recorded are of replica regions
    /// already dealt with, at most one of each.
    pub open spec fn wf(&self) -> bool {
        let replicas = self.plan.replicas();
        let copies = spec_records(self.copies@);
        let settled = spec_settled(self.stage, replicas.len() as int);
        &&& self.plan.regions.wf()
        &&& 0 <= settled <= replicas.len()
        &&& (self.stage is Copying || self.stage is TaggingCopy) ==> settled < replicas.len()
        &&& forall|j: int|
            0 <= j < copies.len() ==> replicas.take(settled).contains((#[trigger] copies[j]).0)
        &&& forall|i: int, j: int|
            0 <= i < j < copies.len() ==> (#[trigger] copies[i]).0 != (#[trigger] copies[j]).0
    }
}

/// What is among the first `a` is among the first `b`, for `a <= b`.
pub proof fn lemma_take_contains_grows(s: Seq<Seq<char>>, a: int, b: int, x: Seq<char>)
    requires
        0 <= a <= b <= s.len(),
        s.take(a).contains(x),
    ensures
        s.take(b).contains(x),
{
    let k = choose|k: int| 0 <= k < s.take(a).len() && s.take(a)[k] == x;
    assert(s.take(b)[k] == x);
}

/// Every step keeps a run well formed.
pub proof fn law_step_keeps_run_well_formed(
    before: Run,
    outcome: Outcome,
    after: Run,
    action: Action,
)
    requires
        before.wf(),
        spec_step(before, outcome, after, action),
    ensures
        after.wf(),
{
    let replicas = before.plan.replicas();
    let kept = spec_records(before.copies@);
    let copies = spec_records(after.copies@);
    let was = spec_settled(before.stage, replicas.len() as int);
    let now = spec_settled(after.stage, replicas.len() as int);
    assert(was <= now <= replicas.len());
    if copies == kept {
        assert forall|j: int| 0 <= j < copies.len() implies replicas.take(now).contains(
            (#[trigger] copies[j]).0,
        ) by {
            lemma_take_contains_grows(replicas, was, now, kept[j].0);
        }
    } else {
        match before.stage {
            Stage::TaggingCopy { index, home_image, copy_image } => {
                let region = replicas[index as int];
                assert(copies == kept.push((region, copy_image@)));
                assert(replicas.take(now)[index as int] == region);
                assert forall|j: int| 0 <= j < copies.len() implies replicas.take(now).contains(
                    (#[trigger] copies[j]).0,
                ) by {
                    if j < kept.len() {
                        assert(copies[j] == kept[j]);
                        lemma_take_contains_grows(replicas, was, now, kept[j].0);
                    }
                }
                assert forall|i: int, j: int| 0 <= i < j < copies.len() implies (
                #[trigger] copies[i]).0 != (#[trigger] copies[j]).0 by {
                    assert(copies[i] == kept[i]);
                    if j < kept.len() {
                        assert(copies[j] == kept[j]);
                    } else {
                        let k = choose|k: int|
                            0 <= k < replicas.take(was).len() && replicas.take(was)[k] == kept[i].0;
                        assert(replicas[k] == kept[i].0);
                        assert(replicas[index as int] == region);
                    }
                }
            },
            _ => {},
        }
    }
}

/// The report that a well-formed run hands out names the home image under
/// the home region, and beside it exactly the replica regions whose copies
/// were recorded: a region whose copy failed is absent.
pub proof fn law_finished_report_is_exact(
    before: Run,
    outcome: Outcome,
    after: Run,
    action: Action,
    region: Seq<char>,
)
    requires
        before.wf(),
        spec_step(before, outcome, after, action),
        action is Finish,
    ensures
        action matches Action::Finish(report) && report@.contains_key(before.plan.home()) && (
        match before.stage {
            Stage::TaggingHome { home_image } => report@[before.plan.home()] == home_image@,
            Stage::Copying { index, home_image } => report@[before.plan.home()] == home_image@,
            Stage::TaggingCopy { index, home_image, copy_image } => report@[before.plan.home()]
                == home_image@,
            _ => false,
        }) && (report@.contains_key(region) <==> region == before.plan.home() || exists|j: int|
            0 <= j < after.copies@.len() && (#[trigger] spec_records(after.copies@)[j]).0
                == region),
{
    law_step_keeps_run_well_formed(before, outcome, after, action);
    let home = before.plan.home();
    let replicas = before.plan.replicas();
    let copies = spec_records(after.copies@);
    assert forall|j: int| 0 <= j < copies.len() implies (#[trigger] copies[j]).0 != home by {
        let settled = spec_settled(after.stage, replicas.len() as int);
        let k = choose|k: int|
            0 <= k < replicas.take(settled).len() && replicas.take(settled)[k] == copies[j].0;
        assert(replicas[k] == copies[j].0);
    }
    match before.stage {
        Stage::TaggingHome { home_image } => {
            law_report_holds_home((home, home_image@), copies);
            law_report_regions((home, home_image@), copies, region);
        },
        Stage::Copying { index, home_image } => {
            law_report_holds_home((home, home_image@), copies);
            law_report_regions((home, home_image@), copies, region);
        },
        Stage::TaggingCopy { index, home_image, copy_image } => {
            law_report_holds_home((home, home_image@), copies);
            law_report_regions((home, home_image@), copies, region);
        },
        _ => {},
    }
}

/// A run that hands out a report hands out one with the home region in it.
pub proof fn law_finish_reports_home(before: Run, outcome: Outcome, after: Run, action: Action)
    requires
        spec_step(before, outcome, after, action),
    ensures
        action matches Action::Finish(report) ==> report@.contains_key(before.plan.home()),
{
    if let Action::Finish(report) = action {
        let plan = before.plan;
        let kept = spec_records(before.copies@);
        match before.stage {
            Stage::TaggingHome { home_image } => {
                law_report_holds_home((plan.home(), home_image@), kept);
            },
            Stage::Copying { index, home_image } => {
                law_report_holds_home((plan.home(), home_image@), kept);
            },
            Stage::TaggingCopy { index, home_image, copy_image } => {
                if index < plan.replicas().len() {
                    law_report_holds_home(
                        (plan.home(), home_image@),
                        kept.push((plan.replicas()[index as int], copy_image@)),
                    );
                }
            },
            _ => {},
        }
    }
}

/// Whether tagging a copy succeeds or fails (and so whether the tag was
/// applied once, twice or never) makes no difference to what is recorded,
/// to where the run turns next, or to the report.
pub proof fn law_tagging_leaves_report(
    before: Run,
    reason: String,
    after_tagged: Run,
    action_tagged: Action,
    after_failed: Run,
    action_failed: Action,
)
    requires
        before.stage is TaggingCopy,
        spec_step(before, Outcome::Tagged, after_tagged, action_tagged),
        spec_step(before, Outcome::Failed(reason), after_failed, action_failed),
    ensures
        spec_records(after_tagged.copies@) == spec_records(after_failed.copies@),
        after_tagged.stage is Finished <==> after_failed.stage is Finished,
        action_tagged matches Action::Finish(a) ==> action_failed matches Action::Finish(b)
            && a@ == b@,
{
}

/// A replica region whose copy fails is left out and the run goes on: what
/// was recorded stays, the run is not given up, and it turns to the next
/// replica region or hands out the report.
pub proof fn law_failed_copy_is_skipped(before: Run, reason: String, after: Run, action: Action)
    requires
        before.stage matches Stage::Copying { index, home_image } && index
            < before.plan.replicas().len(),
        spec_step(before, Outcome::Failed(reason), after, action),
    ensures
        spec_records(after.copies@) == spec_records(before.copies@),
        !(after.stage is Aborted),
        action is CopyImage || action is Finish,
        spec_settled(after.stage, before.plan.replicas().len() as int) == spec_settled(
            before.stage,
            before.plan.replicas().len() as int,
        ) + 1,
{
}

/// A replica region whose copy is made is recorded with the copy's
/// identifier, whether or not the tag could be applied, and the tag is asked
/// for the copy, not for the home image. Nothing else is recorded.
pub proof fn law_made_copy_is_recorded(
    before: Run,
    copied: String,
    tagging: Run,
    tag_request: Action,
    tag_outcome: Outcome,
    after: Run,
    action: Action,
)
    requires
        before.stage matches Stage::Copying { index, home_image } && index
            < before.plan.replicas().len(),
        spec_step(before, Outcome::Copied(copied), tagging, tag_request),
        tag_outcome is Tagged || tag_outcome is Failed,
        spec_step(tagging, tag_outcome, after, action),
    ensures
        before.stage matches Stage::Copying { index, home_image } && spec_tags(
            before.plan,
            tag_request,
            before.plan.replicas()[index as int],
            copied@,
        ) && spec_records(after.copies@) == spec_records(before.copies@).push(
            (before.plan.replicas()[index as int], copied@),
        ) && spec_settled(after.stage, before.plan.replicas().len() as int) == index + 1,
        !(after.stage is Aborted),
        action is CopyImage || action is Finish,
{
}

/// Gives the run up with `error`.
fn abort(plan: Plan, copies: Vec<ImageRecord>, error: PublishError) -> (next: (Run, Action))
    ensures
        next.0.plan == plan,
        next.0.copies == copies,
        next.0.stage is Aborted,
        next.1 matches Action::Abort(e) && e@ == error@,
{
    (Run { plan, stage: Stage::Aborted, copies }, Action::Abort(error))
}

/// Turns to the replica region at `index`, or finishes where none is left.
fn proceed(plan: Plan, home_image: String, copies: Vec<ImageRecord>, index: usize) -> (next: (
    Run,
    Action,
))
    ensures
        next.0.plan == plan,
        spec_proceeds(plan, home_image@, spec_records(copies@), index as int, next.0, next.1),
{
    if index < plan.regions.replicas.len() {
        let action = Action::CopyImage {
            region: plan.regions.replicas[index].clone(),
            name: image_name(
                &plan.name_override,
                plan.image.label.as_str(),
                plan.image.system.as_str(),
            ),
            source_image_id: home_image.clone(),
            source_region: plan.regions.home.clone(),
        };
        (Run { plan, stage: Stage::Copying { index, home_image }, copies }, action)
    } else {
        let home = ImageRecord { region: plan.regions.home.clone(), image_id: home_image };
        let report = aggregate(home, clone_records(&copies));
        (Run { plan, stage: Stage::Finished, copies }, Action::Finish(report))
    }
}

impl Run {
    /// Starts a run: checks that the image is for the supported system and,
    /// where it is, asks for the upload in the home region. Where it is not,
    /// there is no run and nothing is asked of the provider.
    pub fn start(plan: Plan) -> (r: Result<(Run, Action), PublishError>)
        ensures
            r is Ok <==> plan.image.system@ == spec_supported_system(),
            r matches Ok(first) ==> spec_begins(plan, first.0, first.1) && (plan.regions.wf()
                ==> first.0.wf()),
            r matches Err(e) ==> e@ == PublishErrorView::UnsupportedSystem(plan.image.system@),
    {
        match check_system(plan.image.system.as_str()) {
            Err(e) => Err(e),
            Ok(_) => {
                let action = Action::Upload {
                    region: plan.regions.home.clone(),
                    file: plan.image.file.clone(),
                    description: plan.image.label.clone(),
                };
                Ok((Run { plan, stage: Stage::Uploading, copies: Vec::new() }, action))
            },
        }
    }

    /// Takes in the answer to the request that the run waits on, and says
    /// what to ask next.
    pub fn advance(self, outcome: Outcome) -> (next: (Run, Action))
        ensures
            spec_step(self, outcome, next.0, next.1),
            next.1 matches Action::Finish(report) ==> report@.contains_key(self.plan.home()),
            self.wf() ==> next.0.wf(),
    {
        let ghost before = self;
        let Run { plan, stage, copies } = self;
        let next = match stage {
            Stage::Uploading => match outcome {
                Outcome::Uploaded(id) => {
                    let action = Action::AwaitSnapshot {
                        region: plan.regions.home.clone(),
                        snapshot_id: id.clone(),
                    };
                    (Run { plan, stage: Stage::AwaitingSnapshot { snapshot_id: id }, copies }, action)
                },
                Outcome::Failed(m) => abort(plan, copies, PublishError::UploadFailed(m)),
                _ => abort(plan, copies, PublishError::UnexpectedOutcome),
            },
            Stage::AwaitingSnapshot { snapshot_id } => match outcome {
                Outcome::SnapshotReady => {
                    let action = Action::Register {
                        region: plan.regions.home.clone(),
                        registration: registration(
                            &plan.image,
                            &plan.name_override,
                            snapshot_id.as_str(),
                            plan.root_size_override,
                        ),
                    };
                    (Run { plan, stage: Stage::Registering, copies }, action)
                },
                Outcome::Failed(m) => abort(plan, copies, PublishError::SnapshotNotReady(m)),
                _ => abort(plan, copies, PublishError::UnexpectedOutcome),
            },
            Stage::Registering => match outcome {
                Outcome::Registered(id) => {
                    let action = Action::ApplyTag {
                        region: plan.regions.home.clone(),
                        image_id: id.clone(),
                        tag: descriptive_tag(plan.image.label.as_str(), plan.image.system.as_str()),
                    };
                    (Run { plan, stage: Stage::TaggingHome { home_image: id }, copies }, action)
                },
                Outcome::Failed(m) => abort(plan, copies, PublishError::RegistrationFailed(m)),
                _ => abort(plan, copies, PublishError::UnexpectedOutcome),
            },
            Stage::TaggingHome { home_image } => match outcome {
                Outcome::Tagged => proceed(plan, home_image, copies, 0),
                Outcome::Failed(m) => abort(plan, copies, PublishError::TaggingFailed(m)),
                _ => abort(plan, copies, PublishError::UnexpectedOutcome),
            },
            Stage::Copying { index, home_image } => {
                if index < plan.regions.replicas.len() {
                    match outcome {
                        Outcome::Copied(id) => {
                            let action = Action::ApplyTag {
                                region: plan.regions.replicas[index].clone(),
                                image_id: id.clone(),
                                tag: descriptive_tag(
                                    plan.image.label.as_str(),
                                    plan.image.system.as_str(),
                                ),
                            };
                            (
                                Run {
                                    plan,
                                    stage: Stage::TaggingCopy { index, home_image, copy_image: id },
                                    copies,
                                },
                                action,
                            )
                        },
                        Outcome::Failed(_) => proceed(plan, home_image, copies, index + 1),
                        _ => abort(plan, copies, PublishError::UnexpectedOutcome),
                    }
                } else {
                    abort(plan, copies, PublishError::UnexpectedOutcome)
                }
            },
            Stage::TaggingCopy { index, home_image, copy_image } => {
                if index < plan.regions.replicas.len() {
                    match outcome {
                        Outcome::Tagged | Outcome::Failed(_) => {
                            let mut copies = copies;
                            let record = ImageRecord {
                                region: plan.regions.replicas[index].clone(),
                                image_id: copy_image,
                            };
                            proof {
                                assert(spec_records(copies@.push(record)) =~= spec_records(
                                    copies@,
                                ).push((record.region@, record.image_id@)));
                            }
                            copies.push(record);
                            proceed(plan, home_image, copies, index + 1)
                        },
                        _ => abort(plan, copies, PublishError::UnexpectedOutcome),
                    }
                } else {
                    abort(plan, copies, PublishError::UnexpectedOutcome)
                }
            },
            Stage::Finished => abort(plan, copies, PublishError::UnexpectedOutcome),
            Stage::Aborted => abort(plan, copies, PublishError::UnexpectedOutcome),
        };
        proof {
            law_finish_reports_home(before, outcome, next.0, next.1);
            if before.wf() {
                law_step_keeps_run_well_formed(before, outcome, next.0, next.1);
            }
        }
        next
    }
}

} // verus!
