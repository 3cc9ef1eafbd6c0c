//! Stage dispatch: role routing, event mode classification, and the
//! one-result-per-event construction.

use vstd::prelude::*;
use crate::text::str_eq;

verus! {

/// The five pipeline roles an agent process can be configured with.
#[derive(PartialEq, Eq, Structural, Clone, Copy, Debug)]
pub enum Role {
    Learning,
    Building,
    PreLoad,
    Evaluation,
    SkillManage,
}

/// The role a given role string routes to, accepting both hyphenated and
/// underscored spellings; `None` for an unknown role.
pub open spec fn spec_parse_role(s: Seq<char>) -> Option<Role> {
    if s == "learning"@ {
        Some(Role::Learning)
    } else if s == "building"@ {
        Some(Role::Building)
    } else if s == "pre-load"@ || s == "pre_load"@ {
        Some(Role::PreLoad)
    } else if s == "evaluation"@ {
        Some(Role::Evaluation)
    } else if s == "skill-manage"@ || s == "skill_manage"@ {
        Some(Role::SkillManage)
    } else {
        None
    }
}

/// Route a role string to its handler role. An unknown role yields `None`,
/// which the dispatcher reports as a failed stage.
pub fn parse_role(s: &str) -> (r: Option<Role>)
    ensures
        r == spec_parse_role(s@),
{
    if str_eq(s, "learning") {
        Some(Role::Learning)
    } else if str_eq(s, "building") {
        Some(Role::Building)
    } else if str_eq(s, "pre-load") || str_eq(s, "pre_load") {
        Some(Role::PreLoad)
    } else if str_eq(s, "evaluation") {
        Some(Role::Evaluation)
    } else if str_eq(s, "skill-manage") || str_eq(s, "skill_manage") {
        Some(Role::SkillManage)
    } else {
        None
    }
}

/// Status of a stage result: exactly one of these per pipeline event.
#[derive(PartialEq, Eq, Structural, Clone, Copy, Debug)]
pub enum StageStatus {
    Completed,
    Failed,
}

/// The single result event produced for one pipeline event. `output` carries
/// the handler's serialized output document and is empty when the stage
/// failed.
#[derive(Debug)]
pub struct StageResult {
    pub run_id: String,
    pub stage: String,
    pub agent_id: String,
    pub status: StageStatus,
    pub artifact_id: String,
    pub output: String,
    pub error: Option<String>,
}

/// Build the one stage result for a pipeline event from the handler outcome.
/// Success maps to `Completed` with the handler's output; any failure maps to
/// `Failed` with an empty output and the failure message. The result always
/// carries the event's own run, stage, and artifact identifiers.
pub fn make_stage_result(
    run_id: String,
    stage: String,
    agent_id: String,
    artifact_id: String,
    outcome: Result<String, String>,
) -> (r: StageResult)
    ensures
        r.run_id@ == run_id@,
        r.stage@ == stage@,
        r.agent_id@ == agent_id@,
        r.artifact_id@ == artifact_id@,
        (r.status == StageStatus::Completed) == (outcome is Ok),
        outcome matches Ok(out) ==> r.output@ == out@ && r.error is None,
        outcome matches Err(msg) ==> r.output@ == Seq::<char>::empty() && (r.error matches Some(e)
            && e@ == msg@),
{
    match outcome {
        Ok(out) => StageResult {
            run_id,
            stage,
            agent_id,
            status: StageStatus::Completed,
            artifact_id,
            output: out,
            error: None,
        },
        Err(msg) => StageResult {
            run_id,
            stage,
            agent_id,
            status: StageStatus::Failed,
            artifact_id,
            output: String::new(),
            error: Some(msg),
        },
    }
}

/// Parameters of a self-upgrade run, decoded once per event.
#[derive(Debug)]
pub struct UpgradeDescriptor {
    pub component: String,
    pub new_version: String,
}

/// The per-event handler mode: ordinary artifact work, or one stage of the
/// self-upgrade sub-pipeline. Re-derived from the event metadata on every
/// call, never sticky state.
pub enum EventMode {
    Standard,
    SelfUpgrade(UpgradeDescriptor),
}

/// Whether a metadata `build_type` field switches the handler into
/// self-upgrade mode.
pub open spec fn spec_is_upgrade_build_type(build_type: Option<Seq<char>>) -> bool {
    build_type == Some("self_upgrade"@)
}

/// Classify a pipeline event from its decoded metadata fields. Self-upgrade
/// mode is chosen exactly when `build_type` is `"self_upgrade"`; the
/// component defaults to the artifact id and the version to `"v0.0.0"` when
/// the corresponding fields are absent.
pub fn classify_mode(
    build_type: Option<String>,
    component: Option<String>,
    new_version: Option<String>,
    artifact_id: &str,
) -> (r: EventMode)
    ensures
        ({
            let bt = match build_type {
                Some(s) => Some(s@),
                None => None,
            };
            if spec_is_upgrade_build_type(bt) {
                r matches EventMode::SelfUpgrade(d) && d.component@ == (match component {
                    Some(c) => c@,
                    None => artifact_id@,
                }) && d.new_version@ == (match new_version {
                    Some(v) => v@,
                    None => "v0.0.0"@,
                })
            } else {
                r is Standard
            }
        }),
{
    let is_upgrade = match &build_type {
        Some(s) => str_eq(s.as_str(), "self_upgrade"),
        None => false,
    };
    if is_upgrade {
        let comp = match component {
            Some(c) => c,
            None => artifact_id.to_owned(),
        };
        let ver = match new_version {
            Some(v) => v,
            None => "v0.0.0".to_owned(),
        };
        EventMode::SelfUpgrade(UpgradeDescriptor { component: comp, new_version: ver })
    } else {
        EventMode::Standard
    }
}

/// Whether a classified event runs in self-upgrade mode.
pub fn is_self_upgrade(mode: &EventMode) -> (r: bool)
    ensures
        r == (mode is SelfUpgrade),
{
    match mode {
        EventMode::SelfUpgrade(_) => true,
        EventMode::Standard => false,
    }
}

/// The stage logic one advance event runs: each role branches on the event
/// mode, except discovery, which has no self-upgrade duty.
#[derive(PartialEq, Eq, Structural, Clone, Copy, Debug)]
pub enum StagePath {
    /// Learning, either mode: prompt for skill candidates.
    Discovery,
    /// Building, ordinary: synthesize the manifest and endpoint documents.
    SkillPackaging,
    /// Building, self-upgrade: the build-and-release sub-stage.
    UpgradeBuild,
    /// Validation, ordinary: probe the candidate endpoints.
    EndpointValidation,
    /// Validation, self-upgrade: the validate-release sub-stage.
    UpgradeValidation,
    /// Scoring, ordinary: prompt for weighted dimension scores.
    SkillScoring,
    /// Scoring, self-upgrade: short-circuit or the evaluate sub-stage.
    UpgradeScoring,
    /// Lifecycle, ordinary: gate check and deployment planning.
    SkillLifecycle,
    /// Lifecycle, self-upgrade: gate check and activation hand-back.
    UpgradeLifecycle,
}

/// The dual-mode handler matrix: which stage logic the configured role runs
/// for an event of the given mode.
pub fn route_stage(role: Role, mode: &EventMode) -> (r: StagePath)
    ensures
        role == Role::Learning ==> r == StagePath::Discovery,
        role == Role::Building ==> r == (if mode is SelfUpgrade {
            StagePath::UpgradeBuild
        } else {
            StagePath::SkillPackaging
        }),
        role == Role::PreLoad ==> r == (if mode is SelfUpgrade {
            StagePath::UpgradeValidation
        } else {
            StagePath::EndpointValidation
        }),
        role == Role::Evaluation ==> r == (if mode is SelfUpgrade {
            StagePath::UpgradeScoring
        } else {
            StagePath::SkillScoring
        }),
        role == Role::SkillManage ==> r == (if mode is SelfUpgrade {
            StagePath::UpgradeLifecycle
        } else {
            StagePath::SkillLifecycle
        }),
{
    let upgrade = is_self_upgrade(mode);
    match role {
        Role::Learning => StagePath::Discovery,
        Role::Building => if upgrade {
            StagePath::UpgradeBuild
        } else {
            StagePath::SkillPackaging
        },
        Role::PreLoad => if upgrade {
            StagePath::UpgradeValidation
        } else {
            StagePath::EndpointValidation
        },
        Role::Evaluation => if upgrade {
            StagePath::UpgradeScoring
        } else {
            StagePath::SkillScoring
        },
        Role::SkillManage => if upgrade {
            StagePath::UpgradeLifecycle
        } else {
            StagePath::SkillLifecycle
        },
    }
}

/// Task evaluation skips events of type `"pipeline"`: those belong to the
/// stage path, which already produces the one result per event.
pub fn should_skip_task_eval(task_type: &str) -> (r: bool)
    ensures
        r == (task_type@ == "pipeline"@),
{
    str_eq(task_type, "pipeline")
}

/// The first `max` characters of `s`, or all of `s` if it is shorter: the
/// bound applied to task output before it is embedded in an LLM prompt.
pub fn truncate_chars(s: &str, max: usize) -> (r: String)
    ensures
        s@.len() <= max ==> r@ == s@,
        s@.len() > max ==> r@ == s@.subrange(0, max as int),
{
    let n = s.unicode_len();
    if n <= max {
        proof {
            assert(s@.subrange(0, n as int) =~= s@);
        }
        s.to_owned()
    } else {
        s.substring_char(0, max).to_owned()
    }
}

} // verus!
