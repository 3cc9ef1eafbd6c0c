//! The five role handlers' decision logic.
//!
//! Everything here is a function from plain values to plain values: the
//! driver performs the LLM calls, probes, and subprocesses, decodes their
//! results, and lets these functions decide what the stage reports.

use vstd::prelude::*;
use crate::gate::{spec_gate_discards, lifecycle_decision, LifecycleAction, ScoringVerdict};
use crate::health::{collect_endpoint_urls, config_urls_of};
use crate::upgrade::ValidationResult;

verus! {

/// Whether a text parses as a JSON document; the exact predicate is fixed by
/// the JSON grammar.
pub uninterp spec fn parses_as_json(s: Seq<char>) -> bool;

/// Relies on `serde_json::from_str`: whether the text is a well-formed JSON
/// document.
#[verifier::external_body]
fn json_parses(s: &str) -> (r: bool)
    ensures
        r == parses_as_json(s@),
{
    serde_json::from_str::<serde_json::Value>(s).is_ok()
}

/// An LLM reply after the soft-fallback rule: either the reply text, known
/// to be a structured (JSON) document, or the raw text to be wrapped as a
/// fallback value. Malformed output therefore never fails a stage.
pub enum LlmReply {
    Structured(String),
    Raw(String),
}

/// Apply the soft-fallback rule to an LLM reply. The text is carried
/// unchanged either way; only its classification differs.
pub fn interpret_llm_reply(response: String) -> (r: LlmReply)
    ensures
        parses_as_json(response@) ==> (r matches LlmReply::Structured(s) && s@ == response@),
        !parses_as_json(response@) ==> (r matches LlmReply::Raw(s) && s@ == response@),
{
    if json_parses(response.as_str()) {
        LlmReply::Structured(response)
    } else {
        LlmReply::Raw(response)
    }
}

/// The discovery handler: prompts the LLM with the existing skill inventory
/// and wraps unparsable candidate lists instead of failing.
pub struct LearningHandler;

/// A discovery stage's output: the candidate document (or raw fallback) and
/// the skill inventory the prompt was built from.
pub struct DiscoveryOutput {
    pub candidates: LlmReply,
    pub existing_skills: Vec<String>,
}

impl LearningHandler {
    /// Assemble the discovery output from the LLM reply: an unparsable reply
    /// is wrapped as raw text, never a failure.
    pub fn discovery_output(response: String, existing_skills: Vec<String>) -> (r: DiscoveryOutput)
        ensures
            parses_as_json(response@) ==> (r.candidates matches LlmReply::Structured(s) && s@
                == response@),
            !parses_as_json(response@) ==> (r.candidates matches LlmReply::Raw(s) && s@
                == response@),
            r.existing_skills@ == existing_skills@,
    {
        DiscoveryOutput { candidates: interpret_llm_reply(response), existing_skills }
    }
}

/// The packaging handler: synthesizes manifest and endpoint-configuration
/// documents via the LLM in ordinary mode, delegates to the build stage in
/// self-upgrade mode.
pub struct BuildingHandler;

/// A packaging stage's ordinary-mode output.
pub struct SkillBuildOutput {
    pub build_output: LlmReply,
    pub artifact_id: String,
}

impl BuildingHandler {
    /// Assemble the packaging output from the LLM reply, wrapping unparsable
    /// replies; structural validation of the synthesized manifest is advisory
    /// only and never enforced here.
    pub fn skill_build_output(response: String, artifact_id: String) -> (r: SkillBuildOutput)
        ensures
            parses_as_json(response@) ==> (r.build_output matches LlmReply::Structured(s) && s@
                == response@),
            !parses_as_json(response@) ==> (r.build_output matches LlmReply::Raw(s) && s@
                == response@),
            r.artifact_id@ == artifact_id@,
    {
        SkillBuildOutput { build_output: interpret_llm_reply(response), artifact_id }
    }
}

/// The validation handler: probes endpoint urls in ordinary mode, checks the
/// extracted release in self-upgrade mode.
pub struct PreLoadHandler;

/// What the ordinary-mode validation stage does next.
pub enum PreLoadPlan {
    /// No endpoint to check: the stage succeeds trivially.
    TriviallyHealthy,
    /// Probe these urls, each with a bounded timeout.
    Probe(Vec<String>),
}

impl PreLoadHandler {
    /// Decide the ordinary-mode validation path: collect the candidate urls
    /// from the packaging output's endpoint configuration and the explicit
    /// metadata urls; an empty list succeeds trivially, anything else is
    /// probed.
    pub fn endpoint_plan(config_toml: Option<&str>, explicit: &Vec<String>) -> (r: PreLoadPlan)
        ensures
            ({
                let urls = (match config_toml {
                    Some(c) => match config_urls_of(c@) {
                        Some(us) => us,
                        None => Seq::<Seq<char>>::empty(),
                    },
                    None => Seq::<Seq<char>>::empty(),
                }) + explicit.deep_view();
                if urls.len() == 0 {
                    r is TriviallyHealthy
                } else {
                    r matches PreLoadPlan::Probe(v) && v.deep_view() == urls
                }
            }),
    {
        let urls = collect_endpoint_urls(config_toml, explicit);
        proof {
            assert(urls.deep_view().len() == urls@.len());
        }
        if urls.len() == 0 {
            PreLoadPlan::TriviallyHealthy
        } else {
            PreLoadPlan::Probe(urls)
        }
    }

    /// The self-upgrade validation gate: the stage hard-fails unless all
    /// required checks passed; the verdict itself is returned either way.
    pub fn upgrade_validation_outcome(result: ValidationResult) -> (r: Result<
        ValidationResult,
        ValidationResult,
    >)
        ensures
            (r is Ok) == result.all_passed,
            r matches Ok(v) ==> v == result,
            r matches Err(v) ==> v == result,
    {
        if result.all_passed {
            Ok(result)
        } else {
            Err(result)
        }
    }
}

/// The scoring handler: weighs LLM dimension scores in ordinary mode; in
/// self-upgrade mode it short-circuits on failed validation and otherwise
/// delegates to the evaluate sub-stage.
pub struct EvaluationHandler;

/// What the scoring stage does with a self-upgrade event.
pub enum UpgradeScoringPlan {
    /// Pre-load validation failed: discard immediately with score zero,
    /// without consulting the LLM or the evaluate sub-stage.
    ForcedDiscard(ScoringVerdict),
    /// Validation passed: delegate to the evaluate sub-stage.
    Evaluate,
}

/// A task evaluation summary: a short text and a milli-unit quality score.
#[derive(Debug)]
pub struct TaskSummary {
    pub summary: String,
    pub score_milli: u32,
}

impl EvaluationHandler {
    /// Decide the self-upgrade scoring path from the incoming validation
    /// flag. A missing flag counts as failed validation.
    pub fn upgrade_scoring_plan(validation_all_passed: Option<bool>) -> (r: UpgradeScoringPlan)
        ensures
            validation_all_passed == Some(true) ==> r is Evaluate,
            validation_all_passed != Some(true) ==> (r matches UpgradeScoringPlan::ForcedDiscard(v)
                && v.recommendation@ == "discard"@ && v.score_milli == 0),
    {
        let passed = match validation_all_passed {
            Some(b) => b,
            None => false,
        };
        if passed {
            UpgradeScoringPlan::Evaluate
        } else {
            UpgradeScoringPlan::ForcedDiscard(
                ScoringVerdict { recommendation: "discard".to_owned(), score_milli: 0 },
            )
        }
    }

    /// Interpret the fields parsed from an LLM scoring reply, applying the
    /// documented fallbacks: a missing score counts as zero, a missing
    /// recommendation counts as `"hold"`. Malformed output therefore never
    /// fails the stage.
    pub fn scoring_fields(score_milli: Option<u32>, recommendation: Option<String>) -> (r:
        ScoringVerdict)
        ensures
            r.score_milli == (match score_milli {
                Some(s) => s,
                None => 0u32,
            }),
            match recommendation {
                Some(s) => r.recommendation@ == s@,
                None => r.recommendation@ == "hold"@,
            },
    {
        let score = match score_milli {
            Some(s) => s,
            None => 0,
        };
        let rec = match recommendation {
            Some(s) => s,
            None => "hold".to_owned(),
        };
        ScoringVerdict { recommendation: rec, score_milli: score }
    }

    /// Summarize an ordinary task evaluation from the parsed reply fields:
    /// an unparsable reply summarizes as its own text with a middling score;
    /// a parsed reply falls back field by field.
    pub fn task_summary(
        reply_parses: bool,
        parsed_summary: Option<String>,
        parsed_score_milli: Option<u32>,
        raw: String,
    ) -> (r: TaskSummary)
        ensures
            !reply_parses ==> r.summary@ == raw@ && r.score_milli == 500,
            reply_parses ==> r.summary@ == (match parsed_summary {
                Some(s) => s@,
                None => "Task completed"@,
            }) && r.score_milli == (match parsed_score_milli {
                Some(s) => s,
                None => 500u32,
            }),
    {
        if !reply_parses {
            TaskSummary { summary: raw, score_milli: 500 }
        } else {
            let summary = match parsed_summary {
                Some(s) => s,
                None => "Task completed".to_owned(),
            };
            let score = match parsed_score_milli {
                Some(s) => s,
                None => 500,
            };
            TaskSummary { summary, score_milli: score }
        }
    }
}

/// The lifecycle handler: applies the global activation gate and, above the
/// gate, plans deployment (ordinary) or approves the upgrade (self-upgrade).
pub struct SkillManageHandler;

/// The lifecycle decision for an ordinary artifact: discarded below the
/// gate, deployed and activated above it.
pub enum SkillLifecyclePlan {
    Discard,
    PlanDeployment,
}

/// The lifecycle outcome for a self-upgrade.
#[derive(Debug)]
pub struct UpgradeLifecycleOutcome {
    pub action: LifecycleAction,
    pub component: String,
    pub new_version: String,
    pub score_milli: u32,
}

impl SkillManageHandler {
    /// Apply the activation gate to an ordinary artifact: strictly below the
    /// threshold, or recommended for discard, is discarded with no further
    /// calls; anything else proceeds to deployment planning.
    pub fn manage_skill(recommendation: &str, score_milli: u32) -> (r: SkillLifecyclePlan)
        ensures
            (r is Discard) == spec_gate_discards(recommendation@, score_milli),
    {
        match lifecycle_decision(recommendation, score_milli) {
            LifecycleAction::Discarded => SkillLifecyclePlan::Discard,
            LifecycleAction::Activated => SkillLifecyclePlan::PlanDeployment,
        }
    }

    /// Apply the same gate to a self-upgrade: above it, the upgrade is
    /// marked activated and the component and version are passed back for
    /// the orchestrator to act on.
    pub fn manage_upgrade(
        component: String,
        new_version: String,
        recommendation: &str,
        score_milli: u32,
    ) -> (r: UpgradeLifecycleOutcome)
        ensures
            (r.action == LifecycleAction::Discarded) == spec_gate_discards(
                recommendation@,
                score_milli,
            ),
            r.component@ == component@,
            r.new_version@ == new_version@,
            r.score_milli == score_milli,
    {
        UpgradeLifecycleOutcome {
            action: lifecycle_decision(recommendation, score_milli),
            component,
            new_version,
            score_milli,
        }
    }
}

} // verus!
