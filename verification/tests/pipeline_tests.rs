use evo_agent_sdk::dispatch::{
    classify_mode, is_self_upgrade, make_stage_result, parse_role, route_stage,
    should_skip_task_eval, truncate_chars, EventMode, Role, StagePath, StageStatus,
};
use evo_agent_sdk::gate::{lifecycle_decision, LifecycleAction};
use evo_agent_sdk::handlers::{
    BuildingHandler, EvaluationHandler, LearningHandler, LlmReply, SkillLifecyclePlan,
    SkillManageHandler, UpgradeScoringPlan,
};
use evo_agent_sdk::session::{dedup_strings, Heartbeat};

#[test]
fn parse_role_accepts_both_spellings() {
    assert_eq!(parse_role("learning"), Some(Role::Learning));
    assert_eq!(parse_role("building"), Some(Role::Building));
    assert_eq!(parse_role("pre-load"), Some(Role::PreLoad));
    assert_eq!(parse_role("pre_load"), Some(Role::PreLoad));
    assert_eq!(parse_role("evaluation"), Some(Role::Evaluation));
    assert_eq!(parse_role("skill-manage"), Some(Role::SkillManage));
    assert_eq!(parse_role("skill_manage"), Some(Role::SkillManage));
    assert_eq!(parse_role("king"), None);
}

#[test]
fn stage_result_on_success_carries_output() {
    let r = make_stage_result(
        "run-1".to_string(),
        "building".to_string(),
        "agent-1".to_string(),
        "art-9".to_string(),
        Ok("{\"built\":true}".to_string()),
    );
    assert_eq!(r.run_id, "run-1");
    assert_eq!(r.stage, "building");
    assert_eq!(r.agent_id, "agent-1");
    assert_eq!(r.artifact_id, "art-9");
    assert_eq!(r.status, StageStatus::Completed);
    assert_eq!(r.output, "{\"built\":true}");
    assert!(r.error.is_none());
}

#[test]
fn stage_result_on_failure_has_empty_output_and_error() {
    let r = make_stage_result(
        "run-2".to_string(),
        "pre-load".to_string(),
        "agent-1".to_string(),
        "art-9".to_string(),
        Err("health check failed".to_string()),
    );
    assert_eq!(r.run_id, "run-2");
    assert_eq!(r.stage, "pre-load");
    assert_eq!(r.status, StageStatus::Failed);
    assert_eq!(r.output, "");
    assert_eq!(r.error.as_deref(), Some("health check failed"));
}

#[test]
fn classify_mode_requires_self_upgrade_build_type() {
    let mode = classify_mode(Some("self_upgrade".to_string()), None, None, "art-1");
    match &mode {
        EventMode::SelfUpgrade(d) => {
            assert_eq!(d.component, "art-1");
            assert_eq!(d.new_version, "v0.0.0");
        }
        EventMode::Standard => panic!("expected self-upgrade mode"),
    }
    assert!(is_self_upgrade(&mode));

    let mode = classify_mode(
        Some("self_upgrade".to_string()),
        Some("evo-kernel-agent-learning".to_string()),
        Some("v1.2.3".to_string()),
        "art-1",
    );
    match &mode {
        EventMode::SelfUpgrade(d) => {
            assert_eq!(d.component, "evo-kernel-agent-learning");
            assert_eq!(d.new_version, "v1.2.3");
        }
        EventMode::Standard => panic!("expected self-upgrade mode"),
    }

    let mode = classify_mode(Some("skill".to_string()), None, None, "art-1");
    assert!(matches!(mode, EventMode::Standard));
    assert!(!is_self_upgrade(&mode));
    let mode = classify_mode(None, None, None, "art-1");
    assert!(matches!(mode, EventMode::Standard));
}

#[test]
fn handler_matrix_routes_both_modes() {
    let std_mode = classify_mode(None, None, None, "a");
    let up_mode = classify_mode(Some("self_upgrade".to_string()), None, None, "a");
    assert_eq!(route_stage(Role::Learning, &std_mode), StagePath::Discovery);
    assert_eq!(route_stage(Role::Learning, &up_mode), StagePath::Discovery);
    assert_eq!(route_stage(Role::Building, &std_mode), StagePath::SkillPackaging);
    assert_eq!(route_stage(Role::Building, &up_mode), StagePath::UpgradeBuild);
    assert_eq!(route_stage(Role::PreLoad, &std_mode), StagePath::EndpointValidation);
    assert_eq!(route_stage(Role::PreLoad, &up_mode), StagePath::UpgradeValidation);
    assert_eq!(route_stage(Role::Evaluation, &std_mode), StagePath::SkillScoring);
    assert_eq!(route_stage(Role::Evaluation, &up_mode), StagePath::UpgradeScoring);
    assert_eq!(route_stage(Role::SkillManage, &std_mode), StagePath::SkillLifecycle);
    assert_eq!(route_stage(Role::SkillManage, &up_mode), StagePath::UpgradeLifecycle);
}

#[test]
fn task_eval_skips_pipeline_tasks() {
    assert!(should_skip_task_eval("pipeline"));
    assert!(!should_skip_task_eval("shell"));
}

#[test]
fn truncate_chars_bounds_prompt_input() {
    assert_eq!(truncate_chars("hello", 10), "hello");
    assert_eq!(truncate_chars("hello", 3), "hel");
    assert_eq!(truncate_chars("", 4000), "");
}

#[test]
fn gate_discards_strictly_below_threshold() {
    // 0.59 with an activate recommendation is still discarded
    assert_eq!(lifecycle_decision("activate", 590), LifecycleAction::Discarded);
    // 0.6 itself is not discarded on score grounds
    assert_eq!(lifecycle_decision("activate", 600), LifecycleAction::Activated);
    // a discard recommendation wins whatever the score
    assert_eq!(lifecycle_decision("discard", 1000), LifecycleAction::Discarded);
    assert_eq!(lifecycle_decision("hold", 750), LifecycleAction::Activated);
}

#[test]
fn manage_skill_applies_gate() {
    assert!(matches!(
        SkillManageHandler::manage_skill("activate", 590),
        SkillLifecyclePlan::Discard
    ));
    assert!(matches!(
        SkillManageHandler::manage_skill("activate", 600),
        SkillLifecyclePlan::PlanDeployment
    ));
}

#[test]
fn manage_upgrade_applies_gate_and_passes_component() {
    let out = SkillManageHandler::manage_upgrade(
        "evo-gateway".to_string(),
        "v2.0.0".to_string(),
        "activate",
        900,
    );
    assert_eq!(out.action, LifecycleAction::Activated);
    assert_eq!(out.component, "evo-gateway");
    assert_eq!(out.new_version, "v2.0.0");
    assert_eq!(out.score_milli, 900);

    let out = SkillManageHandler::manage_upgrade(
        "evo-gateway".to_string(),
        "v2.0.0".to_string(),
        "activate",
        599,
    );
    assert_eq!(out.action, LifecycleAction::Discarded);
}

#[test]
fn scoring_short_circuits_on_failed_validation() {
    match EvaluationHandler::upgrade_scoring_plan(Some(false)) {
        UpgradeScoringPlan::ForcedDiscard(v) => {
            assert_eq!(v.recommendation, "discard");
            assert_eq!(v.score_milli, 0);
        }
        UpgradeScoringPlan::Evaluate => panic!("expected forced discard"),
    }
    match EvaluationHandler::upgrade_scoring_plan(None) {
        UpgradeScoringPlan::ForcedDiscard(v) => {
            assert_eq!(v.recommendation, "discard");
            assert_eq!(v.score_milli, 0);
        }
        UpgradeScoringPlan::Evaluate => panic!("expected forced discard"),
    }
    assert!(matches!(
        EvaluationHandler::upgrade_scoring_plan(Some(true)),
        UpgradeScoringPlan::Evaluate
    ));
}

#[test]
fn scoring_fields_default_to_zero_and_hold() {
    let v = EvaluationHandler::scoring_fields(None, None);
    assert_eq!(v.score_milli, 0);
    assert_eq!(v.recommendation, "hold");
    let v = EvaluationHandler::scoring_fields(Some(820), Some("activate".to_string()));
    assert_eq!(v.score_milli, 820);
    assert_eq!(v.recommendation, "activate");
}

#[test]
fn task_summary_falls_back_per_field() {
    let t = EvaluationHandler::task_summary(false, None, None, "raw text".to_string());
    assert_eq!(t.summary, "raw text");
    assert_eq!(t.score_milli, 500);
    let t = EvaluationHandler::task_summary(true, None, None, "ignored".to_string());
    assert_eq!(t.summary, "Task completed");
    assert_eq!(t.score_milli, 500);
    let t = EvaluationHandler::task_summary(
        true,
        Some("All good".to_string()),
        Some(900),
        "ignored".to_string(),
    );
    assert_eq!(t.summary, "All good");
    assert_eq!(t.score_milli, 900);
}

#[test]
fn discovery_output_wraps_unparsable_reply() {
    let out = LearningHandler::discovery_output(
        "not json at all".to_string(),
        vec!["web-search".to_string()],
    );
    match out.candidates {
        LlmReply::Raw(s) => assert_eq!(s, "not json at all"),
        LlmReply::Structured(_) => panic!("expected raw fallback"),
    }
    assert_eq!(out.existing_skills, vec!["web-search".to_string()]);

    let out = LearningHandler::discovery_output("[{\"name\":\"a\"}]".to_string(), Vec::new());
    match out.candidates {
        LlmReply::Structured(s) => assert_eq!(s, "[{\"name\":\"a\"}]"),
        LlmReply::Raw(_) => panic!("expected structured reply"),
    }
}

#[test]
fn skill_build_output_carries_artifact() {
    let out =
        BuildingHandler::skill_build_output("{\"manifest_toml\":\"x\"}".to_string(), "a1".to_string());
    assert!(matches!(out.build_output, LlmReply::Structured(_)));
    assert_eq!(out.artifact_id, "a1");
}

#[test]
fn capabilities_are_deduplicated_in_order() {
    let caps = dedup_strings(vec![
        "search".to_string(),
        "fetch".to_string(),
        "search".to_string(),
        "summarize".to_string(),
        "fetch".to_string(),
    ]);
    assert_eq!(
        caps,
        vec!["search".to_string(), "fetch".to_string(), "summarize".to_string()]
    );
}

#[test]
fn heartbeat_reemits_registration_on_first_tick_only() {
    let mut hb = Heartbeat::new();
    assert!(hb.tick());
    assert!(!hb.tick());
    assert!(!hb.tick());
}
