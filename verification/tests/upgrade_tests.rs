use evo_agent_sdk::upgrade::{
    archive_file_name, archive_source, binary_name_for, build_step, detect_target, evaluate_upgrade,
    expand_home, release_tag_url, runtime_binary_name, ArchiveSource, BuildResult, BuildState,
    RepoEntry, ReposJson, ValidationResult,
};

fn entry(installed: &str) -> RepoEntry {
    RepoEntry {
        github: "evo/evo-gateway".to_string(),
        local_path: "~/src/evo-gateway".to_string(),
        installed_version: installed.to_string(),
        binary_path: "~/bin/evo-gateway".to_string(),
        repo_type: "service".to_string(),
    }
}

#[test]
fn validation_requires_behavior_file() {
    // binary present and executable, behavior file absent: not all passed,
    // even though the skills directory is also absent
    let v = ValidationResult::from_checks(true, true, false, false, true);
    assert!(!v.all_passed);
    assert!(v.binary_exists);
    assert!(v.binary_executable);
    assert!(!v.soul_md_exists);
}

#[test]
fn validation_ignores_informative_checks() {
    // skills directory and smoke test do not affect the verdict
    let v = ValidationResult::from_checks(true, true, true, false, false);
    assert!(v.all_passed);
    assert!(!v.skills_dir_exists);
    assert!(!v.health_check_passed);
    let v = ValidationResult::from_checks(false, true, true, true, true);
    assert!(!v.all_passed);
}

#[test]
fn smoke_test_reflects_spawning() {
    let v = ValidationResult::from_checks(true, true, true, true, true);
    assert!(v.health_check_passed);
    let v = ValidationResult::from_checks(true, true, true, true, false);
    assert!(!v.health_check_passed);
}

#[test]
fn kernel_agent_names_are_rewritten() {
    assert_eq!(
        runtime_binary_name("evo-kernel-agent-learning"),
        "evo-agent-learning"
    );
    assert_eq!(runtime_binary_name("evo-gateway"), "evo-gateway");
    assert_eq!(
        binary_name_for("evo-kernel-agent-learning", "kernel-agent"),
        "evo-agent-learning"
    );
    // a non-kernel repository keeps its component name
    assert_eq!(
        binary_name_for("evo-kernel-agent-learning", "service"),
        "evo-kernel-agent-learning"
    );
}

#[test]
fn archive_and_release_names_are_exact() {
    assert_eq!(
        archive_file_name("evo-agent-learning", "v1.2.0", "x86_64-unknown-linux-gnu"),
        "evo-agent-learning-v1.2.0-x86_64-unknown-linux-gnu.tar.gz"
    );
    assert_eq!(
        release_tag_url("evo/evo-gateway", "v1.2.0"),
        "https://github.com/evo/evo-gateway/releases/tag/v1.2.0"
    );
}

#[test]
fn build_result_assembles_names() {
    let r = BuildResult::assemble(
        "evo-kernel-agent-learning".to_string(),
        "v2.0.0".to_string(),
        "kernel-agent",
        "evo/learning",
        "/tmp/archive.tar.gz".to_string(),
    );
    assert_eq!(r.binary_name, "evo-agent-learning");
    assert_eq!(r.release_url, "https://github.com/evo/learning/releases/tag/v2.0.0");
    assert_eq!(r.component, "evo-kernel-agent-learning");
    assert_eq!(r.new_version, "v2.0.0");
    assert_eq!(r.archive_path, "/tmp/archive.tar.gz");
}

#[test]
fn target_triples_cover_the_release_platforms() {
    assert_eq!(detect_target("linux", "x86_64"), "x86_64-unknown-linux-gnu");
    assert_eq!(detect_target("linux", "aarch64"), "aarch64-unknown-linux-gnu");
    assert_eq!(detect_target("macos", "x86_64"), "x86_64-apple-darwin");
    assert_eq!(detect_target("macos", "aarch64"), "aarch64-apple-darwin");
    assert_eq!(detect_target("windows", "x86_64"), "x86_64-pc-windows-msvc");
    assert_eq!(detect_target("freebsd", "riscv64"), "unknown-unknown-unknown");
}

#[test]
fn home_expansion_needs_home() {
    assert_eq!(expand_home("~/x/y", Some("/home/u")), "/home/u/x/y");
    assert_eq!(expand_home("~/x/y", None), "~/x/y");
    assert_eq!(expand_home("/abs/path", Some("/home/u")), "/abs/path");
}

#[test]
fn archives_are_downloaded_only_from_urls() {
    assert!(matches!(
        archive_source("https://github.com/evo/r/releases/download/v1/a.tar.gz"),
        ArchiveSource::RemoteUrl
    ));
    assert!(matches!(archive_source("/tmp/a.tar.gz"), ArchiveSource::LocalPath));
}

#[test]
fn evaluate_upgrade_always_recommends_activation() {
    let v = evaluate_upgrade(
        "evo-gateway".to_string(),
        "v2.0.0".to_string(),
        Some("v1.9.0".to_string()),
        Some(1024),
    );
    assert_eq!(v.recommendation, "activate");
    assert_eq!(v.score_milli, 900);
    assert_eq!(v.current_version, "v1.9.0");
    assert_eq!(v.new_version, "v2.0.0");
    assert_eq!(v.current_binary_size, Some(1024));

    let v = evaluate_upgrade("ghost".to_string(), "v0.1.0".to_string(), None, None);
    assert_eq!(v.current_version, "unknown");
    assert_eq!(v.recommendation, "activate");
}

#[test]
fn registry_lookup_finds_first_entry() {
    let repos = ReposJson {
        version: "1".to_string(),
        repos: vec![
            ("evo-gateway".to_string(), entry("v1.0.0")),
            ("evo-king".to_string(), entry("v3.0.0")),
        ],
    };
    assert_eq!(repos.find_repo("evo-king").unwrap().installed_version, "v3.0.0");
    assert!(repos.find_repo("absent").is_none());
}

#[test]
fn build_steps_fail_fast_until_publish() {
    assert_eq!(build_step(BuildState::ResolveRepo, false), BuildState::Failed);
    assert_eq!(build_step(BuildState::Pull, false), BuildState::Failed);
    assert_eq!(build_step(BuildState::Compile, false), BuildState::Failed);
    assert_eq!(build_step(BuildState::LocateBinary, false), BuildState::Failed);
    assert_eq!(build_step(BuildState::Archive, false), BuildState::Failed);
    // non-fatal steps advance either way
    assert_eq!(build_step(BuildState::CopySkills, false), BuildState::Archive);
    assert_eq!(build_step(BuildState::CleanupStaging, false), BuildState::PublishCreate);
}

#[test]
fn publish_is_idempotent() {
    // a create failure (tag collision) falls back to uploading the asset
    assert_eq!(build_step(BuildState::PublishCreate, false), BuildState::PublishUpload);
    assert_eq!(build_step(BuildState::PublishCreate, true), BuildState::Done);
    // the upload fallback never fails the stage
    assert_eq!(build_step(BuildState::PublishUpload, false), BuildState::Done);
    assert_eq!(build_step(BuildState::PublishUpload, true), BuildState::Done);
}

#[test]
fn happy_path_reaches_done() {
    let mut s = BuildState::ResolveRepo;
    let mut steps = 0;
    while s != BuildState::Done && s != BuildState::Failed {
        s = build_step(s, true);
        steps += 1;
        assert!(steps <= 12);
    }
    assert_eq!(s, BuildState::Done);
}
