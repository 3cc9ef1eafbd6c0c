use evo_agent_sdk::soul::{extract_full_section, extract_section, soul_from_content, split_lines};

#[test]
fn extract_role_from_soul_content() {
    let content = "# Learning Agent\n\n## Role\nlearning\n\n## Behavior\nDiscover skills.";
    let role = extract_section(content, "Role").unwrap();
    assert_eq!(role, "learning");
}

#[test]
fn missing_section_returns_none() {
    let content = "# Agent\n\n## Behavior\nDo stuff.";
    assert!(extract_section(content, "Role").is_none());
}

#[test]
fn extract_full_behavior_section() {
    let content = "# Learning Agent\n\n## Role\nlearning\n\n## Behavior\n- Discover skills\n- Evaluate candidates\n- Report findings\n\n## Events\n- pipeline:next";
    let behavior = extract_full_section(content, "Behavior").unwrap();
    assert!(behavior.contains("Discover skills"));
    assert!(behavior.contains("Evaluate candidates"));
    assert!(behavior.contains("Report findings"));
    assert!(!behavior.contains("pipeline:next")); // should not include next section
}

#[test]
fn extract_full_section_at_end_of_file() {
    let content = "# Agent\n\n## Role\ntest\n\n## Behavior\nDo stuff.\nMore stuff.";
    let behavior = extract_full_section(content, "Behavior").unwrap();
    assert!(behavior.contains("Do stuff."));
    assert!(behavior.contains("More stuff."));
}

#[test]
fn soul_extract_role_from_soul_content() {
    let content = "# Learning Agent\n\n## Role\nlearning\n\n## Behavior\nDiscover skills.";
    let role = extract_section(content, "Role").unwrap();
    assert_eq!(role, "learning");
}

#[test]
fn soul_missing_section_returns_none() {
    let content = "# Agent\n\n## Behavior\nDo stuff.";
    assert!(extract_section(content, "Role").is_none());
}

#[test]
fn split_lines_strips_line_endings() {
    let lines = split_lines("a\r\nb\nc");
    assert_eq!(lines, vec!["a".to_string(), "b".to_string(), "c".to_string()]);
    let lines = split_lines("a\n");
    assert_eq!(lines, vec!["a".to_string()]);
    let empty: Vec<String> = Vec::new();
    assert_eq!(split_lines(""), empty);
}

#[test]
fn soul_normalizes_role_and_derives_agent_id() {
    let content = "# Agent\n\n## Role\nLearning Agent\n\n## Behavior\nDo stuff.";
    let soul = soul_from_content(content, "agent-7");
    assert_eq!(soul.role, "learning-agent");
    assert_eq!(soul.agent_id, "agent-7-learning-agent");
    assert_eq!(soul.behavior, "Do stuff.");
    assert_eq!(soul.body, content);
}

#[test]
fn soul_defaults_when_sections_missing() {
    let soul = soul_from_content("# Agent\n", "agent-3");
    assert_eq!(soul.role, "unknown");
    assert_eq!(soul.agent_id, "agent-3-unknown");
    assert_eq!(soul.behavior, "");
}

#[test]
fn section_marker_inside_section_is_skipped() {
    // a repeated marker line stays in the section and is not content
    let content = "## Role\n\n## Role\nlearning";
    assert_eq!(extract_section(content, "Role").unwrap(), "learning");
}
