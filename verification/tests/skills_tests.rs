use m_claw::reviewer::{parse_review_result, MemoryUpdate, ReviewResult, SkillUpdate};
use m_claw::skills::{parse_skill_md, SkillLoader, SkillMetadata};

const SAMPLE_SKILL: &str = "---\ntrigger_words:\n  - deploy\n  - deployment\n  - CI/CD\nversion: \"1.0.0\"\nauthor: \"test-bot\"\ndependencies:\n  - \"lark-tools\"\n---\n\n# Deploy Skill\n\nAutomate deployment workflows.";

fn words(ws: &[&str]) -> SkillMetadata {
    SkillMetadata {
        trigger_words: ws.iter().map(|w| w.to_string()).collect(),
        version: String::new(),
        author: String::new(),
        dependencies: Vec::new(),
    }
}

fn loader_with(skills: &[(&str, &str, SkillMetadata)]) -> SkillLoader {
    let mut loader = SkillLoader::new();
    for (name, text, meta) in skills {
        let parts = parse_skill_md(text).unwrap();
        loader.load_file(&format!("/skills/{name}/SKILL.md"), parts, meta.clone());
    }
    loader
}

#[test]
fn trigger_match() {
    let loader = loader_with(&[("deploy", SAMPLE_SKILL, words(&["deploy", "deployment", "CI/CD"]))]);
    assert!(!loader.match_trigger("deploy").is_empty());
    assert!(!loader.match_trigger("deployment").is_empty());
    assert!(!loader.match_trigger("CI/CD").is_empty());
    assert!(loader.match_trigger("unrelated").is_empty());
}

#[test]
fn trigger_case_insensitive() {
    let loader = loader_with(&[(
        "search",
        "---\ntrigger_words:\n  - Search\n  - FIND\n---\n# Search\nSearch things.",
        words(&["Search", "FIND"]),
    )]);
    assert!(!loader.match_trigger("search").is_empty());
    assert!(!loader.match_trigger("SEARCH").is_empty());
    assert!(!loader.match_trigger("find").is_empty());
    assert!(!loader.match_trigger("FIND").is_empty());
}

#[test]
fn trigger_match_returns_each_skill_once() {
    let loader = loader_with(&[
        ("a", "---\n---\n# A\n", words(&["x"])),
        ("b", "---\n---\n# B\n", words(&["y"])),
        ("c", "---\n---\n# C\n", words(&["x", "xx"])),
    ]);
    let hits: Vec<&str> = loader.match_trigger("x").iter().map(|s| s.name.as_str()).collect();
    assert_eq!(hits, vec!["a", "c"]);
}

#[test]
fn fuzzy_load_case_insensitive() {
    let loader = loader_with(&[("MySkill", SAMPLE_SKILL, SkillMetadata::empty())]);
    assert!(loader.load("myskill").is_some());
    assert!(loader.load("MYSKILL").is_some());
    assert!(loader.load("MySkill").is_some());
}

#[test]
fn fuzzy_load_substring() {
    let loader = loader_with(&[("lark-tools", SAMPLE_SKILL, SkillMetadata::empty())]);
    assert!(loader.load("lark").is_some());
    assert!(loader.load("tools").is_some());
    assert!(loader.load("unrelated").is_none());
}

#[test]
fn summary_format() {
    let loader = loader_with(&[
        ("alpha", SAMPLE_SKILL, SkillMetadata::empty()),
        ("beta", "---\n---\n# Beta\nBeta skill.", SkillMetadata::empty()),
    ]);
    let summary = loader.summary();
    assert!(summary.contains("alpha — Deploy Skill"));
    assert!(summary.contains("beta — Beta"));
}

#[test]
fn summary_single_skill() {
    let loader = loader_with(&[("only", "---\n---\n# Only\nThe only skill.", SkillMetadata::empty())]);
    assert_eq!(loader.summary(), "only — Only");
}

#[test]
fn load_bad_frontmatter() {
    let mut loader = SkillLoader::new();
    let files = vec![(
        "/skills/bad/SKILL.md".to_string(),
        Err("invalid YAML frontmatter: did not find expected key".to_string()),
    )];
    let result = loader.load_dir(files);
    assert!(result.unwrap_err().contains("invalid YAML frontmatter"));
    assert!(loader.is_empty());
}

#[test]
fn load_missing_frontmatter() {
    let err = parse_skill_md("# No Frontmatter\nJust content.").unwrap_err();
    assert!(err.contains("missing YAML frontmatter"));
}

#[test]
fn test_parse_review_result_with_updates() {
    let raw = "{\"memory_updates\": [{\"target\": \"agent\", \"section\": \"## Tools\", \"content\": \"new tool found\", \"action\": \"append\"}], \"skill_updates\": [{\"name\": \"deploy\", \"action\": \"delete\", \"content\": null}], \"summary\": \"Found new tool, removed unused skill.\"}";
    let parsed = ReviewResult {
        memory_updates: vec![MemoryUpdate {
            target: "agent".into(),
            section: "## Tools".into(),
            content: "new tool found".into(),
            action: "append".into(),
        }],
        skill_updates: vec![SkillUpdate { name: "deploy".into(), action: "delete".into(), content: None }],
        summary: "Found new tool, removed unused skill.".into(),
    };
    let result = parse_review_result(raw, Some(parsed));
    assert_eq!(result.memory_updates.len(), 1);
    assert_eq!(result.skill_updates.len(), 1);
    assert_eq!(result.skill_updates[0].action, "delete");
    assert_eq!(result.skill_updates[0].content, None);
}
