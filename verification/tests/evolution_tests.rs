use m_claw::curator::{
    add_missing_entries, consolidation_request, levenshtein_distance, normalize_name, refine_candidates, skill_names,
    ConsolidationReport, Curator, CuratorConfig, MergeCandidate, MergeDecision, Similarity, SkillOrigin, SkillState,
    SkillUsage,
};
use m_claw::manager::{apply_patch, format_yaml_list, replace_body, replace_frontmatter_field, SkillPatch};
use m_claw::message::Message;
use m_claw::reviewer::{
    build_review_prompt, extract_json, format_conversation, parse_review_result, should_review, NudgeConfig,
    ReviewResult, ReviewTrigger,
};

const DAY: i64 = 86_400;
const NOW: i64 = 1_700_000_000;

fn usage_entry(state: SkillState, pinned: bool, days_ago: i64) -> SkillUsage {
    let mut entry = SkillUsage::new(SkillOrigin::Agent, NOW - days_ago * DAY);
    entry.state = state;
    entry.pinned = pinned;
    entry
}

fn default_config() -> CuratorConfig {
    CuratorConfig { stale_after_days: 30, archive_after_days: 90, run_interval_hours: 168 }
}

#[test]
fn config_defaults() {
    let config = CuratorConfig::default();
    assert_eq!(config.stale_after_days, 30);
    assert_eq!(config.archive_after_days, 90);
    assert_eq!(config.run_interval_hours, 168);
}

#[test]
fn normalize_name_removes_special_chars() {
    assert_eq!(normalize_name("my-cool_skill"), "my cool skill");
    assert_eq!(normalize_name("UPPER_case"), "upper case");
    assert_eq!(normalize_name("  extra  spaces  "), "extra spaces");
}

#[test]
fn levenshtein_identical() {
    assert_eq!(levenshtein_distance("abc", "abc"), 0);
}

#[test]
fn levenshtein_empty() {
    assert_eq!(levenshtein_distance("", "abc"), 3);
    assert_eq!(levenshtein_distance("abc", ""), 3);
}

#[test]
fn levenshtein_single_edit() {
    assert_eq!(levenshtein_distance("kitten", "sitten"), 1);
    assert_eq!(levenshtein_distance("kitten", "kittens"), 1);
}

#[test]
fn levenshtein_is_symmetric_on_examples() {
    assert_eq!(levenshtein_distance("kitten", "sitting"), 3);
    assert_eq!(levenshtein_distance("sitting", "kitten"), 3);
}

#[test]
fn transition_active_to_stale() {
    let curator = Curator::new("/skills", default_config());
    let mut usage = vec![("old-skill".to_string(), usage_entry(SkillState::Active, false, 45))];
    let transitions = curator.apply_automatic_transitions(&mut usage, NOW);
    assert_eq!(transitions.len(), 1);
    assert_eq!(transitions[0].from, SkillState::Active);
    assert_eq!(transitions[0].to, SkillState::Stale);
    assert_eq!(transitions[0].skill_name, "old-skill");
    assert_eq!(usage[0].1.state, SkillState::Stale);
}

#[test]
fn transition_stale_to_archived() {
    let curator = Curator::new("/skills", default_config());
    let mut usage = vec![("ancient-skill".to_string(), usage_entry(SkillState::Stale, false, 100))];
    let transitions = curator.apply_automatic_transitions(&mut usage, NOW);
    assert_eq!(transitions.len(), 1);
    assert_eq!(transitions[0].from, SkillState::Stale);
    assert_eq!(transitions[0].to, SkillState::Archived);
    assert_eq!(usage[0].1.state, SkillState::Archived);
}

#[test]
fn pinned_skills_never_transition() {
    let curator = Curator::new("/skills", default_config());
    let mut usage = vec![("pinned-skill".to_string(), usage_entry(SkillState::Active, true, 200))];
    let transitions = curator.apply_automatic_transitions(&mut usage, NOW);
    assert!(transitions.is_empty());
    assert_eq!(usage[0].1.state, SkillState::Active);
}

#[test]
fn pinned_state_never_transitions() {
    let curator = Curator::new("/skills", CuratorConfig::default());
    let mut usage = vec![("pinned-state-skill".to_string(), usage_entry(SkillState::Pinned, false, 200))];
    let transitions = curator.apply_automatic_transitions(&mut usage, NOW);
    assert!(transitions.is_empty());
    assert_eq!(usage[0].1.state, SkillState::Pinned);
}

#[test]
fn active_skill_within_threshold_stays_active() {
    let curator = Curator::new("/skills", CuratorConfig::default());
    let mut usage = vec![("fresh-skill".to_string(), usage_entry(SkillState::Active, false, 5))];
    let transitions = curator.apply_automatic_transitions(&mut usage, NOW);
    assert!(transitions.is_empty());
    assert_eq!(usage[0].1.state, SkillState::Active);
}

#[test]
fn archived_skill_stays_archived() {
    let curator = Curator::new("/skills", CuratorConfig::default());
    let mut usage = vec![("archived-one".to_string(), usage_entry(SkillState::Archived, false, 500))];
    let transitions = curator.apply_automatic_transitions(&mut usage, NOW);
    assert!(transitions.is_empty());
}

#[test]
fn multiple_transitions_in_one_run() {
    let curator = Curator::new("/skills", CuratorConfig::default());
    let mut usage = vec![
        ("stale-one".to_string(), usage_entry(SkillState::Active, false, 35)),
        ("archive-one".to_string(), usage_entry(SkillState::Stale, false, 100)),
    ];
    let transitions = curator.apply_automatic_transitions(&mut usage, NOW);
    assert_eq!(transitions.len(), 2);
    assert_eq!(transitions[0].skill_name, "stale-one");
    assert_eq!(transitions[1].skill_name, "archive-one");
    assert_eq!(transitions[1].applied_at, NOW);
}

#[test]
fn transitions_list_only_moved_entries_in_order() {
    let curator = Curator::new("/skills", CuratorConfig::default());
    let mut usage = vec![
        ("fresh".to_string(), usage_entry(SkillState::Active, false, 1)),
        ("a".to_string(), usage_entry(SkillState::Active, false, 40)),
        ("pinned".to_string(), usage_entry(SkillState::Active, true, 400)),
        ("b".to_string(), usage_entry(SkillState::Stale, false, 95)),
    ];
    let t = curator.apply_automatic_transitions(&mut usage, NOW);
    let names: Vec<&str> = t.iter().map(|x| x.skill_name.as_str()).collect();
    assert_eq!(names, vec!["a", "b"]);
}

#[test]
fn consolidation_finds_similar_names() {
    let curator = Curator::new("/skills", CuratorConfig::default());
    let names = vec!["deploy".to_string(), "deploy-k8s".to_string(), "unrelated".to_string()];
    let report = curator.run_consolidation_sync(&names);
    assert_eq!(report.skills_scanned, 3);
    assert!(!report.merge_candidates.is_empty());
    let found = report.merge_candidates.iter().any(|c| {
        (c.skill_a == "deploy" && c.skill_b == "deploy-k8s") || (c.skill_a == "deploy-k8s" && c.skill_b == "deploy")
    });
    assert!(found, "expected deploy + deploy-k8s as merge candidate");
}

#[test]
fn consolidation_identical_normalized_names() {
    let curator = Curator::new("/skills", CuratorConfig::default());
    let names = vec!["my-skill".to_string(), "my_skill".to_string()];
    let report = curator.run_consolidation_sync(&names);
    assert_eq!(report.merge_candidates.len(), 1);
    assert_eq!(report.merge_candidates[0].similarity, Similarity::Identical);
}

#[test]
fn consolidation_clean_when_dissimilar() {
    let curator = Curator::new("/skills", CuratorConfig::default());
    let names = vec!["alpha".to_string(), "beta".to_string(), "gamma".to_string()];
    assert!(curator.run_consolidation_sync(&names).is_clean());
}

#[test]
fn consolidation_empty_skills_dir() {
    let curator = Curator::new("/skills", CuratorConfig::default());
    let report = curator.run_consolidation_sync(&Vec::new());
    assert_eq!(report.skills_scanned, 0);
    assert!(report.is_clean());
}

#[test]
fn replace_frontmatter_field_updates_existing() {
    let result =
        replace_frontmatter_field("---\nversion: \"1.0\"\nauthor: bob\n---\nBody", "version", " \"2.0\"").unwrap();
    assert!(result.contains("version: \"2.0\""));
    assert!(result.contains("author: bob"));
}

#[test]
fn replace_frontmatter_field_appends_missing() {
    let result = replace_frontmatter_field("---\nversion: \"1.0\"\n---\nBody", "author", " alice").unwrap();
    assert!(result.contains("author: alice"));
    assert!(result.contains("version: \"1.0\""));
}

#[test]
fn replace_body_preserves_frontmatter() {
    let result = replace_body("---\nversion: \"1\"\n---\nOld body", "# New\nBody").unwrap();
    assert!(result.contains("---\nversion: \"1\"\n---\n"));
    assert!(result.contains("# New\nBody"));
    assert!(!result.contains("Old body"));
}

#[test]
fn format_yaml_list_empty() {
    assert_eq!(format_yaml_list(&[]), "[]");
}

#[test]
fn format_yaml_list_items() {
    let items = vec!["foo".to_string(), "bar".to_string()];
    let result = format_yaml_list(&items);
    assert!(result.contains("\n  - foo"));
    assert!(result.contains("\n  - bar"));
}

#[test]
fn test_nudge_config_defaults() {
    let cfg = NudgeConfig::default();
    assert_eq!(cfg.memory_interval, 10);
    assert_eq!(cfg.skill_interval, 10);
}

#[test]
fn test_nudge_config_custom() {
    let cfg = NudgeConfig::new(5, 20);
    assert_eq!(cfg.memory_interval, 5);
    assert_eq!(cfg.skill_interval, 20);
}

#[test]
fn test_should_review_none_when_below_threshold() {
    assert_eq!(should_review(&NudgeConfig::new(10, 10), 5, 3), None);
}

#[test]
fn test_should_review_memory_at_interval() {
    let cfg = NudgeConfig::new(10, 10);
    assert_eq!(should_review(&cfg, 10, 3), Some(ReviewTrigger::Memory));
    assert_eq!(should_review(&cfg, 20, 3), Some(ReviewTrigger::Memory));
}

#[test]
fn test_should_review_skill_at_interval() {
    let cfg = NudgeConfig::new(10, 5);
    assert_eq!(should_review(&cfg, 3, 5), Some(ReviewTrigger::Skill));
    assert_eq!(should_review(&cfg, 3, 10), Some(ReviewTrigger::Skill));
}

#[test]
fn test_should_review_memory_priority_when_both() {
    assert_eq!(should_review(&NudgeConfig::new(10, 10), 10, 10), Some(ReviewTrigger::Memory));
}

#[test]
fn test_should_review_zero_turns_no_trigger() {
    assert_eq!(should_review(&NudgeConfig::new(10, 10), 0, 0), None);
}

#[test]
fn test_should_review_non_multiple_no_trigger() {
    let cfg = NudgeConfig::new(10, 10);
    assert_eq!(should_review(&cfg, 7, 8), None);
    assert_eq!(should_review(&cfg, 13, 8), None);
}

#[test]
fn test_extract_json_plain() {
    let input = "{\"memory_updates\": [], \"skill_updates\": [], \"summary\": \"ok\"}";
    assert_eq!(extract_json(input), input);
}

#[test]
fn test_extract_json_with_fences() {
    let input = "```json\n{\"summary\": \"ok\"}\n```";
    assert_eq!(extract_json(input), "{\"summary\": \"ok\"}");
}

#[test]
fn test_extract_json_with_fences_no_lang() {
    let input = "```\n{\"summary\": \"ok\"}\n```";
    assert_eq!(extract_json(input), "{\"summary\": \"ok\"}");
}

#[test]
fn extract_json_fence_without_newline_returns_whole() {
    let input = "  ```{\"a\":1}```  ";
    assert_eq!(extract_json(input), "```{\"a\":1}```");
}

#[test]
fn test_parse_review_result_valid_json() {
    let parsed = ReviewResult { memory_updates: Vec::new(), skill_updates: Vec::new(), summary: "All clear".into() };
    let json = "{\"memory_updates\": [], \"skill_updates\": [], \"summary\": \"All clear\"}";
    let result = parse_review_result(json, Some(parsed));
    assert_eq!(result.summary, "All clear");
}

#[test]
fn test_parse_review_result_garbage_falls_back() {
    let result = parse_review_result("This is not JSON at all.", None);
    assert_eq!(result.summary, "This is not JSON at all.");
    assert!(result.memory_updates.is_empty());
    assert!(result.skill_updates.is_empty());
}

#[test]
fn test_format_conversation() {
    let messages = vec![Message::user("Hello"), Message::assistant("Hi there!")];
    let formatted = format_conversation(&messages);
    assert!(formatted.contains("User: Hello"));
    assert!(formatted.contains("Assistant: Hi there!"));
    assert_eq!(formatted, "User: Hello\n\nAssistant: Hi there!\n\n");
}

#[test]
fn test_build_review_prompt_variants() {
    let memory_prompt = build_review_prompt(ReviewTrigger::Memory);
    assert!(memory_prompt.contains("memory updates"));
    assert!(memory_prompt.contains("user corrections"));
    let skill_prompt = build_review_prompt(ReviewTrigger::Skill);
    assert!(skill_prompt.contains("skill updates"));
    assert!(skill_prompt.contains("tool usage patterns"));
}

fn entry(name: &str, is_dir: bool, has_skill_md: bool) -> (String, bool, bool) {
    (name.to_string(), is_dir, has_skill_md)
}

#[test]
fn discover_skills_finds_skill_dirs() {
    let entries = vec![entry("test-runner", true, true), entry("deploy", true, true), entry("not-a-skill", true, false)];
    assert_eq!(skill_names(&entries, true), vec!["deploy", "test-runner"]);
}

#[test]
fn discover_skills_empty_dir() {
    assert!(skill_names(&Vec::new(), true).is_empty());
}

#[test]
fn discover_skills_skips_hidden_dirs() {
    let entries = vec![entry("real-skill", true, true), entry(".backups", true, true)];
    assert_eq!(skill_names(&entries, true), vec!["real-skill"]);
}

#[test]
fn skill_names_ignore_plain_files() {
    let entries = vec![entry("notes", false, false), entry("b", true, true), entry("a", true, true)];
    assert_eq!(skill_names(&entries, false), vec!["a", "b"]);
}

#[test]
fn list_skills_sorted() {
    let entries = vec![entry("beta", true, true), entry("alpha", true, true)];
    assert_eq!(skill_names(&entries, false), vec!["alpha", "beta"]);
}

#[test]
fn new_skill_dir_gets_usage_entry() {
    let curator = Curator::new("/skills", CuratorConfig::default());
    let mut usage: Vec<(String, SkillUsage)> = Vec::new();
    add_missing_entries(&mut usage, &vec!["brand-new".to_string()], NOW);
    let transitions = curator.apply_automatic_transitions(&mut usage, NOW);
    assert!(transitions.is_empty());
    assert_eq!(usage.len(), 1);
    assert_eq!(usage[0].0, "brand-new");
    assert_eq!(usage[0].1.state, SkillState::Active);
    assert_eq!(usage[0].1.created_by, SkillOrigin::Agent);
}

#[test]
fn existing_usage_entries_are_kept() {
    let mut usage = vec![("old".to_string(), usage_entry(SkillState::Stale, true, 5))];
    add_missing_entries(&mut usage, &vec!["old".to_string(), "new".to_string(), "new".to_string()], NOW);
    assert_eq!(usage.len(), 2);
    assert_eq!(usage[0].1, usage_entry(SkillState::Stale, true, 5));
    assert_eq!(usage[1].0, "new");
    assert_eq!(usage[1].1, SkillUsage::new(SkillOrigin::Agent, NOW));
}

fn candidate(a: &str, b: &str, reason: &str) -> MergeCandidate {
    MergeCandidate { skill_a: a.to_string(), skill_b: b.to_string(), similarity: Similarity::Identical, reason: reason.to_string() }
}

fn decision(a: &str, b: &str, merge: bool, reason: &str) -> MergeDecision {
    MergeDecision { a: a.to_string(), b: b.to_string(), merge, reason: reason.to_string() }
}

#[test]
fn model_verdicts_filter_candidates() {
    let report = ConsolidationReport {
        merge_candidates: vec![candidate("x", "y", "names"), candidate("p", "q", "names"), candidate("m", "n", "names")],
        skills_scanned: 6,
    };
    let decisions = vec![
        decision("y", "x", true, "same task"),
        decision("p", "q", false, "different"),
        decision("m", "n", false, "first says no"),
        decision("n", "m", true, "second says yes"),
    ];
    let refined = refine_candidates(report, &decisions);
    assert_eq!(refined.skills_scanned, 6);
    assert_eq!(refined.merge_candidates.len(), 2);
    assert_eq!(refined.merge_candidates[0].skill_a, "x");
    assert_eq!(refined.merge_candidates[0].reason, "same task");
    assert_eq!(refined.merge_candidates[1].skill_a, "m");
    assert_eq!(refined.merge_candidates[1].reason, "first says no");
}

#[test]
fn no_verdicts_drop_every_candidate() {
    let report = ConsolidationReport { merge_candidates: vec![candidate("x", "y", "names")], skills_scanned: 2 };
    assert!(refine_candidates(report, &Vec::new()).is_clean());
}

#[test]
fn consolidation_request_lists_pairs() {
    let report = ConsolidationReport {
        merge_candidates: vec![candidate("deploy", "deploy-k8s", "names")],
        skills_scanned: 2,
    };
    let req = consolidation_request(&report);
    assert_eq!(req.model, "");
    assert_eq!(req.max_tokens, Some(1024));
    assert!(!req.stream);
    assert!(req.tools.is_none());
    assert_eq!(req.messages.len(), 1);
    assert_eq!(
        req.messages[0].content.as_deref(),
        Some(
            "Given these mavis-claw skill names, which pairs should be merged?\nSkills: [\"deploy\", \"deploy-k8s\"]\nReply with JSON array: [{\"a\": \"name1\", \"b\": \"name2\", \"merge\": true/false, \"reason\": \"...\"}]"
        )
    );
}

const PATCH_SAMPLE: &str = "---\ntrigger_words:\n  - deploy\n---\n\n# Deploy\nAutomate deployment.\n";

#[test]
fn patch_empty_is_noop() {
    let patch = SkillPatch { trigger_words: None, description: None, content: None };
    assert_eq!(apply_patch(PATCH_SAMPLE, &patch).unwrap(), PATCH_SAMPLE);
}

#[test]
fn patch_content_keeps_frontmatter() {
    let patch = SkillPatch { trigger_words: None, description: None, content: Some("# New".to_string()) };
    assert_eq!(apply_patch(PATCH_SAMPLE, &patch).unwrap(), "---\ntrigger_words:\n  - deploy\n---\n\n# New\n");
}

#[test]
fn patch_without_frontmatter_fails() {
    let patch = SkillPatch { trigger_words: Some(vec!["x".to_string()]), description: None, content: None };
    let err = apply_patch("no frontmatter", &patch).unwrap_err();
    assert_eq!(err.message(), "Skill error: missing YAML frontmatter opening");
}
