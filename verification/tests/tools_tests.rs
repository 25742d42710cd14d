use m_claw::config::ToolsConfig;
use m_claw::glob::matches_glob;
use m_claw::json::Json;
use m_claw::memory::MemoryStore;
use m_claw::security::{Resolution, SecurityConfig, WriteResolution};
use m_claw::tools::MemoryTool;

fn security() -> SecurityConfig {
    SecurityConfig::from_tools_config(&ToolsConfig::default(), &vec!["/work".to_string()])
}

fn args(entries: &[(&str, &str)]) -> Json {
    Json::Object(entries.iter().map(|(k, v)| (k.to_string(), Json::Str(v.to_string()))).collect())
}

fn tool() -> MemoryTool {
    MemoryTool::new(MemoryStore::new("/tmp/memory-tool"))
}

#[test]
fn glob_exact() {
    assert!(matches_glob("foo.rs", "foo.rs"));
    assert!(!matches_glob("foo.rs", "bar.rs"));
}

#[test]
fn glob_star() {
    assert!(matches_glob("*.rs", "foo.rs"));
    assert!(!matches_glob("*.rs", "foo.ts"));
    assert!(!matches_glob("*.rs", "dir/foo.rs"));
}

#[test]
fn glob_question() {
    assert!(matches_glob("?.rs", "a.rs"));
    assert!(!matches_glob("?.rs", "ab.rs"));
}

#[test]
fn glob_double_star() {
    assert!(matches_glob("**/*.rs", "foo/bar.rs"));
    assert!(matches_glob("**/*.rs", "bar.rs"));
    assert!(matches_glob("**", "a/b/c"));
}

#[test]
fn glob_double_star_prefix() {
    assert!(matches_glob("src/**", "src/foo/bar.rs"));
    assert!(!matches_glob("src/**", "lib/foo.rs"));
}

#[test]
fn glob_backslashes_count_as_separators() {
    assert!(matches_glob("src\\*.rs", "src/main.rs"));
    assert!(matches_glob("a//b", "a/b"));
}

#[test]
fn block_rm_rf_root() {
    let sec = security();
    assert!(sec.check_command("rm -rf /").is_err());
    assert!(sec.check_command("rm -rf /*").is_err());
    assert!(sec.check_command("sudo rm -rf / --no-preserve-root").is_err());
}

#[test]
fn block_rm_rf_home() {
    assert!(security().check_command("rm -rf ~").is_err());
}

#[test]
fn block_fork_bomb() {
    assert!(security().check_command(":(){ :|:& };:").is_err());
}

#[test]
fn block_format_disk() {
    let sec = security();
    assert!(sec.check_command("format c: /y").is_err());
    assert!(sec.check_command("FORMAT D:").is_err());
}

#[test]
fn block_dd_zero() {
    assert!(security().check_command("dd if=/dev/zero of=/dev/sda").is_err());
}

#[test]
fn block_del_force() {
    assert!(security().check_command("del /f /s /q C:\\*.*").is_err());
}

#[test]
fn block_rmdir_s() {
    assert!(security().check_command("rmdir /s /q C:\\Windows").is_err());
}

#[test]
fn block_format_slash() {
    assert!(security().check_command("format /").is_err());
}

#[test]
fn block_reg_delete() {
    assert!(security().check_command("reg delete HKLM\\SOFTWARE").is_err());
}

#[test]
fn block_diskpart() {
    assert!(security().check_command("diskpart").is_err());
}

#[test]
fn block_vssadmin_delete() {
    assert!(security().check_command("vssadmin delete shadows /all /quiet").is_err());
}

#[test]
fn allow_safe_commands() {
    let sec = security();
    assert!(sec.check_command("ls -la").is_ok());
    assert!(sec.check_command("echo hello").is_ok());
    assert!(sec.check_command("cargo build").is_ok());
    assert!(sec.check_command("git status").is_ok());
    assert!(sec.check_command("cat file.txt").is_ok());
}

#[test]
fn allow_rm_non_root() {
    let sec = security();
    assert!(sec.check_command("rm -rf ./build").is_ok());
    assert!(sec.check_command("rm -rf my_dir").is_ok());
}

#[test]
fn block_case_insensitive_format() {
    let sec = security();
    assert!(sec.check_command("FORMAT C:").is_err());
    assert!(sec.check_command("Format C:").is_err());
}

#[test]
fn block_chained_dangerous() {
    assert!(security().check_command("echo ok; rm -rf /").is_err());
}

#[test]
fn blocked_command_names_the_pattern() {
    let err = security().check_command("diskpart").unwrap_err();
    assert!(err.message().contains("Blocked dangerous command: matches pattern 'diskpart'"));
}

#[test]
fn reject_dotdot_in_raw_input() {
    let err = security().validate_path("../etc/passwd", &resolved("/etc/passwd")).unwrap_err();
    assert!(err.message().contains("traversal"), "unexpected error: {}", err.message());
    assert!(security().check_traversal("../etc/passwd").is_err());
}

#[test]
fn reject_dotdot_in_middle_of_path() {
    let r = security().validate_path("src/../../etc/passwd", &resolved("/etc/passwd"));
    assert!(r.unwrap_err().message().contains("traversal"));
    assert!(security().validate_write_path("a/../b.txt", &WriteResolution::Resolved("/work/b.txt".to_string())).is_err());
}

#[test]
fn deny_path_traversal_toggle() {
    let mut config = ToolsConfig::default();
    config.deny_path_traversal = false;
    let sec = SecurityConfig::from_tools_config(&config, &vec!["/work".to_string()]);
    assert!(sec.check_traversal("../nonexistent.txt").is_ok());
}

#[test]
fn reject_glob_with_dotdot() {
    let result = security().check_glob_pattern("../../*.conf");
    assert!(result.is_err());
    assert!(result.unwrap_err().message().contains("traversal"));
}

#[test]
fn allow_normal_glob() {
    let sec = security();
    assert!(sec.check_glob_pattern("**/*.rs").is_ok());
    assert!(sec.check_glob_pattern("src/**/*.ts").is_ok());
    assert!(sec.check_glob_pattern("*.toml").is_ok());
}

#[test]
fn reject_glob_dotdot_in_middle() {
    assert!(security().check_glob_pattern("src/../../secret/*").is_err());
}

#[test]
fn read_empty_memory() {
    let mut tool = tool();
    let result = tool.execute(&args(&[("operation", "read"), ("file", "agent")])).unwrap();
    assert!(result.contains("empty"));
}

#[test]
fn write_and_read_agent_memory() {
    let mut tool = tool();
    let write_result =
        tool.execute(&args(&[("operation", "write"), ("file", "agent"), ("content", "hello world")])).unwrap();
    assert!(write_result.contains("updated"));
    let read_result = tool.execute(&args(&[("operation", "read"), ("file", "agent")])).unwrap();
    assert_eq!(read_result, "hello world");
}

#[test]
fn append_to_memory() {
    let mut tool = tool();
    tool.execute(&args(&[("operation", "write"), ("file", "user"), ("content", "line 1\n")])).unwrap();
    let append_result =
        tool.execute(&args(&[("operation", "append"), ("file", "user"), ("content", "line 2")])).unwrap();
    assert!(append_result.contains("Appended"));
    let content = tool.execute(&args(&[("operation", "read"), ("file", "user")])).unwrap();
    assert!(content.contains("line 1"));
    assert!(content.contains("line 2"));
}

#[test]
fn update_section_in_memory() {
    let mut tool = tool();
    tool.execute(&args(&[
        ("operation", "write"),
        ("file", "agent"),
        ("content", "## Preferences\nold prefs\n## Notes\nnotes here\n"),
    ]))
    .unwrap();
    let update_result = tool
        .execute(&args(&[
            ("operation", "update_section"),
            ("file", "agent"),
            ("heading", "Preferences"),
            ("content", "new preferences\n"),
        ]))
        .unwrap();
    assert!(update_result.contains("updated"));
    let content = tool.execute(&args(&[("operation", "read"), ("file", "agent")])).unwrap();
    assert!(content.contains("new preferences"));
    assert!(content.contains("## Notes\nnotes here\n"));
}

#[test]
fn update_section_not_found() {
    let mut tool = tool();
    tool.execute(&args(&[("operation", "write"), ("file", "agent"), ("content", "## Intro\nhello\n")])).unwrap();
    let result = tool
        .execute(&args(&[
            ("operation", "update_section"),
            ("file", "agent"),
            ("heading", "Missing"),
            ("content", "new\n"),
        ]))
        .unwrap();
    assert!(result.contains("not found"));
}

#[test]
fn invalid_file_rejected() {
    let result = tool().execute(&args(&[("operation", "read"), ("file", "invalid")]));
    assert!(result.is_err());
    assert!(result.unwrap_err().message().contains("invalid file"));
}

#[test]
fn invalid_operation_rejected() {
    let result = tool().execute(&args(&[("operation", "delete"), ("file", "agent")]));
    assert!(result.is_err());
    assert!(result.unwrap_err().message().contains("unknown memory operation"));
}

#[test]
fn write_requires_content() {
    let result = tool().execute(&args(&[("operation", "write"), ("file", "agent")]));
    assert!(result.is_err());
    assert!(result.unwrap_err().message().contains("content"));
}

#[test]
fn update_section_requires_heading() {
    let result = tool().execute(&args(&[("operation", "update_section"), ("file", "agent"), ("content", "x")]));
    assert!(result.is_err());
    assert!(result.unwrap_err().message().contains("heading"));
}

#[test]
fn write_content_exceeds_max_size() {
    let big = "x".repeat(m_claw::tools::MAX_CONTENT_SIZE + 1);
    let result = tool().execute(&args(&[("operation", "write"), ("file", "agent"), ("content", &big)]));
    assert!(result.is_err());
    assert!(result.unwrap_err().message().contains("exceeds maximum size"));
}

#[test]
fn write_content_at_exact_limit_succeeds() {
    let exact = "x".repeat(m_claw::tools::MAX_CONTENT_SIZE);
    let result = tool().execute(&args(&[("operation", "write"), ("file", "agent"), ("content", &exact)]));
    assert!(result.is_ok());
    assert!(result.unwrap().contains("updated"));
}

fn resolved(canonical: &str) -> Resolution {
    Resolution::Resolved { canonical: canonical.to_string(), right_kind: true }
}

#[test]
fn paths_inside_allowed_dir_are_accepted() {
    let sec = security();
    assert_eq!(sec.validate_path("notes.txt", &resolved("/work/notes.txt")).unwrap(), "/work/notes.txt");
    assert_eq!(sec.validate_path("/work", &resolved("/work")).unwrap(), "/work");
    assert_eq!(sec.validate_dir_path("sub", &resolved("/work/sub/deeper")).unwrap(), "/work/sub/deeper");
}

#[test]
fn paths_outside_allowed_dir_are_refused() {
    let sec = security();
    let err = sec.validate_path("x", &resolved("/workshop/x")).unwrap_err();
    assert_eq!(err.message(), "Tool error: Access denied: 'x' is outside allowed directories");
    assert!(sec.validate_path("/etc/passwd", &resolved("/etc/passwd")).is_err());
    assert!(sec.validate_write_path("/tmp/a", &WriteResolution::Resolved("/tmp/a".to_string())).is_err());
    assert!(sec.validate_write_path("new.txt", &WriteResolution::Resolved("/work/new.txt".to_string())).is_ok());
}

#[test]
fn wrong_kind_is_refused_before_confinement() {
    let sec = security();
    let r = sec.validate_path("d", &Resolution::Resolved { canonical: "/work/d".to_string(), right_kind: false });
    assert_eq!(r.unwrap_err().message(), "Tool error: Path is not a regular file: d");
}

#[test]
fn dangerous_commands_match_in_any_case() {
    let err = security().check_command("RM -RF /").unwrap_err();
    assert!(err.message().starts_with("Tool error: Blocked dangerous command: matches pattern '"));
    assert!(security().check_command("ls -la").is_ok());
}

#[test]
fn memory_tool_messages_capitalize_the_file() {
    let mut tool = MemoryTool::new(MemoryStore::new("/mem"));
    let out = tool.execute(&args(&[("operation", "read"), ("file", "agent")])).unwrap();
    assert_eq!(out, "Agent memory is empty.");
}

#[test]
fn leading_globstar_skips_any_depth() {
    assert!(matches_glob("**/*.rs", "main.rs"));
    assert!(matches_glob("**/*.rs", "src/a/b/lib.rs"));
    assert!(!matches_glob("**/*.rs", "src/a/b/lib.py"));
    assert!(matches_glob("**", ""));
    assert!(matches_glob("**", "x"));
}

#[test]
fn new_file_in_missing_directories_is_allowed() {
    let res = WriteResolution::Creatable {
        ancestor: "/work".to_string(),
        missing: vec!["newdir".to_string(), "out.txt".to_string()],
    };
    assert_eq!(security().validate_write_path("newdir/out.txt", &res).unwrap(), "/work/newdir/out.txt");
    let outside = WriteResolution::Creatable { ancestor: "/tmp".to_string(), missing: vec!["x.txt".to_string()] };
    assert!(security().validate_write_path("/tmp/x.txt", &outside).is_err());
}

#[test]
fn unreachable_parent_is_refused() {
    let r = security().validate_write_path("q/out.txt", &WriteResolution::ParentNotFound("denied".to_string()));
    assert_eq!(r.unwrap_err().message(), "Tool error: Parent directory not found: q/out.txt (denied)");
}

#[test]
fn allowed_dir_itself_is_accepted_in_any_form() {
    let sec = SecurityConfig::from_tools_config(&ToolsConfig::default(), &vec!["C:\\Users\\me:x\\".to_string()]);
    let r = sec.validate_dir_path(".", &Resolution::Resolved { canonical: "C:\\Users\\me:x".to_string(), right_kind: true });
    assert_eq!(r.unwrap(), "C:\\Users\\me:x");
    assert!(sec.validate_dir_path("../../etc", &resolved("/etc")).unwrap_err().message().contains("traversal"));
}
