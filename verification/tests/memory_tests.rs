use m_claw::memory::{remove_section_from_text, replace_section, MemoryFile, MemoryStore};
use m_claw::skills::SkillLoader;

fn temp_store() -> MemoryStore {
    MemoryStore::new("/tmp/test-memory")
}

#[test]
fn test_path_for() {
    let store = MemoryStore::new("/tmp/test");
    assert_eq!(store.path_for(MemoryFile::Agent), "/tmp/test/MEMORY.md");
    assert_eq!(store.path_for(MemoryFile::User), "/tmp/test/USER.md");
}

#[test]
fn test_replace_section_multiline_body() {
    let text = "## Config\nkey1: val1\nkey2: val2\n## Other\nstuff\n";
    let result = replace_section(text, "Config", "key1: new\n").unwrap();
    assert_eq!(result, "## Config\nkey1: new\n## Other\nstuff\n");
}

#[test]
fn test_remove_section_from_text() {
    let text = "## A\naaa\n## B\nbbb\n";
    let result = remove_section_from_text(text, "A").unwrap();
    assert_eq!(result, "## B\nbbb\n");
}

#[test]
fn test_filenames() {
    assert_eq!(MemoryFile::Agent.filename(), "MEMORY.md");
    assert_eq!(MemoryFile::User.filename(), "USER.md");
}

#[test]
fn test_equality() {
    assert_eq!(MemoryFile::Agent, MemoryFile::Agent);
    assert_eq!(MemoryFile::User, MemoryFile::User);
    assert_ne!(MemoryFile::Agent, MemoryFile::User);
}

#[test]
fn test_read_nonexistent_returns_empty() {
    let store = temp_store();
    assert_eq!(store.read_agent_memory(), "");
    assert_eq!(store.read_user_memory(), "");
}

#[test]
fn test_append_creates_file_and_reads_back() {
    let mut store = temp_store();
    store.append_agent_memory("hello world");
    assert_eq!(store.read_agent_memory(), "hello world\n");
    store.append_user_memory("user info");
    assert_eq!(store.read_user_memory(), "user info\n");
}

#[test]
fn test_append_multiple_times_accumulates() {
    let mut store = temp_store();
    store.append_agent_memory("line 1");
    store.append_agent_memory("line 2");
    let content = store.read_agent_memory();
    assert!(content.contains("line 1"));
    assert!(content.contains("line 2"));
    assert_eq!(content, "line 1\nline 2\n");
}

#[test]
fn test_write_overwrites() {
    let mut store = temp_store();
    store.append_agent_memory("old content");
    store.write_file(MemoryFile::Agent, "new content\n");
    assert_eq!(store.read_agent_memory(), "new content\n");
}

#[test]
fn test_chinese_content_roundtrip() {
    let mut store = temp_store();
    store.append_agent_memory("用户偏好：中文交流");
    assert!(store.read_agent_memory().contains("用户偏好：中文交流"));
}

#[test]
fn test_update_section_existing() {
    let mut store = temp_store();
    store.write_file(MemoryFile::Agent, "## Intro\nold intro text\n## Notes\nsome notes\n");
    assert!(store.update_section(MemoryFile::Agent, "Intro", "new intro text"));
    let content = store.read_agent_memory();
    assert!(content.contains("## Intro\nnew intro text\n"));
    assert!(content.contains("## Notes\nsome notes\n"));
}

#[test]
fn test_update_section_not_found() {
    let mut store = temp_store();
    store.write_file(MemoryFile::Agent, "## Intro\ntext\n");
    assert!(!store.update_section(MemoryFile::Agent, "Missing", "new"));
    assert_eq!(store.read_agent_memory(), "## Intro\ntext\n");
}

#[test]
fn test_update_section_preserves_surrounding() {
    let mut store = temp_store();
    store.write_file(MemoryFile::Agent, "header line\n## A\naaa\n## B\nbbb\nfooter\n");
    store.update_section(MemoryFile::Agent, "A", "AAA\n");
    let content = store.read_agent_memory();
    assert!(content.starts_with("header line\n"));
    assert!(content.contains("## A\nAAA\n"));
    assert!(content.contains("## B\nbbb\n"));
    assert!(content.contains("footer\n"));
}

#[test]
fn test_remove_section_existing() {
    let mut store = temp_store();
    store.write_file(MemoryFile::Agent, "## Keep\nkeep this\n## Remove\nremove this\n## Also Keep\nkeep\n");
    assert!(store.remove_section(MemoryFile::Agent, "Remove"));
    let content = store.read_agent_memory();
    assert!(content.contains("## Keep\nkeep this\n"));
    assert!(content.contains("## Also Keep\nkeep\n"));
    assert!(!content.contains("Remove this"));
}

#[test]
fn test_remove_section_not_found() {
    let mut store = temp_store();
    store.write_file(MemoryFile::Agent, "## Intro\ntext\n");
    assert!(!store.remove_section(MemoryFile::Agent, "Ghost"));
}

#[test]
fn test_remove_last_section() {
    let mut store = temp_store();
    store.write_file(MemoryFile::Agent, "## First\naaa\n## Last\nbbb\n");
    store.remove_section(MemoryFile::Agent, "Last");
    let content = store.read_agent_memory();
    assert!(content.contains("## First\naaa\n"));
    assert!(!content.contains("bbb"));
}

#[test]
fn write_to_one_file_leaves_the_other() {
    let mut store = MemoryStore::with_contents("/m", "agent text\n", "user text\n");
    store.write_file(MemoryFile::User, "changed\n");
    assert_eq!(store.read_agent_memory(), "agent text\n");
    assert_eq!(store.read_user_memory(), "changed\n");
}

#[test]
fn load_missing_dir() {
    let loader = SkillLoader::new();
    assert!(loader.load("nonexistent").is_none());
}

#[test]
fn summary_empty() {
    let loader = SkillLoader::new();
    assert_eq!(loader.summary(), "");
}
