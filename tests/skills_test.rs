use agent_patterns::feed::{FeedManager, FeedsConfig};
use agent_patterns::install::{install_to_claude_desktop, path_file_name, InstallError};
use agent_patterns::skill::{extract_frontmatter, name_before, sort_by_name, FrontmatterError, Skill};
use agent_patterns::ui::{detect_language, AppState};

#[test]
fn test_feeds_config_default() {
    let config = FeedsConfig::default();
    assert_eq!(config.feeds.len(), 1);
    assert_eq!(config.feeds[0].name, "local");
}

#[test]
fn test_add_remove_feed() {
    let mut config = FeedsConfig::default();
    config.add_feed("test".to_string(), "url".to_string(), "desc".to_string());
    assert_eq!(config.feeds.len(), 2);

    let removed = config.remove_feed("test");
    assert!(removed);
    assert_eq!(config.feeds.len(), 1);
}

#[test]
fn remove_missing_feed_changes_nothing() {
    let mut config = FeedsConfig::default();
    assert!(!config.remove_feed("absent"));
    assert_eq!(config.feeds.len(), 1);
    assert_eq!(config.cache_dir, ".skill-cache");
}

#[test]
fn enabled_and_remote_feeds() {
    let mut config = FeedsConfig::default();
    config.add_feed("official".to_string(), "https://example.com/skills.git".to_string(), "Official".to_string());
    config.add_feed("off".to_string(), "https://example.com/off.git".to_string(), "Disabled".to_string());
    config.feeds[2].enabled = false;
    let enabled: Vec<&str> = config.enabled_feeds().iter().map(|f| f.name.as_str()).collect();
    assert_eq!(enabled, vec!["local", "official"]);
    let remote: Vec<&str> = config.remote_feeds().iter().map(|f| f.name.as_str()).collect();
    assert_eq!(remote, vec!["official"]);
}

#[test]
fn feed_manager_holds_config() {
    let mut manager = FeedManager::new("feeds.json".to_string(), FeedsConfig::default());
    assert_eq!(manager.cache_dir, ".skill-cache");
    manager.config_mut().add_feed("a".to_string(), "u".to_string(), "d".to_string());
    assert_eq!(manager.config().feeds.len(), 2);
}

#[test]
fn test_extract_frontmatter_valid() {
    let content = r#"---
name: test-skill
description: A test skill
version: 1.0
---

# Content
"#;
    let fm = extract_frontmatter(content).unwrap();
    assert_eq!(fm, "name: test-skill\ndescription: A test skill\nversion: 1.0");
    let yaml: serde_yaml::Value = serde_yaml::from_str(&fm).unwrap();
    assert_eq!(yaml["name"].as_str(), Some("test-skill"));
    assert_eq!(yaml["description"].as_str(), Some("A test skill"));
}

#[test]
fn test_extract_frontmatter_without_version() {
    let content = r#"---
name: test-skill
description: A test skill
---

# Content
"#;
    let fm = extract_frontmatter(content).unwrap();
    let yaml: serde_yaml::Value = serde_yaml::from_str(&fm).unwrap();
    assert_eq!(yaml["name"].as_str(), Some("test-skill"));
    assert_eq!(yaml["description"].as_str(), Some("A test skill"));
    assert!(yaml.get("version").is_none());
}

#[test]
fn test_extract_frontmatter_invalid() {
    let content = "# Content without frontmatter";
    assert!(extract_frontmatter(content).is_err());
}

#[test]
fn frontmatter_unclosed_and_empty() {
    assert_eq!(extract_frontmatter("---\nname: x\n"), Err(FrontmatterError::Unclosed));
    assert_eq!(extract_frontmatter(""), Err(FrontmatterError::NoFrontmatter));
    assert_eq!(extract_frontmatter("---\r\na: 1\r\n---\r\n").unwrap(), "a: 1");
}

fn skill(name: &str, description: &str) -> Skill {
    Skill {
        name: name.to_string(),
        description: description.to_string(),
        version: None,
        path: format!("/skills/{}", name),
        source: "local".to_string(),
    }
}

#[test]
fn app_state_selection_and_filter() {
    let mut state = AppState::new(vec![skill("rust-tool", "Builds"), skill("py-helper", "Scripts"), skill("notes", "Text")]);
    assert_eq!(state.status_message, "Ready");
    assert_eq!(state.selected_skill().unwrap().name, "rust-tool");
    state.move_up();
    assert_eq!(state.selected_index, 0);
    state.move_down();
    state.move_down();
    state.move_down();
    assert_eq!(state.selected_index, 2);
    state.filter = Some("Scr".to_string());
    assert_eq!(state.filtered_skills().len(), 1);
    assert!(state.selected_skill().is_none());
    state.selected_index = 0;
    assert_eq!(state.selected_skill().unwrap().name, "py-helper");
    state.scroll_position = 7;
    state.move_down();
    assert_eq!(state.selected_index, 0);
    assert_eq!(state.scroll_position, 7);
}

#[test]
fn languages_detected_and_counted() {
    assert_eq!(detect_language("Rust-Parser"), "Rust");
    assert_eq!(detect_language("python-skill"), "Python");
    assert_eq!(detect_language("my-js-lib"), "TypeScript");
    assert_eq!(detect_language("golang"), "Go");
    assert_eq!(detect_language("dotnet-app"), "C#");
    assert_eq!(detect_language("notes"), "Other");
    let state = AppState::new(vec![skill("rust-a", ""), skill("notes", ""), skill("rust-b", "")]);
    let stats = state.get_language_stats();
    assert_eq!(stats, vec![("Rust".to_string(), 2), ("Other".to_string(), 1)]);
}

#[test]
fn desktop_install_path() {
    assert_eq!(install_to_claude_desktop("/skills/pdf", None).unwrap(), "/skills/pdf/pdf");
    assert_eq!(install_to_claude_desktop("/skills/pdf/", None).unwrap(), "/skills/pdf/pdf");
    assert!(matches!(install_to_claude_desktop("/", None), Err(InstallError::Other(_))));
    assert!(matches!(install_to_claude_desktop("a/..", None), Err(InstallError::Other(_))));
    assert_eq!(path_file_name("a/b/."), Some("b".to_string()));
    assert_eq!(path_file_name("."), None);
}

#[test]
fn skills_sorted_by_name() {
    let skills = vec![skill("skill-two", "2"), skill("skill-one", "1"), skill("Zeta", "z"), skill("skill-one", "again")];
    let sorted = sort_by_name(&skills);
    let names: Vec<&str> = sorted.iter().map(|s| s.name.as_str()).collect();
    assert_eq!(names, vec!["Zeta", "skill-one", "skill-one", "skill-two"]);
    assert!(name_before("ab", "abc"));
    assert!(!name_before("abc", "ab"));
    assert!(!name_before("same", "same"));
}
