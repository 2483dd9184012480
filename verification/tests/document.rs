use tkit::Config;
use tkit::ToolConfig;

fn tool(name: &str) -> ToolConfig {
    ToolConfig {
        name: name.to_string(),
        description: Some("Test tool".to_string()),
        install_commands: vec!["install cmd".to_string()],
        remove_commands: vec!["remove cmd".to_string()],
        update_commands: vec!["update cmd".to_string()],
        run_commands: vec!["run cmd".to_string()],
        installed: true,
    }
}

#[test]
fn test_save_and_load() {
    let mut config = Config::new();
    let tool_config = ToolConfig {
        name: "test".to_string(),
        description: Some("Test tool".to_string()),
        install_commands: vec!["install cmd".to_string()],
        remove_commands: vec!["remove cmd".to_string()],
        update_commands: vec!["update cmd".to_string()],
        run_commands: vec!["run cmd".to_string()],
        installed: true,
    };

    config.add_tool("test", tool_config).unwrap();
    let document = config.to_document();

    let loaded_config = Config::from_document(&document).unwrap();
    assert_eq!(loaded_config.tools.len(), 1);
    assert!(loaded_config.get_tool("test").is_some());

    let loaded = loaded_config.get_tool("test").unwrap();
    assert_eq!(loaded.name, "test");
    assert_eq!(loaded.description, Some("Test tool".to_string()));
    assert_eq!(loaded.install_commands, vec!["install cmd"]);
    assert!(loaded.installed);
}

#[test]
fn test_load_empty_config() {
    let config = Config::from_document("tools:\nsync:\n  auto_sync: false\n").unwrap();
    assert!(config.tools.is_empty());
}

#[test]
fn empty_registry_document_is_exact() {
    let config = Config::new();
    assert_eq!(config.to_document(), "tools:\nsync:\n  auto_sync: false\n");
}

#[test]
fn one_tool_document_is_exact() {
    let mut config = Config::new();
    let t = ToolConfig {
        name: "git".to_string(),
        description: None,
        install_commands: vec!["apt install git".to_string()],
        remove_commands: vec![],
        update_commands: vec![],
        run_commands: vec![],
        installed: false,
    };
    config.add_tool("git", t).unwrap();
    config.sync.repo = Some("user/repo".to_string());
    config.sync.auto_sync = true;
    let expected = "tools:\n  \"git\":\n    name: \"git\"\n    install_commands:\n      - \"apt install git\"\n    remove_commands:\n    update_commands:\n    run_commands:\n    installed: false\nsync:\n  repo: \"user/repo\"\n  auto_sync: true\n";
    assert_eq!(config.to_document(), expected);
}

#[test]
fn round_trip_keeps_every_field() {
    let mut config = Config::new();
    let mut a = tool("alpha");
    a.description = None;
    a.run_commands = vec![];
    a.installed = false;
    let b = tool("beta");
    config.add_tool("alpha", a).unwrap();
    config.add_tool("beta", b).unwrap();
    config.sync.repo = Some("someone/config".to_string());
    config.sync.token = Some("SECRET-REDACTED".to_string());
    config.sync.last_sync = Some("2024-05-06T07:08:09Z".to_string());
    config.sync.auto_sync = true;

    let loaded = Config::from_document(&config.to_document()).unwrap();
    assert_eq!(loaded.tools.len(), 2);
    let la = loaded.get_tool("alpha").unwrap();
    assert_eq!(la.description, None);
    assert_eq!(la.run_commands, Vec::<String>::new());
    assert!(!la.installed);
    let lb = loaded.get_tool("beta").unwrap();
    assert_eq!(lb.description, Some("Test tool".to_string()));
    assert_eq!(lb.run_commands, vec!["run cmd"]);
    assert!(lb.installed);
    assert_eq!(loaded.sync.repo, Some("someone/config".to_string()));
    assert_eq!(loaded.sync.token, Some("SECRET-REDACTED".to_string()));
    assert_eq!(loaded.sync.last_sync, Some("2024-05-06T07:08:09Z".to_string()));
    assert!(loaded.sync.auto_sync);
}

#[test]
fn round_trip_survives_special_characters() {
    let mut config = Config::new();
    let t = ToolConfig {
        name: "we\"ird\\tool\nname".to_string(),
        description: Some("line one\nline two \\ \"quoted\"".to_string()),
        install_commands: vec!["echo \"hi\"".to_string(), "printf 'a\\nb'".to_string()],
        remove_commands: vec!["".to_string()],
        update_commands: vec![],
        run_commands: vec!["run: with colon\n".to_string()],
        installed: true,
    };
    config.add_tool("we\"ird\\tool\nname", t).unwrap();

    let loaded = Config::from_document(&config.to_document()).unwrap();
    let lt = loaded.get_tool("we\"ird\\tool\nname").unwrap();
    assert_eq!(lt.name, "we\"ird\\tool\nname");
    assert_eq!(
        lt.description,
        Some("line one\nline two \\ \"quoted\"".to_string())
    );
    assert_eq!(
        lt.install_commands,
        vec!["echo \"hi\"".to_string(), "printf 'a\\nb'".to_string()]
    );
    assert_eq!(lt.remove_commands, vec!["".to_string()]);
    assert_eq!(lt.update_commands, Vec::<String>::new());
    assert_eq!(lt.run_commands, vec!["run: with colon\n".to_string()]);
}

#[test]
fn older_documents_default_missing_fields() {
    let document = "tools:\n  \"git\":\n    name: \"git\"\n    install_commands:\n      - \"apt install git\"\n    remove_commands:\n    update_commands:\nsync:\n  auto_sync: true\n";
    let config = Config::from_document(document).unwrap();
    let t = config.get_tool("git").unwrap();
    assert_eq!(t.description, None);
    assert_eq!(t.run_commands, Vec::<String>::new());
    assert!(!t.installed);
    assert!(config.sync.auto_sync);
}

#[test]
fn empty_key_and_empty_strings_round_trip() {
    let mut config = Config::new();
    let t = ToolConfig {
        name: "".to_string(),
        description: Some("".to_string()),
        install_commands: vec![],
        remove_commands: vec![],
        update_commands: vec![],
        run_commands: vec![],
        installed: false,
    };
    config.add_tool("", t).unwrap();
    let loaded = Config::from_document(&config.to_document()).unwrap();
    let lt = loaded.get_tool("").unwrap();
    assert_eq!(lt.name, "");
    assert_eq!(lt.description, Some("".to_string()));
}

#[test]
fn malformed_documents_are_rejected() {
    assert!(Config::from_document("").is_none());
    assert!(Config::from_document("nonsense").is_none());
    assert!(Config::from_document("tools:\n").is_none());
    // trailing garbage after the sync section
    assert!(Config::from_document("tools:\nsync:\n  auto_sync: false\nextra\n").is_none());
    // unterminated quoted scalar
    assert!(Config::from_document("tools:\n  \"git:\nsync:\n  auto_sync: false\n").is_none());
    // a flag that is neither true nor false
    assert!(Config::from_document("tools:\nsync:\n  auto_sync: maybe\n").is_none());
}

#[test]
fn duplicate_keys_are_rejected() {
    let document = "tools:\n  \"git\":\n    name: \"git\"\n    install_commands:\n    remove_commands:\n    update_commands:\n  \"git\":\n    name: \"git\"\n    install_commands:\n    remove_commands:\n    update_commands:\nsync:\n  auto_sync: false\n";
    assert!(Config::from_document(document).is_none());
}
