use tkit::Config;
use tkit::RegistryError;
use tkit::ToolConfig;
use tkit::lifecycle::ToolAction;
use tkit::lifecycle::plan_install;
use tkit::lifecycle::plan_removal;
use tkit::lifecycle::plan_run;
use tkit::lifecycle::plan_update;

fn sample_tool(installed: bool) -> ToolConfig {
    ToolConfig {
        name: "test".to_string(),
        description: Some("Test tool".to_string()),
        install_commands: vec!["echo install".to_string()],
        remove_commands: vec!["echo remove".to_string()],
        update_commands: vec!["echo update".to_string()],
        run_commands: vec!["echo run".to_string()],
        installed,
    }
}

#[test]
fn test_config_new() {
    let config = Config::new();
    assert!(config.tools.is_empty());
    assert!(config.sync.repo.is_none());
}

#[test]
fn test_add_tool() {
    let mut config = Config::new();
    let tool_config = ToolConfig {
        name: "test".to_string(),
        description: Some("Test tool".to_string()),
        install_commands: vec!["echo install".to_string()],
        remove_commands: vec!["echo remove".to_string()],
        update_commands: vec!["echo update".to_string()],
        run_commands: vec!["echo run".to_string()],
        installed: false,
    };

    assert!(config.add_tool("test", tool_config).is_ok());
    assert!(config.get_tool("test").is_some());
}

#[test]
fn test_add_duplicate_tool() {
    let mut config = Config::new();
    let tool_config = ToolConfig {
        name: "test".to_string(),
        description: Some("Test tool".to_string()),
        install_commands: vec![],
        remove_commands: vec![],
        update_commands: vec![],
        run_commands: vec![],
        installed: false,
    };

    config.add_tool("test", tool_config.clone()).unwrap();
    assert!(config.add_tool("test", tool_config).is_err());
}

#[test]
fn test_remove_tool() {
    let mut config = Config::new();
    let tool_config = ToolConfig {
        name: "test".to_string(),
        description: Some("Test tool".to_string()),
        install_commands: vec![],
        remove_commands: vec![],
        update_commands: vec![],
        run_commands: vec![],
        installed: false,
    };

    config.add_tool("test", tool_config).unwrap();
    assert!(config.remove_tool("test"));
    assert!(config.get_tool("test").is_none());
}

#[test]
fn test_remove_nonexistent_tool() {
    let mut config = Config::new();
    assert!(!config.remove_tool("nonexistent"));
}

#[test]
fn duplicate_name_error_variant() {
    let mut config = Config::new();
    config.add_tool("dup", sample_tool(false)).unwrap();
    assert_eq!(
        config.add_tool("dup", sample_tool(false)),
        Err(RegistryError::DuplicateName)
    );
}

#[test]
fn get_tool_returns_stored_values() {
    let mut config = Config::new();
    config.add_tool("test", sample_tool(true)).unwrap();
    let tool = config.get_tool("test").unwrap();
    assert_eq!(tool.name, "test");
    assert_eq!(tool.description, Some("Test tool".to_string()));
    assert_eq!(tool.install_commands, vec!["echo install".to_string()]);
    assert!(tool.installed);
}

#[test]
fn list_tools_keeps_insertion_order() {
    let mut config = Config::new();
    let mut a = sample_tool(false);
    a.name = "a".to_string();
    let mut b = sample_tool(false);
    b.name = "b".to_string();
    config.add_tool("a", a).unwrap();
    config.add_tool("b", b).unwrap();
    let listed = config.list_tools();
    assert_eq!(listed.len(), 2);
    assert_eq!(listed[0].0, "a");
    assert_eq!(listed[1].0, "b");
}

#[test]
fn set_installed_flips_only_the_flag() {
    let mut config = Config::new();
    config.add_tool("test", sample_tool(false)).unwrap();
    assert!(config.set_installed("test", true));
    assert!(config.get_tool("test").unwrap().installed);
    assert_eq!(config.get_tool("test").unwrap().name, "test");
    assert!(!config.set_installed("absent", true));
}

#[test]
fn plan_install_cases() {
    let mut config = Config::new();
    assert!(matches!(plan_install(&config, "test"), ToolAction::Missing));
    config.add_tool("test", sample_tool(false)).unwrap();
    match plan_install(&config, "test") {
        ToolAction::Execute(cmds) => assert_eq!(cmds, vec!["echo install".to_string()]),
        _ => panic!("expected the install commands"),
    }
    config.set_installed("test", true);
    assert!(matches!(plan_install(&config, "test"), ToolAction::Skip));
}

#[test]
fn plan_removal_cases() {
    let mut config = Config::new();
    assert!(matches!(plan_removal(&config, "test"), ToolAction::Missing));
    config.add_tool("test", sample_tool(false)).unwrap();
    assert!(matches!(plan_removal(&config, "test"), ToolAction::Skip));
    config.set_installed("test", true);
    match plan_removal(&config, "test") {
        ToolAction::Execute(cmds) => assert_eq!(cmds, vec!["echo remove".to_string()]),
        _ => panic!("expected the remove commands"),
    }
}

#[test]
fn plan_update_cases() {
    let mut config = Config::new();
    assert!(matches!(plan_update(&config, "test"), ToolAction::Missing));
    config.add_tool("test", sample_tool(true)).unwrap();
    match plan_update(&config, "test") {
        ToolAction::Execute(cmds) => assert_eq!(cmds, vec!["echo update".to_string()]),
        _ => panic!("expected the update commands"),
    }
    config.set_installed("test", false);
    assert!(matches!(plan_update(&config, "test"), ToolAction::Skip));
}

#[test]
fn plan_run_cases() {
    let mut config = Config::new();
    assert!(matches!(plan_run(&config, "test"), ToolAction::Missing));
    config.add_tool("test", sample_tool(false)).unwrap();
    match plan_run(&config, "test") {
        ToolAction::Execute(cmds) => assert_eq!(cmds, vec!["echo run".to_string()]),
        _ => panic!("expected the run commands"),
    }
    let mut silent = sample_tool(false);
    silent.name = "quiet".to_string();
    silent.run_commands = vec![];
    config.add_tool("quiet", silent).unwrap();
    assert!(matches!(plan_run(&config, "quiet"), ToolAction::Skip));
}

#[test]
fn should_auto_sync_requires_all_three() {
    let mut config = Config::new();
    assert!(!config.should_auto_sync());
    config.sync.repo = Some("user/repo".to_string());
    config.sync.token = Some("secret".to_string());
    config.sync.auto_sync = true;
    assert!(config.should_auto_sync());
    config.sync.repo = None;
    assert!(!config.should_auto_sync());
    config.sync.repo = Some("user/repo".to_string());
    config.sync.token = None;
    assert!(!config.should_auto_sync());
    config.sync.token = Some("secret".to_string());
    config.sync.auto_sync = false;
    assert!(!config.should_auto_sync());
}
