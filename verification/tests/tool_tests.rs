use oktofetch::config::{Config, Tool};
use oktofetch::tool::{asset_priority, list_tools, parse_repo, remove_tool};

fn default_config() -> Config {
    Config::with_home(Some(String::from("/home/user")))
}

#[test]
fn test_asset_priority() {
    // Test tar.gz variants (highest priority)
    assert_eq!(asset_priority("myapp.tar.gz"), 0);
    assert_eq!(asset_priority("myapp.tgz"), 0);
    assert_eq!(asset_priority("MYAPP.TAR.GZ"), 0); // Case insensitive
    assert_eq!(asset_priority("MYAPP.TGZ"), 0);

    // Test zip (second priority)
    assert_eq!(asset_priority("myapp.zip"), 1);
    assert_eq!(asset_priority("MYAPP.ZIP"), 1);

    // Test other formats (lowest priority)
    assert_eq!(asset_priority("myapp.7z"), 2);
    assert_eq!(asset_priority("myapp.rar"), 2);
    assert_eq!(asset_priority("myapp.tar"), 2);
    assert_eq!(asset_priority("myapp.exe"), 2);
}

#[test]
fn test_parse_repo_simple_format() {
    assert_eq!(parse_repo("owner/repo").unwrap(), "owner/repo");
    assert_eq!(parse_repo("derailed/k9s").unwrap(), "derailed/k9s");
    assert_eq!(parse_repo("vmware/govmomi").unwrap(), "vmware/govmomi");
}

#[test]
fn test_parse_repo_https_url() {
    assert_eq!(
        parse_repo("https://github.com/owner/repo").unwrap(),
        "owner/repo"
    );
    assert_eq!(
        parse_repo("https://github.com/derailed/k9s").unwrap(),
        "derailed/k9s"
    );
    assert_eq!(
        parse_repo("https://github.com/vmware/govmomi/issues").unwrap(),
        "vmware/govmomi"
    );
}

#[test]
fn test_parse_repo_http_url() {
    assert_eq!(
        parse_repo("http://github.com/owner/repo").unwrap(),
        "owner/repo"
    );
}

#[test]
fn test_parse_repo_invalid_format() {
    assert!(parse_repo("invalid").is_err());
    assert!(parse_repo("owner/repo/extra/parts").is_err());
    assert!(parse_repo("").is_err());
}

#[test]
fn test_parse_repo_non_github_url() {
    let result = parse_repo("https://gitlab.com/owner/repo");
    // Should fail because it's not github.com
    assert!(result.is_err());
}

#[test]
fn test_parse_repo_error_message() {
    let result = parse_repo("invalid");
    assert!(result.is_err());
    let err_msg = result.unwrap_err().message();
    assert!(err_msg.contains("Invalid repository format"));
    assert!(err_msg.contains("owner/repo"));
}

#[test]
fn test_tool_name_derivation_simple() {
    // Test that we correctly parse repo and derive tool name
    assert_eq!(parse_repo("owner/repo").unwrap(), "owner/repo");

    // Test URL parsing
    assert_eq!(
        parse_repo("https://github.com/owner/myrepo").unwrap(),
        "owner/myrepo"
    );
}

#[test]
fn test_remove_tool_not_found() {
    let mut config = default_config();
    let result = remove_tool(&mut config, "nonexistent");
    assert!(result.is_err());
}

#[test]
fn test_remove_tool_logic() {
    // Test the underlying logic without saving
    let mut config = default_config();
    let tool = Tool {
        name: "tool1".to_string(),
        repo: "owner/repo1".to_string(),
        binary_name: None,
        asset_pattern: None,
        version: None,
    };
    config.add_tool(tool).unwrap();

    // Test the remove logic directly on config
    let result = config.remove_tool("tool1");
    assert!(result.is_ok());
    assert!(config.get_tool("tool1").is_none());
}

#[test]
fn test_list_tools_empty() {
    let config = default_config();
    let result = list_tools(&config);
    assert!(result.is_ok());
}

#[test]
fn test_list_tools_with_entries() {
    let mut config = default_config();
    let tool = Tool {
        name: "tool1".to_string(),
        repo: "owner/repo1".to_string(),
        binary_name: Some("bin1".to_string()),
        asset_pattern: None,
        version: Some("v1.0.0".to_string()),
    };
    config.add_tool(tool).unwrap();

    let result = list_tools(&config);
    assert!(result.is_ok());
}

#[test]
fn test_list_tools_multiple_entries() {
    let mut config = default_config();
    for i in 1..=3 {
        let tool = Tool {
            name: format!("tool{}", i),
            repo: format!("owner/repo{}", i),
            binary_name: None,
            asset_pattern: None,
            version: None,
        };
        config.add_tool(tool).unwrap();
    }

    let result = list_tools(&config);
    assert!(result.is_ok());
    assert_eq!(config.tools.len(), 3);
}

#[test]
fn test_asset_priority_sorting() {
    // Verify that tar.gz gets lowest value (highest priority)
    assert!(asset_priority("app.tar.gz") < asset_priority("app.zip"));
    assert!(asset_priority("app.zip") < asset_priority("app.7z"));

    // Verify tgz also gets highest priority
    assert_eq!(asset_priority("app.tgz"), asset_priority("app.tar.gz"));
}

#[test]
fn test_add_tool_basic() {
    let mut config = default_config();

    // Test adding a tool
    let result = config.add_tool(Tool {
        name: "testtool".to_string(),
        repo: "owner/repo".to_string(),
        binary_name: None,
        asset_pattern: None,
        version: None,
    });

    assert!(result.is_ok());
    assert_eq!(config.tools.len(), 1);
    assert_eq!(config.tools[0].name, "testtool");
}

#[test]
fn test_parse_repo_edge_cases() {
    // Test with trailing slash
    assert_eq!(
        parse_repo("https://github.com/owner/repo/").unwrap(),
        "owner/repo"
    );

    // Test with .git suffix - this is valid (owner/repo.git is still owner/repo.git)
    assert_eq!(parse_repo("owner/repo.git").unwrap(), "owner/repo.git");

    // Test empty string
    assert!(parse_repo("").is_err());

    // Test malformed inputs
    assert!(parse_repo("onlyonepart").is_err());
    assert!(parse_repo("too/many/parts/here").is_err());

    // Test with special characters that should work
    assert_eq!(parse_repo("my-org/my-repo").unwrap(), "my-org/my-repo");
    assert_eq!(
        parse_repo("org_name/repo_name").unwrap(),
        "org_name/repo_name"
    );
}

#[test]
fn test_list_tools_formatting() {
    let mut config = default_config();

    // Add tools with various configurations
    config
        .add_tool(Tool {
            name: "tool_with_version".to_string(),
            repo: "owner/repo1".to_string(),
            binary_name: Some("custom_bin".to_string()),
            asset_pattern: None,
            version: Some("v1.0.0".to_string()),
        })
        .unwrap();

    config
        .add_tool(Tool {
            name: "tool_without_version".to_string(),
            repo: "owner/repo2".to_string(),
            binary_name: None,
            asset_pattern: None,
            version: None,
        })
        .unwrap();

    let result = list_tools(&config);
    assert!(result.is_ok());
}

#[test]
fn test_remove_tool_updates_config() {
    let mut config = default_config();

    // Add multiple tools
    for i in 1..=3 {
        config
            .add_tool(Tool {
                name: format!("tool{}", i),
                repo: format!("owner/repo{}", i),
                binary_name: None,
                asset_pattern: None,
                version: None,
            })
            .unwrap();
    }

    assert_eq!(config.tools.len(), 3);

    // Remove middle tool
    config.remove_tool("tool2").unwrap();
    assert_eq!(config.tools.len(), 2);
    assert!(config.get_tool("tool1").is_some());
    assert!(config.get_tool("tool2").is_none());
    assert!(config.get_tool("tool3").is_some());
}

#[test]
fn test_parse_repo_url_variations() {
    // Test various URL formats
    let test_cases = vec![
        ("https://github.com/owner/repo", "owner/repo"),
        ("http://github.com/owner/repo", "owner/repo"),
        ("https://github.com/owner/repo/releases", "owner/repo"),
        ("https://github.com/owner/repo/tree/main", "owner/repo"),
    ];

    for (input, expected) in test_cases {
        assert_eq!(
            parse_repo(input).unwrap(),
            expected,
            "Failed for input: {}",
            input
        );
    }
}
