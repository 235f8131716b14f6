use contrack::config::{Config, Organization, RepositoryConfig};

#[test]
fn test_config_new() {
    let config = Config::new();
    assert!(config.organizations.is_empty());
    assert!(config.repositories.is_empty());
}

#[test]
fn config_insert_replaces_in_place() {
    let mut config = Config::new();
    let first = config.organizations.insert(
        "org1".to_string(),
        Organization { name: "Organization 1".to_string(), description: Some("Test org".to_string()) },
    );
    assert!(first.is_none());
    config.repositories.insert(
        "https://github.com/org1/repo1".to_string(),
        RepositoryConfig {
            organization: "org1".to_string(),
            name: "repo1".to_string(),
            description: Some("Test repo".to_string()),
        },
    );
    let replaced = config.organizations.insert(
        "org1".to_string(),
        Organization { name: "Renamed".to_string(), description: None },
    );
    assert_eq!(replaced.unwrap().name, "Organization 1");
    assert_eq!(config.organizations.len(), 1);
    assert_eq!(config.repositories.len(), 1);
    assert_eq!(config.organizations.get("org1").unwrap().name, "Renamed");
    assert_eq!(config.repositories.get("https://github.com/org1/repo1").unwrap().name, "repo1");
    assert!(config.organizations.get("org2").is_none());
    assert!(config.organizations.contains_key("org1"));
    assert!(!config.organizations.contains_key("Org1"));
    assert_eq!(config.organizations.key_at(0).unwrap(), "org1");
    assert_eq!(config.organizations.value_at(0).unwrap().name, "Renamed");
    assert!(config.organizations.value_at(1).is_none());
    assert!(Config::default().repositories.is_empty());
}
