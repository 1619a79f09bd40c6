use aidev_core::errors::{ConfigError, EnvError, WorkflowError};
use aidev_core::scanner::{DetectedTool, SystemScanner};
use aidev_core::store::DatabaseMigrations;
use aidev_core::strmap::StringMap;

fn tool(name: &str) -> DetectedTool {
    DetectedTool {
        name: name.to_string(),
        tool_type: "language".to_string(),
        version: "1.0".to_string(),
        path: format!("/usr/bin/{}", name),
        size: 0,
        status: "installed".to_string(),
    }
}

#[test]
fn test_detect_conflicts_flags_duplicates() {
    let scanner = SystemScanner::new();

    // One of each: no conflicts
    let tools = vec![tool("Python"), tool("Node.js"), tool("Git")];
    assert!(scanner.detect_conflicts(&tools).is_empty());

    // Two Pythons: one conflict, about Python
    let tools = vec![tool("Python"), tool("Python"), tool("Node.js")];
    let conflicts = scanner.detect_conflicts(&tools);
    assert_eq!(conflicts.len(), 1);
    assert_eq!(conflicts[0].tool_name, "Python");
    assert_eq!(conflicts[0].conflict_type, "version");
    assert_eq!(conflicts[0].description, "Multiple Python versions detected");

    // Two of each: two conflicts
    let tools = vec![tool("Python"), tool("Python"), tool("Node.js"), tool("Node.js")];
    let conflicts = scanner.detect_conflicts(&tools);
    assert_eq!(conflicts.len(), 2);
    assert_eq!(conflicts[1].tool_name, "Node.js");

    // Containment counts: differently suffixed installations conflict
    let tools = vec![tool("Python 3.11"), tool("Python 3.12")];
    let conflicts = scanner.detect_conflicts(&tools);
    assert_eq!(conflicts.len(), 1);
    assert_eq!(conflicts[0].tool_name, "Python");
}

#[test]
fn test_generate_suggestions() {
    let scanner = SystemScanner::new();

    // Nothing installed, no conflicts: install both
    let suggestions = scanner.generate_suggestions(&[], &[]);
    assert_eq!(
        suggestions,
        vec![
            "Install Git for version control".to_string(),
            "Install Docker for containerization".to_string(),
        ]
    );

    // Both present, but conflicts exist
    let tools = vec![tool("Git"), tool("Docker"), tool("Python"), tool("Python")];
    let conflicts = scanner.detect_conflicts(&tools);
    let suggestions = scanner.generate_suggestions(&tools, &conflicts);
    assert_eq!(
        suggestions,
        vec!["Resolve version conflicts for better stability".to_string()]
    );
}

#[test]
fn test_analyze_repository() {
    let scanner = SystemScanner::new();
    let analysis = scanner
        .analyze_repository(&"https://example.com/repo.git".to_string())
        .unwrap();
    assert_eq!(analysis.url, "https://example.com/repo.git");
    assert_eq!(
        analysis.detected_languages,
        vec!["JavaScript".to_string(), "TypeScript".to_string()]
    );
    assert_eq!(analysis.frameworks, vec!["React".to_string(), "Node.js".to_string()]);
    assert_eq!(analysis.databases, vec!["PostgreSQL".to_string()]);
    assert_eq!(analysis.services, vec!["Redis".to_string()]);
    assert_eq!(analysis.tools_needed.len(), 2);
    assert_eq!(analysis.tools_needed[0].name, "Node.js");
    assert_eq!(analysis.tools_needed[1].name, "PostgreSQL");
    assert_eq!(analysis.tools_needed[1].alternatives, vec!["MySQL".to_string()]);
    assert_eq!(analysis.estimated_setup_time, 15);
    assert_eq!(analysis.complexity_score, 6);
    assert_eq!(analysis.suggested_workspace_type, "web-dev");
}

#[test]
fn test_database_path_from_url() {
    let path =
        DatabaseMigrations::database_path_from_url(&"sqlite://data/app.db".to_string()).unwrap();
    assert_eq!(path, "data/app.db");

    // The whole prefix must be present
    assert!(DatabaseMigrations::database_path_from_url(&"postgres://host/db".to_string())
        .is_err());
    assert!(DatabaseMigrations::database_path_from_url(&"sqlite:".to_string()).is_err());

    // An empty path is still a well-formed URL
    let empty = DatabaseMigrations::database_path_from_url(&"sqlite://".to_string()).unwrap();
    assert_eq!(empty, "");
}

#[test]
fn test_string_map_last_write_wins() {
    let mut map = StringMap::new();
    assert!(map.is_empty());
    map.insert("key".to_string(), "one".to_string());
    map.insert("key".to_string(), "two".to_string());
    assert_eq!(map.len(), 1);
    assert_eq!(map.get(&"key".to_string()), Some(&"two".to_string()));
    assert!(map.contains_key(&"key".to_string()));

    map.remove(&"key".to_string());
    assert!(map.get(&"key".to_string()).is_none());
    assert_eq!(map.len(), 0);

    // Removing an absent key is a no-op
    map.remove(&"key".to_string());
    assert_eq!(map.len(), 0);
}

#[test]
fn test_fresh_ids_have_canonical_length() {
    // Generated identifiers print in the canonical hyphenated form
    let t = aidev_core::workflow::WorkflowTrigger::new(
        aidev_core::workflow::WorkflowTriggerType::Manual,
    );
    assert_eq!(t.id.chars().count(), 36);
    let e = aidev_core::execution::WorkflowExecution::new("wf".to_string(), None);
    assert_eq!(e.id.chars().count(), 36);
    assert_ne!(t.id, e.id);
}

#[test]
fn test_error_messages_are_carried() {
    let e = WorkflowError::ValidationFailed("bad workflow".to_string());
    assert_eq!(e.message(), "bad workflow");
    let e = EnvError::InvalidConfig("bad config".to_string());
    assert_eq!(e.message(), "bad config");
    let e = ConfigError::DatabaseInit("bad url".to_string());
    assert_eq!(e.message(), "bad url");
}
