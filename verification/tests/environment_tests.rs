use aidev_core::environment::{
    AISettings, DependencySpec, DependencyType, Environment, EnvironmentConfig,
    EnvironmentStatus, ProjectType, ValidationResult,
};

#[test]
fn test_ai_settings_default() {
    let settings = AISettings::default();
    assert!(settings.enabled);
    assert_eq!(settings.preferred_model, None);
    assert_eq!(settings.analysis_frequency, Some("on_save".to_string()));
    assert!(settings.auto_suggestions);
}

#[test]
fn test_dependency_spec_creation() {
    let dep = DependencySpec {
        name: "react".to_string(),
        version: Some("18.0.0".to_string()),
        dependency_type: DependencyType::Runtime,
        install_command: Some("npm install react@18.0.0".to_string()),
        required: true,
    };

    assert_eq!(dep.name, "react");
    assert_eq!(dep.version, Some("18.0.0".to_string()));
    assert_eq!(dep.dependency_type, DependencyType::Runtime);
    assert!(dep.required);
}

#[test]
fn test_environment_config_validation() {
    let config = EnvironmentConfig::new(
        "test-env".to_string(),
        "/tmp/test-env".to_string(),
        ProjectType::NodeJS,
    );

    assert!(config.validate().is_ok());

    // Test empty name
    let mut invalid_config = config.clone();
    invalid_config.name = "".to_string();
    assert!(invalid_config.validate().is_err());

    // Test whitespace-only name
    let mut whitespace_name = config.clone();
    whitespace_name.name = "   ".to_string();
    assert!(whitespace_name.validate().is_err());

    // Test empty dependency name
    let mut invalid_dep = config.clone();
    invalid_dep.dependencies.push(DependencySpec {
        name: "".to_string(),
        version: None,
        dependency_type: DependencyType::Runtime,
        install_command: None,
        required: false,
    });
    assert!(invalid_dep.validate().is_err());

    // Test empty script name
    let mut invalid_script = config.clone();
    invalid_script.add_script("".to_string(), "echo test".to_string());
    assert!(invalid_script.validate().is_err());
}

#[test]
fn test_environment_config_dependency_management() {
    let mut config = EnvironmentConfig::new(
        "test-env".to_string(),
        "/tmp/test-env".to_string(),
        ProjectType::NodeJS,
    );

    let dep1 = DependencySpec {
        name: "react".to_string(),
        version: Some("18.0.0".to_string()),
        dependency_type: DependencyType::Runtime,
        install_command: Some("npm install react".to_string()),
        required: true,
    };

    let dep2 = DependencySpec {
        name: "typescript".to_string(),
        version: Some("5.0.0".to_string()),
        dependency_type: DependencyType::Development,
        install_command: Some("npm install -D typescript".to_string()),
        required: false,
    };

    // Add dependencies
    config.add_dependency(dep1.clone());
    config.add_dependency(dep2.clone());
    assert_eq!(config.dependencies.len(), 2);

    // Test replacing existing dependency
    let updated_react = DependencySpec {
        name: "react".to_string(),
        version: Some("18.2.0".to_string()),
        dependency_type: DependencyType::Runtime,
        install_command: Some("npm install react@18.2.0".to_string()),
        required: true,
    };
    config.add_dependency(updated_react);
    assert_eq!(config.dependencies.len(), 2); // Should still be 2

    let react_dep = config.dependencies.iter().find(|d| d.name == "react").unwrap();
    assert_eq!(react_dep.version, Some("18.2.0".to_string()));

    // Remove dependency
    config.remove_dependency(&"react".to_string());
    assert_eq!(config.dependencies.len(), 1);
    assert!(config.dependencies.iter().all(|d| d.name != "react"));

    // Remove non-existent dependency
    config.remove_dependency(&"non-existent".to_string());
    assert_eq!(config.dependencies.len(), 1);
}

#[test]
fn test_environment_config_script_management() {
    let mut config = EnvironmentConfig::new(
        "test-env".to_string(),
        "/tmp/test-env".to_string(),
        ProjectType::NodeJS,
    );

    // Add scripts
    config.add_script("build".to_string(), "npm run build".to_string());
    config.add_script("test".to_string(), "npm test".to_string());
    assert_eq!(config.scripts.len(), 2);

    // Update existing script
    config.add_script("build".to_string(), "npm run build:prod".to_string());
    assert_eq!(config.scripts.len(), 2);
    assert_eq!(
        config.scripts.get(&"build".to_string()),
        Some(&"npm run build:prod".to_string())
    );

    // Remove script
    config.remove_script(&"test".to_string());
    assert_eq!(config.scripts.len(), 1);
    assert!(!config.scripts.contains_key(&"test".to_string()));

    // Remove non-existent script
    config.remove_script(&"non-existent".to_string());
    assert_eq!(config.scripts.len(), 1);
}

#[test]
fn test_environment_config_environment_variables() {
    let mut config = EnvironmentConfig::new(
        "test-env".to_string(),
        "/tmp/test-env".to_string(),
        ProjectType::NodeJS,
    );

    // Add environment variables
    config.set_environment_variable("NODE_ENV".to_string(), "development".to_string());
    config.set_environment_variable("PORT".to_string(), "3000".to_string());
    assert_eq!(config.environment_variables.len(), 2);

    // Update existing variable
    config.set_environment_variable("NODE_ENV".to_string(), "production".to_string());
    assert_eq!(config.environment_variables.len(), 2);
    assert_eq!(
        config.environment_variables.get(&"NODE_ENV".to_string()),
        Some(&"production".to_string())
    );

    // Remove variable
    config.remove_environment_variable(&"PORT".to_string());
    assert_eq!(config.environment_variables.len(), 1);
    assert!(!config.environment_variables.contains_key(&"PORT".to_string()));

    // Remove non-existent variable
    config.remove_environment_variable(&"NON_EXISTENT".to_string());
    assert_eq!(config.environment_variables.len(), 1);
}

#[test]
fn test_environment_from_config() {
    let mut config = EnvironmentConfig::new(
        "test-env".to_string(),
        "/tmp/test-env".to_string(),
        ProjectType::NodeJS,
    );

    config.description = Some("Test environment description".to_string());
    config.add_dependency(DependencySpec {
        name: "react".to_string(),
        version: Some("18.0.0".to_string()),
        dependency_type: DependencyType::Runtime,
        install_command: Some("npm install react".to_string()),
        required: true,
    });
    config.add_script("start".to_string(), "npm start".to_string());
    config.set_environment_variable("NODE_ENV".to_string(), "development".to_string());

    let env = Environment::from_config(config.clone());

    assert_eq!(env.name, config.name);
    assert_eq!(env.path, config.path);
    assert_eq!(env.project_type, config.project_type);
    assert_eq!(env.dependencies.len(), config.dependencies.len());
    assert_eq!(env.scripts.len(), config.scripts.len());
    assert_eq!(
        env.environment_variables.len(),
        config.environment_variables.len()
    );
    assert_eq!(env.description, config.description);
    assert_eq!(env.status, EnvironmentStatus::Inactive);
    assert!(!env.id.is_empty());
    assert!(env.last_activated.is_none());
    assert!(!env.is_active());
}

#[test]
fn test_environment_dependency_validation() {
    let mut config = EnvironmentConfig::new(
        "test-env".to_string(),
        "/tmp/test-env".to_string(),
        ProjectType::NodeJS,
    );

    // Add dependencies with different requirements
    config.add_dependency(DependencySpec {
        name: "react".to_string(),
        version: None, // No version specified
        dependency_type: DependencyType::Runtime,
        install_command: Some("npm install react".to_string()),
        required: true,
    });

    config.add_dependency(DependencySpec {
        name: "typescript".to_string(),
        version: Some("5.0.0".to_string()),
        dependency_type: DependencyType::Development,
        install_command: Some("npm install -D typescript".to_string()),
        required: false,
    });

    let env = Environment::from_config(config);
    let validation_result = env.validate_dependencies();

    assert!(validation_result.is_valid);
    assert!(validation_result.missing_dependencies.is_empty());
    assert!(validation_result.invalid_paths.is_empty());
    assert_eq!(validation_result.warnings.len(), 1); // Warning for required dependency without version
    assert!(validation_result.errors.is_empty());
}

#[test]
fn test_environment_helper_methods() {
    let mut config = EnvironmentConfig::new(
        "test-env".to_string(),
        "/tmp/test-env".to_string(),
        ProjectType::NodeJS,
    );

    config.add_dependency(DependencySpec {
        name: "react".to_string(),
        version: Some("18.0.0".to_string()),
        dependency_type: DependencyType::Runtime,
        install_command: Some("npm install react".to_string()),
        required: true,
    });

    config.add_script("build".to_string(), "npm run build".to_string());
    config.set_environment_variable("NODE_ENV".to_string(), "development".to_string());

    let env = Environment::from_config(config);

    // Test dependency methods
    assert!(env.has_dependency(&"react".to_string()));
    assert!(!env.has_dependency(&"vue".to_string()));

    let react_dep = env.get_dependency(&"react".to_string());
    assert!(react_dep.is_some());
    assert_eq!(react_dep.unwrap().version, Some("18.0.0".to_string()));

    let non_existent_dep = env.get_dependency(&"vue".to_string());
    assert!(non_existent_dep.is_none());

    // Test script methods
    let build_script = env.get_script(&"build".to_string());
    assert!(build_script.is_some());
    assert_eq!(build_script.unwrap(), "npm run build");

    let non_existent_script = env.get_script(&"test".to_string());
    assert!(non_existent_script.is_none());

    // Test environment variable methods
    let node_env = env.get_environment_variable(&"NODE_ENV".to_string());
    assert!(node_env.is_some());
    assert_eq!(node_env.unwrap(), "development");

    let non_existent_var = env.get_environment_variable(&"PORT".to_string());
    assert!(non_existent_var.is_none());
}

#[test]
fn test_validation_result() {
    let result = ValidationResult {
        is_valid: true,
        missing_dependencies: vec!["missing-dep".to_string()],
        invalid_paths: vec!["/invalid/path".to_string()],
        warnings: vec!["Warning message".to_string()],
        errors: vec!["Error message".to_string()],
    };

    assert!(result.is_valid);
    assert_eq!(result.missing_dependencies, vec!["missing-dep".to_string()]);
    assert_eq!(result.invalid_paths, vec!["/invalid/path".to_string()]);
    assert_eq!(result.warnings, vec!["Warning message".to_string()]);
    assert_eq!(result.errors, vec!["Error message".to_string()]);
}
