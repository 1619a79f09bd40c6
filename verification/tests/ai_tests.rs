use aidev_core::ai_analysis::{
    validate_request_fields, AnalysisContext, AnalysisMetrics, CodeLocation, ModelInfo,
    Suggestion, SuggestionType,
};

#[test]
fn test_analysis_context_default() {
    let context = AnalysisContext::default();
    assert_eq!(context.project_path, ".");
    assert_eq!(context.file_patterns.len(), 3);
    assert!(context.file_patterns.contains(&"**/*.rs".to_string()));
    assert!(context.file_patterns.contains(&"**/*.js".to_string()));
    assert!(context.file_patterns.contains(&"**/*.ts".to_string()));
    assert_eq!(context.exclude_patterns.len(), 2);
    assert!(context.exclude_patterns.contains(&"**/node_modules/**".to_string()));
    assert!(context.exclude_patterns.contains(&"**/target/**".to_string()));
    assert_eq!(context.language, None);
    assert_eq!(context.framework, None);
    assert!(context.additional_context.is_empty());
}

#[test]
fn test_suggestion_creation() {
    let suggestion = Suggestion::new(
        SuggestionType::CodeImprovement,
        "Improve function".to_string(),
        "This function can be optimized".to_string(),
    );

    assert_eq!(suggestion.suggestion_type, SuggestionType::CodeImprovement);
    assert_eq!(suggestion.title, "Improve function");
    assert_eq!(suggestion.description, "This function can be optimized");
    assert_eq!(suggestion.impact, "medium");
    assert_eq!(suggestion.effort, "medium");
    assert_eq!(suggestion.priority, 5);
    assert!(suggestion.tags.is_empty());
    assert!(suggestion.code_before.is_none());
    assert!(suggestion.code_after.is_none());
    assert!(suggestion.location.is_none());
    assert!(!suggestion.id.is_empty());

    // Test builder pattern
    let location = CodeLocation {
        file_path: "src/lib.rs".to_string(),
        line_start: 20,
        line_end: Some(25),
        column_start: None,
        column_end: None,
    };

    let enhanced_suggestion = Suggestion::new(
        SuggestionType::Refactoring,
        "Extract method".to_string(),
        "Extract this code into a separate method".to_string(),
    )
    .with_code_change(
        "fn long_function() { /* lots of code */ }".to_string(),
        "fn long_function() { helper_method(); } fn helper_method() { /* extracted code */ }"
            .to_string(),
    )
    .with_location(location.clone())
    .with_impact("high".to_string())
    .with_effort("low".to_string())
    .with_priority(8)
    .with_tags(vec!["refactoring".to_string(), "maintainability".to_string()]);

    assert!(enhanced_suggestion.has_code_example());
    assert_eq!(enhanced_suggestion.location, Some(location));
    assert_eq!(enhanced_suggestion.impact, "high");
    assert_eq!(enhanced_suggestion.effort, "low");
    assert_eq!(enhanced_suggestion.priority, 8);
    assert!(enhanced_suggestion.is_high_priority());
    assert_eq!(
        enhanced_suggestion.tags,
        vec!["refactoring".to_string(), "maintainability".to_string()]
    );
}

#[test]
fn test_suggestion_priority() {
    let mut suggestion = Suggestion::new(
        SuggestionType::CodeImprovement,
        "Test".to_string(),
        "Test description".to_string(),
    );

    // Test priority clamping
    suggestion = suggestion.with_priority(15); // Should clamp to 10
    assert_eq!(suggestion.priority, 10);

    suggestion = suggestion.with_priority(0); // Should clamp to 1
    assert_eq!(suggestion.priority, 1);

    // Test high priority detection
    suggestion = suggestion.with_priority(7);
    assert!(suggestion.is_high_priority());

    suggestion = suggestion.with_priority(6);
    assert!(!suggestion.is_high_priority());
}

#[test]
fn test_analysis_metrics_default() {
    let metrics = AnalysisMetrics::default();
    assert_eq!(metrics.files_analyzed, 0);
    assert_eq!(metrics.lines_of_code, 0);
    assert_eq!(metrics.analysis_duration_ms, 0);
    assert_eq!(metrics.model_tokens_used, None);
    assert_eq!(metrics.api_calls_made, 0);
    assert_eq!(metrics.insights_found, 0);
    assert_eq!(metrics.suggestions_generated, 0);
}

#[test]
fn test_model_info() {
    let model = ModelInfo::new("gpt-4".to_string(), "openai".to_string())
        .with_version("2024-01-01".to_string())
        .with_capabilities(vec![
            "code_analysis".to_string(),
            "text_generation".to_string(),
        ])
        .with_max_tokens(8000)
        .with_streaming(true);

    assert_eq!(model.name, "gpt-4");
    assert_eq!(model.provider, "openai");
    assert_eq!(model.version, Some("2024-01-01".to_string()));
    assert_eq!(model.capabilities.len(), 2);
    assert_eq!(model.max_tokens, Some(8000));
    assert!(model.supports_streaming);

    assert!(model.supports_capability(&"code_analysis".to_string()));
    assert!(!model.supports_capability(&"image_analysis".to_string()));
}

#[test]
fn test_validate_request_fields() {
    assert!(validate_request_fields(&"./src".to_string(), Some(4000)).is_ok());
    assert!(validate_request_fields(&"./src".to_string(), None).is_ok());

    // An empty or whitespace-only path is rejected
    assert!(validate_request_fields(&"".to_string(), Some(4000)).is_err());
    assert!(validate_request_fields(&"   ".to_string(), Some(4000)).is_err());

    // A zero token limit is rejected
    assert!(validate_request_fields(&"./src".to_string(), Some(0)).is_err());
}
