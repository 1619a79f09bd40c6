//! Data model of the code-analysis subsystem.
//!
//! These are the records an analysis works with: what to analyse
//! (context), what came out of it (suggestions and their metrics), and
//! which model produced it.  The analysis itself — reading files,
//! calling a provider — happens outside the library; everything here is
//! plain data with exact constructors and accessors.

use vstd::prelude::*;

use crate::errors::AIError;
use crate::strings::{blank_text, is_blank_string, seq_has_str, strs_view};
use crate::strmap::StringMap;
use crate::sys::fresh_id;
use vstd::string::StringExecFns;

verus! {

/// What an analysis looks at.
#[derive(Debug, Clone, Copy, PartialEq, Eq, Hash, Structural)]
pub enum AnalysisType {
    CodeQuality,
    Security,
    Performance,
    Dependencies,
    Architecture,
    Documentation,
    Testing,
    Full,
}

/// The kind of finding an insight reports.
#[derive(Debug, Clone, Copy, PartialEq, Eq, Structural)]
pub enum InsightCategory {
    CodeSmell,
    SecurityVulnerability,
    PerformanceIssue,
    BestPractice,
    Documentation,
    Testing,
    Architecture,
    Dependency,
}

/// How serious a finding is.
#[derive(Debug, Clone, Copy, PartialEq, Eq, Structural)]
pub enum Severity {
    Low,
    Medium,
    High,
    Critical,
}

/// The kind of change a suggestion proposes.
#[derive(Debug, Clone, Copy, PartialEq, Eq, Structural)]
pub enum SuggestionType {
    CodeImprovement,
    Refactoring,
    SecurityFix,
    PerformanceOptimization,
    Documentation,
    Testing,
    DependencyUpdate,
}

/// Where an analysis run stands.
#[derive(Debug, Clone, Copy, PartialEq, Eq, Structural)]
pub enum AnalysisStatus {
    Pending,
    InProgress,
    Completed,
    Failed,
    Cancelled,
}

/// A place in the analysed sources.
#[derive(Debug, Clone, PartialEq)]
pub struct CodeLocation {
    pub file_path: String,
    pub line_start: u32,
    pub line_end: Option<u32>,
    pub column_start: Option<u32>,
    pub column_end: Option<u32>,
}

/// What an analysis run looks at: a project path, the file patterns to
/// include and exclude, and optional language and framework hints.
#[derive(Debug, Clone)]
pub struct AnalysisContext {
    pub project_path: String,
    pub file_patterns: Vec<String>,
    pub exclude_patterns: Vec<String>,
    pub language: Option<String>,
    pub framework: Option<String>,
    pub additional_context: StringMap,
}

impl Default for AnalysisContext {
    /// The whole project, Rust and JavaScript sources, build output
    /// excluded.
    fn default() -> (r: Self)
        ensures
            r.project_path@ == "."@,
            strs_view(r.file_patterns@) == seq!["**/*.rs"@, "**/*.js"@, "**/*.ts"@],
            strs_view(r.exclude_patterns@) == seq!["**/node_modules/**"@, "**/target/**"@],
            r.language is None,
            r.framework is None,
            r.additional_context@.len() == 0,
    {
        let mut file_patterns: Vec<String> = Vec::new();
        file_patterns.push(String::from_str("**/*.rs"));
        file_patterns.push(String::from_str("**/*.js"));
        file_patterns.push(String::from_str("**/*.ts"));
        let mut exclude_patterns: Vec<String> = Vec::new();
        exclude_patterns.push(String::from_str("**/node_modules/**"));
        exclude_patterns.push(String::from_str("**/target/**"));
        let r = AnalysisContext {
            project_path: String::from_str("."),
            file_patterns,
            exclude_patterns,
            language: None,
            framework: None,
            additional_context: StringMap::new(),
        };
        proof {
            assert(strs_view(r.file_patterns@) =~= seq!["**/*.rs"@, "**/*.js"@, "**/*.ts"@]);
            assert(strs_view(r.exclude_patterns@) =~= seq![
                "**/node_modules/**"@,
                "**/target/**"@,
            ]);
        }
        r
    }
}

/// A proposed change to the analysed code.
#[derive(Debug, Clone)]
pub struct Suggestion {
    pub id: String,
    pub suggestion_type: SuggestionType,
    pub title: String,
    pub description: String,
    pub code_before: Option<String>,
    pub code_after: Option<String>,
    pub location: Option<CodeLocation>,
    pub impact: String,
    pub effort: String,
    pub priority: u32,
    pub tags: Vec<String>,
}

impl Suggestion {
    /// A fresh suggestion: medium impact and effort, priority 5.
    pub fn new(suggestion_type: SuggestionType, title: String, description: String) -> (r: Self)
        ensures
            r.id@.len() == 36,
            r.suggestion_type == suggestion_type,
            r.title@ == title@,
            r.description@ == description@,
            r.code_before is None,
            r.code_after is None,
            r.location is None,
            r.impact@ == "medium"@,
            r.effort@ == "medium"@,
            r.priority == 5,
            r.tags@.len() == 0,
    {
        Suggestion {
            id: fresh_id(),
            suggestion_type,
            title,
            description,
            code_before: None,
            code_after: None,
            location: None,
            impact: String::from_str("medium"),
            effort: String::from_str("medium"),
            priority: 5,
            tags: Vec::new(),
        }
    }

    /// Attach the code before and after the proposed change.
    pub fn with_code_change(self, before: String, after: String) -> (r: Self)
        ensures
            r == (Suggestion { code_before: Some(before), code_after: Some(after), ..self }),
    {
        let mut s = self;
        s.code_before = Some(before);
        s.code_after = Some(after);
        s
    }

    /// Attach the place the suggestion is about.
    pub fn with_location(self, location: CodeLocation) -> (r: Self)
        ensures
            r == (Suggestion { location: Some(location), ..self }),
    {
        let mut s = self;
        s.location = Some(location);
        s
    }

    /// Set the impact description.
    pub fn with_impact(self, impact: String) -> (r: Self)
        ensures
            r == (Suggestion { impact, ..self }),
    {
        let mut s = self;
        s.impact = impact;
        s
    }

    /// Set the effort description.
    pub fn with_effort(self, effort: String) -> (r: Self)
        ensures
            r == (Suggestion { effort, ..self }),
    {
        let mut s = self;
        s.effort = effort;
        s
    }

    /// Set the priority, clamped to the range 1 to 10.
    pub fn with_priority(self, priority: u32) -> (r: Self)
        ensures
            r == (Suggestion {
                priority: (if priority < 1 {
                    1u32
                } else if priority > 10 {
                    10u32
                } else {
                    priority
                }),
                ..self
            }),
    {
        let clamped: u32 = if priority < 1 {
            1
        } else if priority > 10 {
            10
        } else {
            priority
        };
        let mut s = self;
        s.priority = clamped;
        s
    }

    /// Replace the tag list.
    pub fn with_tags(self, tags: Vec<String>) -> (r: Self)
        ensures
            r == (Suggestion { tags, ..self }),
    {
        let mut s = self;
        s.tags = tags;
        s
    }

    /// High priority means 7 or above.
    pub fn is_high_priority(&self) -> (r: bool)
        ensures
            r == (self.priority >= 7),
    {
        self.priority >= 7
    }

    /// Whether both sides of a code change are attached.
    pub fn has_code_example(&self) -> (r: bool)
        ensures
            r == (self.code_before is Some && self.code_after is Some),
    {
        self.code_before.is_some() && self.code_after.is_some()
    }
}

/// Bookkeeping of one analysis run.
#[derive(Debug, Clone)]
pub struct AnalysisMetrics {
    pub files_analyzed: u32,
    pub lines_of_code: u32,
    pub analysis_duration_ms: u64,
    pub model_tokens_used: Option<u32>,
    pub api_calls_made: u32,
    pub insights_found: u32,
    pub suggestions_generated: u32,
}

impl Default for AnalysisMetrics {
    /// All counters at zero.
    fn default() -> (r: Self)
        ensures
            r.files_analyzed == 0,
            r.lines_of_code == 0,
            r.analysis_duration_ms == 0,
            r.model_tokens_used is None,
            r.api_calls_made == 0,
            r.insights_found == 0,
            r.suggestions_generated == 0,
    {
        AnalysisMetrics {
            files_analyzed: 0,
            lines_of_code: 0,
            analysis_duration_ms: 0,
            model_tokens_used: None,
            api_calls_made: 0,
            insights_found: 0,
            suggestions_generated: 0,
        }
    }
}

/// Description of an analysis model a provider offers.
#[derive(Debug, Clone)]
pub struct ModelInfo {
    pub name: String,
    pub provider: String,
    pub version: Option<String>,
    pub capabilities: Vec<String>,
    pub max_tokens: Option<u32>,
    pub supports_streaming: bool,
}

impl ModelInfo {
    /// A model known only by name and provider.
    pub fn new(name: String, provider: String) -> (r: Self)
        ensures
            r.name@ == name@,
            r.provider@ == provider@,
            r.version is None,
            r.capabilities@.len() == 0,
            r.max_tokens is None,
            !r.supports_streaming,
    {
        ModelInfo {
            name,
            provider,
            version: None,
            capabilities: Vec::new(),
            max_tokens: None,
            supports_streaming: false,
        }
    }

    /// Set the version.
    pub fn with_version(self, version: String) -> (r: Self)
        ensures
            r == (ModelInfo { version: Some(version), ..self }),
    {
        let mut m = self;
        m.version = Some(version);
        m
    }

    /// Replace the capability list.
    pub fn with_capabilities(self, capabilities: Vec<String>) -> (r: Self)
        ensures
            r == (ModelInfo { capabilities, ..self }),
    {
        let mut m = self;
        m.capabilities = capabilities;
        m
    }

    /// Set the token limit.
    pub fn with_max_tokens(self, max_tokens: u32) -> (r: Self)
        ensures
            r == (ModelInfo { max_tokens: Some(max_tokens), ..self }),
    {
        let mut m = self;
        m.max_tokens = Some(max_tokens);
        m
    }

    /// Set whether streaming responses are supported.
    pub fn with_streaming(self, supports_streaming: bool) -> (r: Self)
        ensures
            r == (ModelInfo { supports_streaming, ..self }),
    {
        let mut m = self;
        m.supports_streaming = supports_streaming;
        m
    }

    /// Whether the named capability is listed.
    pub fn supports_capability(&self, capability: &String) -> (r: bool)
        ensures
            r == seq_has_str(self.capabilities@, capability@),
    {
        crate::strings::contains_string(&self.capabilities, capability)
    }
}

/// The message the request-field check reports, if any: a blank path,
/// then a zero token limit.  The floating-point temperature bound
/// stays with the caller, which holds the float.
pub open spec fn request_fields_error(path: Seq<char>, max_tokens: Option<u32>) -> Option<
    Seq<char>,
> {
    if blank_text(path) {
        Some("Analysis path cannot be empty"@)
    } else if max_tokens == Some(0u32) {
        Some("Max tokens must be greater than 0"@)
    } else {
        None
    }
}

/// Check the plain fields of an analysis request.
pub fn validate_request_fields(path: &String, max_tokens: Option<u32>) -> (r: Result<
    (),
    AIError,
>)
    ensures
        r is Ok <==> request_fields_error(path@, max_tokens) is None,
        r matches Err(e) ==> (e matches AIError::AnalysisFailed(m) && Some(m@)
            == request_fields_error(path@, max_tokens)),
{
    if is_blank_string(path) {
        return Err(AIError::AnalysisFailed(String::from_str("Analysis path cannot be empty")));
    }
    match max_tokens {
        Some(n) => {
            if n == 0 {
                return Err(
                    AIError::AnalysisFailed(String::from_str("Max tokens must be greater than 0")),
                );
            }
        },
        None => {},
    }
    Ok(())
}


} // verus!
