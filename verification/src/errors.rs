//! Error types of the library.
//!
//! Every failure a library function can report is one of these variants,
//! each carrying a human-readable message.  The functions that return
//! them state in their contracts exactly which variant and message comes
//! with which input.

use vstd::prelude::*;

use vstd::string::StringExecFns;

verus! {

/// Errors of environment handling.
#[derive(Debug, Clone)]
pub enum EnvError {
    NotFound(String),
    AlreadyExists(String),
    InvalidConfig(String),
    Dependency(String),
    Path(String),
}

impl EnvError {
    /// The message carried by this error.
    pub fn message(&self) -> (r: &String)
        ensures
            r@ == self.text(),
    {
        match self {
            EnvError::NotFound(m) => m,
            EnvError::AlreadyExists(m) => m,
            EnvError::InvalidConfig(m) => m,
            EnvError::Dependency(m) => m,
            EnvError::Path(m) => m,
        }
    }

    /// The characters of the carried message.
    pub open spec fn text(&self) -> Seq<char> {
        match self {
            EnvError::NotFound(m) => m@,
            EnvError::AlreadyExists(m) => m@,
            EnvError::InvalidConfig(m) => m@,
            EnvError::Dependency(m) => m@,
            EnvError::Path(m) => m@,
        }
    }
}

/// Errors of the analysis subsystem.
#[derive(Debug, Clone)]
pub enum AIError {
    ProviderNotFound(String),
    AnalysisFailed(String),
    InvalidModel(String),
    ApiError(String),
    RateLimitExceeded,
}

impl AIError {
    /// The message carried by this error.
    pub fn message(&self) -> (r: String)
        ensures
            r@ == self.text(),
    {
        match self {
            AIError::ProviderNotFound(m) => m.clone(),
            AIError::AnalysisFailed(m) => m.clone(),
            AIError::InvalidModel(m) => m.clone(),
            AIError::ApiError(m) => m.clone(),
            AIError::RateLimitExceeded => String::from_str("Rate limit exceeded"),
        }
    }

    /// The characters of the carried message.
    pub open spec fn text(&self) -> Seq<char> {
        match self {
            AIError::ProviderNotFound(m) => m@,
            AIError::AnalysisFailed(m) => m@,
            AIError::InvalidModel(m) => m@,
            AIError::ApiError(m) => m@,
            AIError::RateLimitExceeded => "Rate limit exceeded"@,
        }
    }
}

/// Errors of the workflow engine.
#[derive(Debug, Clone)]
pub enum WorkflowError {
    NotFound(String),
    ExecutionFailed(String),
    InvalidStep(String),
    ValidationFailed(String),
}

impl WorkflowError {
    /// The message carried by this error.
    pub fn message(&self) -> (r: &String)
        ensures
            r@ == self.text(),
    {
        match self {
            WorkflowError::NotFound(m) => m,
            WorkflowError::ExecutionFailed(m) => m,
            WorkflowError::InvalidStep(m) => m,
            WorkflowError::ValidationFailed(m) => m,
        }
    }

    /// The characters of the carried message.
    pub open spec fn text(&self) -> Seq<char> {
        match self {
            WorkflowError::NotFound(m) => m@,
            WorkflowError::ExecutionFailed(m) => m@,
            WorkflowError::InvalidStep(m) => m@,
            WorkflowError::ValidationFailed(m) => m@,
        }
    }
}

/// Errors of configuration handling.
#[derive(Debug, Clone)]
pub enum ConfigError {
    FileNotFound(String),
    InvalidFormat(String),
    ValidationFailed(String),
    DatabaseInit(String),
}

impl ConfigError {
    /// The message carried by this error.
    pub fn message(&self) -> (r: &String)
        ensures
            r@ == self.text(),
    {
        match self {
            ConfigError::FileNotFound(m) => m,
            ConfigError::InvalidFormat(m) => m,
            ConfigError::ValidationFailed(m) => m,
            ConfigError::DatabaseInit(m) => m,
        }
    }

    /// The characters of the carried message.
    pub open spec fn text(&self) -> Seq<char> {
        match self {
            ConfigError::FileNotFound(m) => m@,
            ConfigError::InvalidFormat(m) => m@,
            ConfigError::ValidationFailed(m) => m@,
            ConfigError::DatabaseInit(m) => m@,
        }
    }
}

} // verus!
