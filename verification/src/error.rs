//! Errors of the checker with their messages.
use vstd::prelude::*;

verus! {

/// Errors that can occur during check operations.
#[derive(Debug)]
pub enum CheckerError {
    ProviderNotFound { slug: String },
    NoProvidersDetected,
    ToolNotFound { tool: String },
    ToolInstallFailed { tool: String, reason: String },
    CheckFailed { provider: String, reason: String },
    FixFailed { provider: String, reason: String },
    ParseFailed { provider: String, reason: String },
    AiFixFailed { reason: String },
    GitError { reason: String },
    CacheError { reason: String },
    ConfigError { reason: String },
    /// An I/O failure, carried by its message.
    Io { reason: String },
    JsonError { reason: String },
    Other(String),
}

/// The text of a `CheckerError`, as it is shown to the user.
pub open spec fn error_message(e: CheckerError) -> Seq<char> {
    match e {
        CheckerError::ProviderNotFound { slug } => "Unknown checker: "@ + slug@,
        CheckerError::NoProvidersDetected => "No checkers detected for the current project"@,
        CheckerError::ToolNotFound { tool } => "Required tool not found: "@ + tool@,
        CheckerError::ToolInstallFailed { tool, reason } => "Failed to install tool "@ + tool@
            + ": "@ + reason@,
        CheckerError::CheckFailed { provider, reason } => "Checker '"@ + provider@
            + "' failed: "@ + reason@,
        CheckerError::FixFailed { provider, reason } => "Auto-fix failed for '"@ + provider@
            + "': "@ + reason@,
        CheckerError::ParseFailed { provider, reason } => "Failed to parse "@ + provider@
            + " output: "@ + reason@,
        CheckerError::AiFixFailed { reason } => "AI fix failed: "@ + reason@,
        CheckerError::GitError { reason } => "Git operation failed: "@ + reason@,
        CheckerError::CacheError { reason } => "Cache error: "@ + reason@,
        CheckerError::ConfigError { reason } => "Configuration error: "@ + reason@,
        CheckerError::Io { reason } => reason@,
        CheckerError::JsonError { reason } => "JSON error: "@ + reason@,
        CheckerError::Other(m) => m@,
    }
}

/// `a + b` as a new `String`.
pub fn cat(a: &str, b: &str) -> (r: String)
    ensures
        r@ == a@ + b@,
{
    let s = String::from_str(a);
    s.concat(b)
}

/// `a + b + c` as a new `String`.
pub fn cat3(a: &str, b: &str, c: &str) -> (r: String)
    ensures
        r@ == a@ + b@ + c@,
{
    let s = String::from_str(a);
    let s = s.concat(b);
    s.concat(c)
}

/// `a + b + c + d` as a new `String`.
pub fn cat4(a: &str, b: &str, c: &str, d: &str) -> (r: String)
    ensures
        r@ == a@ + b@ + c@ + d@,
{
    let s = String::from_str(a);
    let s = s.concat(b);
    let s = s.concat(c);
    s.concat(d)
}

impl CheckerError {
    /// The text of the error, as it is shown to the user.
    pub fn message(&self) -> (r: String)
        ensures
            r@ == error_message(*self),
    {
        match self {
            CheckerError::ProviderNotFound { slug } => cat("Unknown checker: ", slug.as_str()),
            CheckerError::NoProvidersDetected => String::from_str(
                "No checkers detected for the current project",
            ),
            CheckerError::ToolNotFound { tool } => cat("Required tool not found: ", tool.as_str()),
            CheckerError::ToolInstallFailed { tool, reason } => cat4(
                "Failed to install tool ",
                tool.as_str(),
                ": ",
                reason.as_str(),
            ),
            CheckerError::CheckFailed { provider, reason } => cat4(
                "Checker '",
                provider.as_str(),
                "' failed: ",
                reason.as_str(),
            ),
            CheckerError::FixFailed { provider, reason } => cat4(
                "Auto-fix failed for '",
                provider.as_str(),
                "': ",
                reason.as_str(),
            ),
            CheckerError::ParseFailed { provider, reason } => cat4(
                "Failed to parse ",
                provider.as_str(),
                " output: ",
                reason.as_str(),
            ),
            CheckerError::AiFixFailed { reason } => cat("AI fix failed: ", reason.as_str()),
            CheckerError::GitError { reason } => cat("Git operation failed: ", reason.as_str()),
            CheckerError::CacheError { reason } => cat("Cache error: ", reason.as_str()),
            CheckerError::ConfigError { reason } => cat("Configuration error: ", reason.as_str()),
            CheckerError::Io { reason } => reason.clone(),
            CheckerError::JsonError { reason } => cat("JSON error: ", reason.as_str()),
            CheckerError::Other(m) => m.clone(),
        }
    }
}

} // verus!
