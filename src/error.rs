//! The ways a scaffolding run can fail.
use vstd::prelude::*;

verus! {

/// Every failure aborts the whole run; none is retried.
#[derive(Debug, PartialEq, Eq)]
pub enum Error {
    /// The template path does not exist.
    TemplateNotFound { path: String },
    /// A `KEY:VALUE` argument has no `:` separator.
    MalformedParameter { entry: String },
    /// Extracting the archive or copying the directory failed.
    SourceMaterializationFailed { path: String, cause: String },
    /// A marked file could not be read as text.
    UnreadableTemplateFile { path: String },
    /// The template engine rejected the content of a marked file.
    RenderFailed { path: String, cause: String },
    /// Writing rendered content failed.
    OutputWriteFailed { path: String },
}

} // verus!
