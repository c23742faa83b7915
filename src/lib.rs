//! Project scaffolding: turns a template (a directory or a zip archive) into a
//! new project directory, rendering every file that carries the template
//! marker extension with a set of named parameters.
pub mod error;
pub mod outline;
pub mod params;
pub mod paths;
pub mod render;
pub mod run;
pub mod text;
pub mod walk;

pub use error::Error;
pub use params::{parse_parameter, ParameterSet, PROJECT_NAME};
pub use paths::{
    file_extension, source_kind, template_destination, TemplateSource, ARCHIVE_EXTENSION,
    MARKER_EXTENSION,
};
pub use render::{
    render_file, render_text, resolve_import, rewrite_of, Rewrite, IMPORTS_NOT_SUPPORTED,
    MARKED_DESTINATION, UNSUPPORTED_TEMPLATE,
};
pub use run::{plan_run, RunPlan};
pub use text::{chars_of, string_of};
pub use walk::{Entry, Step, Walk};
