//! A verified registry of Handlebars templates.
//!
//! [`Registry`] keeps compiled templates, the partials that they are made of, helpers,
//! decorators and rendering options. It installs and replaces template packages as a
//! whole, reads templates again from their sources in dev mode, and decides what a
//! rendering works with. The template compiler and the readers of sources are the
//! [`Backend`] that it is built on; a renderer is handed to the `render` methods.
pub mod backend;
pub mod directory;
pub mod error;
pub mod escape;
pub mod helpers;
pub mod laws;
pub mod names;
pub mod registry;
pub mod script;
pub mod shared;
pub mod template;
pub mod text;

pub use backend::Backend;
pub use directory::{DirectoryEntry, DirectorySourceOptions};
pub use error::{
    IoError, RenderError, RenderErrorReason, ScriptError, TemplateError, TemplateErrorReason,
    TemplatePackageError, TemplateUpdateError, TemplateUpdateMemberError,
};
pub use escape::{html_escape, no_escape, EscapeFn};
pub use helpers::{BuiltinHelper, Decorator, Helper};
pub use names::{NameMap, NameSet};
pub use registry::files::embedded_text;
pub use registry::package::{PackageMember, Submission};
pub use registry::render::{collected_text, Found, RenderContext};
pub use registry::update::TemplateSource;
pub use registry::Registry;
pub use script::ScriptHelper;
pub use template::{
    BlockParam, DecoratorTemplate, HelperTemplate, Json, Parameter, Path, Subexpression, Template,
    TemplateElement, TemplateMapping, TemplateOptions,
};
