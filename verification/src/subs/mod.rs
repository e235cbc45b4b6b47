pub mod client;
pub mod document;
pub mod json;
pub mod manifest;
pub mod new;
pub mod openapi;

use vstd::prelude::*;

verus! {

/// The commands of the tool.
pub enum Commands {
    /// Create a new project.
    New(new::New),
    /// Build the request API of an OpenAPI document.
    Openapi(openapi::Openapi),
    /// Run a project.
    Start { output: String },
    /// Build a project.
    Build { output: String },
    /// Generate module, controller, service, interceptor or DTO code.
    Gen { output: String },
    /// Generate code in a chat.
    Chat { output: String },
    /// Publish a module.
    Publish { output: String },
    /// Install a module.
    Install { output: String },
    /// Print information.
    Print { output: String },
}

} // verus!
