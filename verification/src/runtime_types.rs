//! What the runtime endpoints exchange: resources, prompts and their
//! arguments, and the request and response bodies that carry them.
use vstd::prelude::*;

verus! {

/// A resource a server exposes.
#[derive(Debug, Clone, PartialEq, Eq)]
pub struct Resource {
    pub uri: String,
    pub name: String,
    pub description: Option<String>,
    pub mime_type: Option<String>,
}

/// A prompt template a server exposes.
#[derive(Debug, Clone, PartialEq, Eq)]
pub struct Prompt {
    pub name: String,
    pub description: Option<String>,
    pub arguments: Vec<PromptArgument>,
}

/// An argument of a prompt template.
#[derive(Debug, Clone, PartialEq, Eq)]
pub struct PromptArgument {
    pub name: String,
    pub description: Option<String>,
    pub required: bool,
}

/// The resources of a server.
#[derive(Debug, Clone, PartialEq, Eq)]
pub struct ListResourcesResponse {
    pub resources: Vec<Resource>,
}

/// A request to read one resource.
#[derive(Debug, Clone, PartialEq, Eq)]
pub struct ReadResourceRequest {
    pub uri: String,
}

/// The answer to an elicitation response request.
#[derive(Debug, Clone, Copy, PartialEq, Eq)]
pub struct RespondToElicitationResponse {
    pub success: bool,
}

} // verus!
