//! Data shapes for the chat-completion collaborator that consumes the
//! issued tokens.
//!
//! These are plain value types; the HTTP layer around the library carries
//! its own serialisable copies of them.

use vstd::prelude::*;

use vstd::string::StringExecFns;

verus! {

/// The models the collaborator can be asked for.
#[derive(Debug, Clone, Copy, PartialEq, Eq, Structural)]
pub enum Model {
    GLM3Turbo,
    GLM4,
}

impl Model {
    /// The wire name of the model.
    pub fn name(&self) -> (r: String)
        ensures
            self is GLM3Turbo ==> r@ == "glm-3-turbo"@,
            self is GLM4 ==> r@ == "glm-4"@,
    {
        match self {
            Model::GLM3Turbo => String::from_str("glm-3-turbo"),
            Model::GLM4 => String::from_str("glm-4"),
        }
    }
}

/// One function invocation requested by the model.
#[derive(Debug, PartialEq, Eq)]
pub struct ToolCallFunction {
    pub name: String,
    pub arguments: String,
}

/// A tool invocation requested by the model, tagged by capability.
#[derive(Debug, PartialEq, Eq)]
pub enum ToolCall {
    WebSearch { id: String },
    Retrieval { id: String },
    Function { id: String, function: ToolCallFunction },
}

impl ToolCall {
    /// The invocation id, whichever capability the call carries.
    pub fn id(&self) -> (r: String)
        ensures
            r@ == (match self {
                ToolCall::WebSearch { id } => id@,
                ToolCall::Retrieval { id } => id@,
                ToolCall::Function { id, .. } => id@,
            }),
    {
        match self {
            ToolCall::WebSearch { id } => id.clone(),
            ToolCall::Retrieval { id } => id.clone(),
            ToolCall::Function { id, .. } => id.clone(),
        }
    }
}

/// One chat message, tagged by role; each variant carries only the fields
/// valid for that role.
#[derive(Debug, PartialEq, Eq)]
pub enum Message {
    System { content: String },
    User { content: String },
    Assisant { content: Option<String>, tool_calls: Option<Vec<ToolCall>> },
    Tool { content: String, tool_call_id: String },
}

} // verus!
