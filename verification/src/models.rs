//! Plain data records of the surrounding application that travel through
//! the library's boundary: workspaces, prompts and hub catalog entries.

use vstd::prelude::*;

verus! {

/// A stored prompt.
#[derive(Debug, Clone)]
pub struct Prompt {
    pub id: String,
    pub name: String,
    pub content: String,
    pub created_at: i64,
    pub updated_at: i64,
}

/// A prompt template after parsing: its metadata and the placeholders found
/// in its body.
#[derive(Debug, Clone)]
pub struct ParsedPromptTemplate {
    pub title: String,
    pub description: String,
    pub content: String,
    pub variables: Vec<String>,
}

/// A workspace record.
#[derive(Debug, Clone)]
pub struct Workspace {
    pub id: String,
    pub name: String,
    pub created_at: i64,
}

/// One prompt entry of a hub catalog index.
#[derive(Debug, Clone)]
pub struct HubPrompt {
    pub id: String,
    pub name: String,
    pub description: String,
    pub icon: String,
    pub path: String,
}

} // verus!
