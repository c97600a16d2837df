//! The kinds of model provider an agent can run on.
use vstd::prelude::*;

verus! {

#[derive(Debug, Clone, Copy, PartialEq, Eq, Structural)]
pub enum ProviderKind {
    Native,
    OpenAI,
    Anthropic,
    Local,
    Mcp,
}

/// The name of a provider kind.
pub open spec fn provider_name(k: ProviderKind) -> Seq<char> {
    match k {
        ProviderKind::Native => "native"@,
        ProviderKind::OpenAI => "openai"@,
        ProviderKind::Anthropic => "anthropic"@,
        ProviderKind::Local => "local"@,
        ProviderKind::Mcp => "mcp"@,
    }
}

impl ProviderKind {
    pub fn as_str(&self) -> (s: &'static str)
        ensures
            s@ == provider_name(*self),
    {
        match self {
            ProviderKind::Native => "native",
            ProviderKind::OpenAI => "openai",
            ProviderKind::Anthropic => "anthropic",
            ProviderKind::Local => "local",
            ProviderKind::Mcp => "mcp",
        }
    }
}

/// An agent known to the registry.
#[derive(Debug, Clone)]
pub struct RegisteredAgent {
    pub id: String,
    pub name: String,
    pub description: String,
    pub provider_kind: ProviderKind,
    pub capabilities: Vec<String>,
    pub enabled: bool,
}

} // verus!
