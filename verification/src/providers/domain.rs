//! Provider configuration types: the non-secret parts of a provider setup.
//!
//! Keys are deliberately not here: they live in the OS keyring.

use vstd::prelude::*;
use vstd::string::*;

use crate::llm::ModelInfo;
use crate::text::str_eq;

verus! {

/// Which adapter family a config belongs to.
#[derive(Debug, Clone, Copy, PartialEq, Eq, Structural)]
pub enum ProviderKind {
    /// The reference test adapter.
    Mock,
    /// Any OpenAI-compatible `/chat/completions` endpoint (incl. OpenCode Go).
    OpenAiCompatible,
}

/// The wire name of a provider kind.
pub open spec fn kind_wire(kind: ProviderKind) -> Seq<char> {
    match kind {
        ProviderKind::Mock => "mock"@,
        ProviderKind::OpenAiCompatible => "openai_compatible"@,
    }
}

impl ProviderKind {
    /// Wire name used in the `provider_cfg` table.
    pub fn as_str(&self) -> (s: &'static str)
        ensures
            s@ == kind_wire(*self),
    {
        match self {
            ProviderKind::Mock => "mock",
            ProviderKind::OpenAiCompatible => "openai_compatible",
        }
    }

    /// Inverse of [`ProviderKind::as_str`]; unknown kinds fall back to Mock so
    /// a corrupt row degrades instead of failing hard.
    pub fn from_wire(value: &str) -> (k: ProviderKind)
        ensures
            k == (if value@ == "openai_compatible"@ {
                ProviderKind::OpenAiCompatible
            } else {
                ProviderKind::Mock
            }),
    {
        if str_eq(value, "openai_compatible") {
            ProviderKind::OpenAiCompatible
        } else {
            ProviderKind::Mock
        }
    }
}

/// Reading back a kind's wire name gives the kind again.
pub proof fn lemma_kind_wire_round_trip(kind: ProviderKind)
    ensures
        (if kind_wire(kind) == "openai_compatible"@ {
            ProviderKind::OpenAiCompatible
        } else {
            ProviderKind::Mock
        }) == kind,
{
    reveal_strlit("mock");
    reveal_strlit("openai_compatible");
    if kind == ProviderKind::Mock {
        assert("mock"@.len() != "openai_compatible"@.len());
    }
}

/// A stored provider configuration (no keys).
#[derive(Debug)]
pub struct ProviderConfig {
    /// Stable id of the provider (e.g. "opencode-go").
    pub id: String,
    /// Display name shown in the settings list.
    pub name: String,
    /// Which adapter family handles this config.
    pub kind: ProviderKind,
    /// Endpoint root; OpenAI-compatible configs point at a /v1 base.
    pub base_url: String,
    /// Default model id used when a turn does not override it.
    pub model: String,
    /// Exactly one config should hold the default flag.
    pub is_default: bool,
    /// RFC 3339 timestamp; configs list oldest first.
    pub created_at: String,
}

/// What the UI shows about a provider.
#[derive(Debug)]
pub struct ProviderInfo {
    pub id: String,
    pub name: String,
    pub kind: ProviderKind,
    pub base_url: String,
    pub model: String,
    /// Whether an API key is available (keyring or env) for this provider.
    pub has_key: bool,
    /// Whether this provider is the live default.
    pub is_default: bool,
}

/// The default endpoint for OpenCode Go (OpenAI-compatible chat completions).
pub const OPENCODE_GO_BASE_URL: &'static str = "https://opencode.ai/zen/go/v1";

/// The default model the user runs under their OpenCode Go subscription.
pub const OPENCODE_GO_DEFAULT_MODEL: &'static str = "deepseek-v4-flash";

/// The env var that supplies the OpenCode Go API key.
pub const OPENCODE_API_KEY_ENV: &'static str = "OPENCODE_API_KEY";

/// The static OpenCode Go catalog: id, name, context window, max output.
pub open spec fn opencode_go_catalog() -> Seq<(Seq<char>, Seq<char>, usize, usize)> {
    seq![
        ("deepseek-v4-flash"@, "DeepSeek V4 Flash"@, 1_000_000usize, 384_000usize),
        ("deepseek-v4-pro"@, "DeepSeek V4 Pro"@, 1_000_000usize, 384_000usize),
        ("kimi-k2.7-code"@, "Kimi K2.7 Code"@, 256_000usize, 32_000usize),
        ("glm-5.2"@, "GLM-5.2"@, 200_000usize, 32_000usize),
        ("qwen3.7-max"@, "Qwen3.7 Max"@, 256_000usize, 64_000usize),
        ("grok-4.5"@, "Grok 4.5"@, 256_000usize, 64_000usize),
    ]
}

/// `m` describes catalog entry `entry`, with tool support.
pub open spec fn describes(m: ModelInfo, entry: (Seq<char>, Seq<char>, usize, usize)) -> bool {
    m.id@ == entry.0 && m.name@ == entry.1 && m.context_window == Some(entry.2) && m.max_output == Some(
        entry.3,
    ) && m.supports_tools
}

fn known_model(id: &str, name: &str, context_window: usize, max_output: usize) -> (m: ModelInfo)
    ensures
        describes(m, (id@, name@, context_window, max_output)),
{
    ModelInfo {
        id: String::from_str(id),
        name: String::from_str(name),
        context_window: Some(context_window),
        max_output: Some(max_output),
        supports_tools: true,
    }
}

/// Static fallback model catalog for OpenCode Go, used when the `/models`
/// endpoint is unreachable so the picker always has something to show.
pub fn opencode_go_known_models() -> (models: Vec<ModelInfo>)
    ensures
        models@.len() == opencode_go_catalog().len(),
        forall|i: int| 0 <= i < models@.len() ==> describes(#[trigger] models@[i], opencode_go_catalog()[i]),
{
    let mut models: Vec<ModelInfo> = Vec::new();
    models.push(known_model("deepseek-v4-flash", "DeepSeek V4 Flash", 1_000_000, 384_000));
    models.push(known_model("deepseek-v4-pro", "DeepSeek V4 Pro", 1_000_000, 384_000));
    models.push(known_model("kimi-k2.7-code", "Kimi K2.7 Code", 256_000, 32_000));
    models.push(known_model("glm-5.2", "GLM-5.2", 200_000, 32_000));
    models.push(known_model("qwen3.7-max", "Qwen3.7 Max", 256_000, 64_000));
    models.push(known_model("grok-4.5", "Grok 4.5", 256_000, 64_000));
    models
}

} // verus!
