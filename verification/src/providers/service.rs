//! Provider orchestration rules: the seeded configs, which provider is the
//! default, how a config update applies, where a key comes from, and which
//! adapter a config builds.

use vstd::prelude::*;
use vstd::string::*;

use crate::errors::{AppError, Result};
use crate::ids::{is_utc_rfc3339, now_rfc3339};
use crate::llm::{join, join_texts, texts_of, ChatMessage, CompletionResponse, Role};
use crate::providers::domain::{
    describes, opencode_go_catalog, opencode_go_known_models, ProviderConfig, ProviderInfo, ProviderKind,
    OPENCODE_GO_BASE_URL, OPENCODE_GO_DEFAULT_MODEL,
};
use crate::providers::mock::MockProvider;
use crate::providers::openai::OpenAiCompatibleProvider;
use crate::text::{str_eq, strip_trailing, trim, trim_str};

verus! {

/// Id of the built-in mock provider.
pub const MOCK_PROVIDER_ID: &'static str = "mock";

/// Id of the built-in OpenCode Go provider.
pub const OPENCODE_GO_PROVIDER_ID: &'static str = "opencode-go";

/// The reply template of the mock adapters the service builds.
pub const MOCK_REPLY_TEMPLATE: &'static str = "The GM nods thoughtfully.";

/// Input for updating a provider's non-secret config.
#[derive(Debug)]
pub struct ProviderConfigInput {
    /// The model identifier sent on every completion request.
    pub model: String,
    /// The endpoint base URL; blank keeps the current one.
    pub base_url: String,
}

/// Wire shape for updating a provider's config; `base_url` may be absent on
/// the wire, in which case it is empty.
#[derive(Debug)]
pub struct ProviderConfigRequest {
    pub model: String,
    pub base_url: String,
}

impl ProviderConfigRequest {
    /// The service input the request stands for, field for field.
    pub fn into_input(self) -> (input: ProviderConfigInput)
        ensures
            input.model@ == self.model@,
            input.base_url@ == self.base_url@,
    {
        ProviderConfigInput { model: self.model, base_url: self.base_url }
    }
}

impl ProviderConfigInput {
    /// A blank model is refused: every completion needs one.
    pub fn validate(&self) -> (r: Result<()>)
        ensures
            r is Ok <==> trim(self.model@).len() > 0,
            r matches Err(e) ==> e is Config && e.detail() == "model must not be empty"@,
    {
        if trim_str(self.model.as_str()).unicode_len() == 0 {
            return Err(AppError::Config(String::from_str("model must not be empty")));
        }
        Ok(())
    }
}

/// The config after an update: the trimmed model, and the trimmed base URL
/// unless it is blank (blank keeps the current one); the rest stays.
pub fn apply_config_input(config: ProviderConfig, input: &ProviderConfigInput) -> (r: ProviderConfig)
    ensures
        r.id@ == config.id@,
        r.name@ == config.name@,
        r.kind == config.kind,
        r.model@ == trim(input.model@),
        r.base_url@ == (if trim(input.base_url@).len() > 0 {
            trim(input.base_url@)
        } else {
            config.base_url@
        }),
        r.is_default == config.is_default,
        r.created_at@ == config.created_at@,
{
    let mut config = config;
    config.model = String::from_str(trim_str(input.model.as_str()));
    let base = trim_str(input.base_url.as_str());
    if base.unicode_len() > 0 {
        config.base_url = String::from_str(base);
    }
    config
}

/// The stored config of a provider, or a config error naming the id.
pub fn require_config(provider_id: &str, found: Option<ProviderConfig>) -> (r: Result<ProviderConfig>)
    ensures
        match found {
            Some(c) => r matches Ok(c2) && c2 == c,
            None => r matches Err(e) && e is Config && e.detail() == "provider not configured: "@ + provider_id@,
        },
{
    match found {
        Some(c) => Ok(c),
        None => Err(AppError::Config(String::from_str("provider not configured: ").concat(provider_id))),
    }
}

/// The config the mock provider is seeded with.
pub fn mock_seed_config(created_at: String) -> (c: ProviderConfig)
    ensures
        c.id@ == "mock"@,
        c.name@ == "Mock"@,
        c.kind == ProviderKind::Mock,
        c.base_url@ == Seq::<char>::empty(),
        c.model@ == "mock/model"@,
        !c.is_default,
        c.created_at@ == created_at@,
{
    ProviderConfig {
        id: String::from_str(MOCK_PROVIDER_ID),
        name: String::from_str("Mock"),
        kind: ProviderKind::Mock,
        base_url: String::new(),
        model: String::from_str("mock/model"),
        is_default: false,
        created_at,
    }
}

/// The config OpenCode Go is seeded with: its known endpoint and model.
pub fn opencode_seed_config(created_at: String) -> (c: ProviderConfig)
    ensures
        c.id@ == "opencode-go"@,
        c.name@ == "OpenCode Go"@,
        c.kind == ProviderKind::OpenAiCompatible,
        c.base_url@ == "https://opencode.ai/zen/go/v1"@,
        c.model@ == "deepseek-v4-flash"@,
        !c.is_default,
        c.created_at@ == created_at@,
{
    ProviderConfig {
        id: String::from_str(OPENCODE_GO_PROVIDER_ID),
        name: String::from_str("OpenCode Go"),
        kind: ProviderKind::OpenAiCompatible,
        base_url: String::from_str(OPENCODE_GO_BASE_URL),
        model: String::from_str(OPENCODE_GO_DEFAULT_MODEL),
        is_default: false,
        created_at,
    }
}

/// The default chosen at start-up: OpenCode Go when a key for it exists,
/// the offline mock otherwise.
pub fn preferred_default(opencode_has_key: bool) -> (id: &'static str)
    ensures
        id@ == (if opencode_has_key { "opencode-go"@ } else { "mock"@ }),
{
    if opencode_has_key {
        OPENCODE_GO_PROVIDER_ID
    } else {
        MOCK_PROVIDER_ID
    }
}

/// Some row of `rows` has the id `id`.
pub open spec fn has_provider(rows: Seq<ProviderConfig>, id: Seq<char>) -> bool {
    exists|i: int| 0 <= i < rows.len() && (#[trigger] rows[i]).id@ == id
}

/// No two rows of `rows` share an id (the table's primary key).
pub open spec fn ids_unique(rows: Seq<ProviderConfig>) -> bool {
    forall|i: int, j: int| 0 <= i < j < rows.len() ==> (#[trigger] rows[i]).id@ != (#[trigger] rows[j]).id@
}

/// `c` is the mock provider's seed row (any creation time).
pub open spec fn is_mock_seed(c: ProviderConfig) -> bool {
    &&& c.id@ == "mock"@
    &&& c.name@ == "Mock"@
    &&& c.kind == ProviderKind::Mock
    &&& c.base_url@ == Seq::<char>::empty()
    &&& c.model@ == "mock/model"@
    &&& !c.is_default
}

/// `c` is OpenCode Go's seed row (any creation time).
pub open spec fn is_opencode_seed(c: ProviderConfig) -> bool {
    &&& c.id@ == "opencode-go"@
    &&& c.name@ == "OpenCode Go"@
    &&& c.kind == ProviderKind::OpenAiCompatible
    &&& c.base_url@ == "https://opencode.ai/zen/go/v1"@
    &&& c.model@ == "deepseek-v4-flash"@
    &&& !c.is_default
}

/// `seeds` are the rows start-up adds to `existing`: the mock's when no row
/// has its id, then OpenCode Go's when no row has its id.
pub open spec fn seeds_for(existing: Seq<ProviderConfig>, seeds: Seq<ProviderConfig>) -> bool {
    let need_mock = !has_provider(existing, "mock"@);
    let need_opencode = !has_provider(existing, "opencode-go"@);
    if need_mock && need_opencode {
        seeds.len() == 2 && is_mock_seed(seeds[0]) && is_opencode_seed(seeds[1])
    } else if need_mock {
        seeds.len() == 1 && is_mock_seed(seeds[0])
    } else if need_opencode {
        seeds.len() == 1 && is_opencode_seed(seeds[0])
    } else {
        seeds.len() == 0
    }
}

/// The rows with `id` made the one default (what setting the default does
/// to the table).
pub open spec fn with_default(rows: Seq<ProviderConfig>, id: Seq<char>) -> Seq<ProviderConfig> {
    rows.map_values(|c: ProviderConfig| ProviderConfig { is_default: c.id@ == id, ..c })
}

/// The provider table after start-up seeding: the seeds added, then the
/// preferred provider made the default.
pub open spec fn after_provider_seeding(
    existing: Seq<ProviderConfig>,
    seeds: Seq<ProviderConfig>,
    opencode_has_key: bool,
) -> Seq<ProviderConfig> {
    with_default(existing + seeds, if opencode_has_key { "opencode-go"@ } else { "mock"@ })
}

/// The built-in configs missing from `existing`, to be added at start-up,
/// each created now.
pub fn provider_seeds(existing: &Vec<ProviderConfig>) -> (r: Vec<ProviderConfig>)
    ensures
        seeds_for(existing@, r@),
        forall|i: int| 0 <= i < r@.len() ==> is_utc_rfc3339((#[trigger] r@[i]).created_at@),
{
    let mut has_mock = false;
    let mut has_opencode = false;
    let mut i: usize = 0;
    while i < existing.len()
        invariant
            i <= existing@.len(),
            has_mock == exists|j: int| 0 <= j < i && (#[trigger] existing@[j]).id@ == "mock"@,
            has_opencode == exists|j: int| 0 <= j < i && (#[trigger] existing@[j]).id@ == "opencode-go"@,
        decreases existing@.len() - i,
    {
        if str_eq(existing[i].id.as_str(), MOCK_PROVIDER_ID) {
            has_mock = true;
        }
        if str_eq(existing[i].id.as_str(), OPENCODE_GO_PROVIDER_ID) {
            has_opencode = true;
        }
        i = i + 1;
    }
    let mut seeds: Vec<ProviderConfig> = Vec::new();
    if !has_mock {
        seeds.push(mock_seed_config(now_rfc3339()));
    }
    if !has_opencode {
        seeds.push(opencode_seed_config(now_rfc3339()));
    }
    seeds
}

/// Seeding at start-up: afterwards both built-in providers exist, ids stay
/// unique, the rows there were before keep their id, name, kind, endpoint
/// and model, exactly one row is the default and it is the preferred one
/// (OpenCode Go when a key for it exists, the mock otherwise). Seeding
/// again adds no row, and with the same key availability changes nothing.
pub proof fn law_provider_seeding_is_idempotent(
    existing: Seq<ProviderConfig>,
    seeds: Seq<ProviderConfig>,
    opencode_has_key: bool,
    again: Seq<ProviderConfig>,
)
    requires
        ids_unique(existing),
        seeds_for(existing, seeds),
    ensures
        ({
            let after = after_provider_seeding(existing, seeds, opencode_has_key);
            let chosen = if opencode_has_key { "opencode-go"@ } else { "mock"@ };
            &&& has_provider(after, "mock"@)
            &&& has_provider(after, "opencode-go"@)
            &&& ids_unique(after)
            &&& after.len() >= existing.len()
            &&& forall|i: int|
                0 <= i < existing.len() ==> {
                    &&& (#[trigger] after[i]).id@ == existing[i].id@
                    &&& after[i].name@ == existing[i].name@
                    &&& after[i].kind == existing[i].kind
                    &&& after[i].base_url@ == existing[i].base_url@
                    &&& after[i].model@ == existing[i].model@
                }
            &&& exists|i: int| 0 <= i < after.len() && (#[trigger] after[i]).is_default && after[i].id@ == chosen
            &&& forall|i: int, j: int|
                0 <= i < after.len() && 0 <= j < after.len() && (#[trigger] after[i]).is_default
                    && (#[trigger] after[j]).is_default ==> i == j
            &&& seeds_for(after, again) ==> again.len() == 0 && after_provider_seeding(
                after,
                again,
                opencode_has_key,
            ) == after
        }),
{
    reveal_strlit("mock");
    reveal_strlit("opencode-go");
    let chosen = if opencode_has_key { "opencode-go"@ } else { "mock"@ };
    let all = existing + seeds;
    let after = with_default(all, chosen);
    assert("mock"@ != "opencode-go"@) by {
        assert("mock"@.len() != "opencode-go"@.len());
    }
    assert forall|i: int| 0 <= i < existing.len() implies #[trigger] all[i] == existing[i] by {}
    assert forall|i: int| 0 <= i < all.len() implies (#[trigger] after[i]).id@ == all[i].id@ by {}
    // Both built-ins are in `all`.
    assert(has_provider(all, "mock"@)) by {
        if has_provider(existing, "mock"@) {
            let i = choose|i: int| 0 <= i < existing.len() && (#[trigger] existing[i]).id@ == "mock"@;
            assert(all[i].id@ == "mock"@);
        } else {
            assert(all[existing.len() as int] == seeds[0]);
        }
    }
    assert(has_provider(all, "opencode-go"@)) by {
        if has_provider(existing, "opencode-go"@) {
            let i = choose|i: int| 0 <= i < existing.len() && (#[trigger] existing[i]).id@ == "opencode-go"@;
            assert(all[i].id@ == "opencode-go"@);
        } else if has_provider(existing, "mock"@) {
            assert(all[existing.len() as int] == seeds[0]);
        } else {
            assert(all[existing.len() as int + 1] == seeds[1]);
        }
    }
    assert(has_provider(after, "mock"@)) by {
        let i = choose|i: int| 0 <= i < all.len() && (#[trigger] all[i]).id@ == "mock"@;
        assert(after[i].id@ == "mock"@);
    }
    assert(has_provider(after, "opencode-go"@)) by {
        let i = choose|i: int| 0 <= i < all.len() && (#[trigger] all[i]).id@ == "opencode-go"@;
        assert(after[i].id@ == "opencode-go"@);
    }
    // Ids stay unique: seeds have the built-in ids, absent from `existing`.
    assert forall|i: int, j: int| 0 <= i < j < all.len() implies (#[trigger] all[i]).id@ != (#[trigger] all[j]).id@ by {
        if j >= existing.len() && i < existing.len() {
            assert(all[j] == seeds[j - existing.len()]);
            if all[j].id@ == "mock"@ {
                assert(existing[i].id@ != "mock"@);
            } else {
                assert(existing[i].id@ != "opencode-go"@);
            }
        } else if i >= existing.len() {
            assert(all[i] == seeds[i - existing.len()]);
            assert(all[j] == seeds[j - existing.len()]);
        }
    }
    assert forall|i: int, j: int| 0 <= i < j < after.len() implies (#[trigger] after[i]).id@ != (#[trigger] after[j]).id@ by {
        assert(all[i].id@ != all[j].id@);
    }
    // The chosen default is present, and it is the only default.
    assert(exists|i: int| 0 <= i < after.len() && (#[trigger] after[i]).is_default && after[i].id@ == chosen) by {
        let i = choose|i: int| 0 <= i < after.len() && (#[trigger] after[i]).id@ == chosen;
        assert(after[i].is_default);
    }
    assert forall|i: int, j: int|
        0 <= i < after.len() && 0 <= j < after.len() && (#[trigger] after[i]).is_default
            && (#[trigger] after[j]).is_default implies i == j by {
        if i < j {
            assert(after[i].id@ != after[j].id@);
        } else if j < i {
            assert(after[j].id@ != after[i].id@);
        }
    }
    // Seeding again adds nothing and changes nothing.
    if seeds_for(after, again) {
        assert(after + again =~= after);
        assert forall|i: int| 0 <= i < after.len() implies #[trigger] with_default(after, chosen)[i] == after[i] by {}
        assert(with_default(after, chosen) =~= after);
    }
}

/// The key a provider uses: for OpenCode Go a non-blank environment value
/// wins, otherwise the keyring's value (if any).
pub fn resolve_key(provider_id: &str, env_value: Option<String>, keyring_value: Option<String>) -> (r: Option<
    String,
>)
    ensures
        match env_value {
            Some(v) if provider_id@ == "opencode-go"@ && trim(v@).len() > 0 => r == Some(v),
            _ => r == keyring_value,
        },
{
    if str_eq(provider_id, OPENCODE_GO_PROVIDER_ID) {
        match env_value {
            Some(v) => {
                if trim_str(v.as_str()).unicode_len() > 0 {
                    return Some(v);
                }
            },
            None => {},
        }
    }
    keyring_value
}

/// The UI-facing info of a config: its fields, whether a key is available,
/// and whether it is the live default.
pub fn to_info(config: &ProviderConfig, has_key: bool, default_id: Option<&str>) -> (info: ProviderInfo)
    ensures
        info.id@ == config.id@,
        info.name@ == config.name@,
        info.kind == config.kind,
        info.base_url@ == config.base_url@,
        info.model@ == config.model@,
        info.has_key == has_key,
        info.is_default == (default_id matches Some(d) && d@ == config.id@),
{
    let is_default = match default_id {
        Some(d) => str_eq(d, config.id.as_str()),
        None => false,
    };
    ProviderInfo {
        id: config.id.clone(),
        name: config.name.clone(),
        kind: config.kind,
        base_url: config.base_url.clone(),
        model: config.model.clone(),
        has_key,
        is_default,
    }
}

/// An adapter built from a config.
pub enum BuiltAdapter {
    Mock(MockProvider),
    OpenAiCompatible(OpenAiCompatibleProvider),
}

/// The adapter a config builds: a mock answering with the fixed template, or
/// an OpenAI-compatible adapter with the resolved key (empty when there is
/// none, so the first call fails with a clear error) and, for OpenCode Go
/// only, the static model catalog.
pub fn build_adapter(config: &ProviderConfig, key: Option<String>) -> (r: BuiltAdapter)
    ensures
        match config.kind {
            ProviderKind::Mock => r matches BuiltAdapter::Mock(m) && m.id_view() == config.id@ && m.model_view()
                == config.model@ && m.template_view() == MOCK_REPLY_TEMPLATE@ && m.simulates_tools(),
            ProviderKind::OpenAiCompatible => r matches BuiltAdapter::OpenAiCompatible(p) && p.id_view()
                == config.id@ && p.base_view() == strip_trailing(config.base_url@, '/') && p.key_view() == (
            match key {
                Some(k) => k@,
                None => Seq::<char>::empty(),
            }) && (if config.id@ == "opencode-go"@ {
                p.known_view().len() == opencode_go_catalog().len() && forall|i: int|
                    0 <= i < p.known_view().len() ==> describes(#[trigger] p.known_view()[i], opencode_go_catalog()[i])
            } else {
                p.known_view().len() == 0
            }),
        },
{
    match config.kind {
        ProviderKind::Mock => BuiltAdapter::Mock(
            MockProvider::new(config.id.as_str(), config.model.as_str(), MOCK_REPLY_TEMPLATE),
        ),
        ProviderKind::OpenAiCompatible => {
            let key = match key {
                Some(k) => k,
                None => String::new(),
            };
            let known = if str_eq(config.id.as_str(), OPENCODE_GO_PROVIDER_ID) {
                opencode_go_known_models()
            } else {
                Vec::new()
            };
            BuiltAdapter::OpenAiCompatible(
                OpenAiCompatibleProvider::new(config.id.as_str(), config.base_url.as_str(), key.as_str(), known),
            )
        },
    }
}

/// The tiny completion that proves a provider is configured and reachable.
pub fn probe_message() -> (m: ChatMessage)
    ensures
        m.role == Role::User,
        m.content@.len() == 1,
        crate::llm::block_text(m.content@[0]) == Some("Reply with exactly: OK"@),
{
    ChatMessage::text(Role::User, String::from_str("Reply with exactly: OK"))
}

/// The output budget of the probe completion.
pub const PROBE_MAX_TOKENS: u32 = 16;

/// What a probe reports: the text blocks of the reply joined by spaces.
pub fn probe_text(response: &CompletionResponse) -> (r: String)
    ensures
        r@ == join(texts_of(response.message.content@), " "@),
{
    join_texts(&response.message.content, " ")
}

} // verus!
