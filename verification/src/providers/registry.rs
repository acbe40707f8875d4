//! The provider registry: every registered adapter, plus the default choice.
//!
//! The registry is the single place the app asks "which provider do I
//! call?". Adapters are registered whenever a config or key changes; the
//! turn flow reads the default here. Sharing it between threads is the
//! caller's business (one lock around the whole registry).

use vstd::prelude::*;
use vstd::string::*;

use crate::errors::{AppError, Result};
use crate::text::str_eq;

verus! {

/// What a registry holds: adapters by id, the default id and the model to
/// request against the default provider.
pub struct RegistryModel<P> {
    pub adapters: Map<Seq<char>, P>,
    pub default_id: Option<Seq<char>>,
    pub default_model: Option<Seq<char>>,
}

/// The default id, when set, names a registered adapter.
pub open spec fn registry_wf<P>(m: RegistryModel<P>) -> bool {
    m.default_id matches Some(d) ==> m.adapters.contains_key(d)
}

/// The registry after registering `adapter` under `id`: it replaces any
/// adapter of that id, and becomes the default when there is none yet.
pub open spec fn after_register<P>(m: RegistryModel<P>, id: Seq<char>, adapter: P) -> RegistryModel<P> {
    RegistryModel {
        adapters: m.adapters.insert(id, adapter),
        default_id: if m.default_id is None {
            Some(id)
        } else {
            m.default_id
        },
        default_model: m.default_model,
    }
}

/// The message of the error for choosing an unregistered default.
pub open spec fn unknown_provider_message(id: Seq<char>) -> Seq<char> {
    "unknown provider: "@ + id
}

/// The message of the error for requiring an unregistered provider.
pub open spec fn not_configured_message(id: Seq<char>) -> Seq<char> {
    "provider not configured: "@ + id
}

/// The registry after choosing `id` as the default, or the message of the
/// error when no adapter has that id.
pub open spec fn after_set_default<P>(m: RegistryModel<P>, id: Seq<char>) -> core::result::Result<
    RegistryModel<P>,
    Seq<char>,
> {
    if m.adapters.contains_key(id) {
        Ok(RegistryModel { default_id: Some(id), ..m })
    } else {
        Err(unknown_provider_message(id))
    }
}

/// The registry after a config's adapter is rebuilt: the adapter is
/// registered, and when the config is the default one it becomes the
/// default provider and its model the default model, so both stay aligned
/// with the stored config.
pub open spec fn after_refresh<P>(m: RegistryModel<P>, id: Seq<char>, adapter: P, is_default: bool, model: Seq<char>) -> RegistryModel<P> {
    let registered = after_register(m, id, adapter);
    if is_default {
        RegistryModel { default_id: Some(id), default_model: Some(model), ..registered }
    } else {
        registered
    }
}

/// The adapter of the default provider.
pub open spec fn default_adapter<P>(m: RegistryModel<P>) -> Option<P> {
    match m.default_id {
        Some(d) => if m.adapters.contains_key(d) {
            Some(m.adapters[d])
        } else {
            None
        },
        None => None,
    }
}

/// Thread-unaware collection of provider adapters and the default selection.
pub struct ProviderRegistry<P> {
    /// Adapters by id, one entry per id, in registration order.
    entries: Vec<(String, P)>,
    /// Which provider id is the default (used when none is chosen).
    default_id: Option<String>,
    /// The model string to request against the default provider.
    default_model: Option<String>,
    adapters: Ghost<Map<Seq<char>, P>>,
}

/// The views of an optional string.
pub open spec fn opt_chars(o: Option<String>) -> Option<Seq<char>> {
    match o {
        Some(s) => Some(s@),
        None => None,
    }
}

impl<P> ProviderRegistry<P> {
    /// What the registry holds.
    pub closed spec fn model(&self) -> RegistryModel<P> {
        RegistryModel {
            adapters: self.adapters@,
            default_id: opt_chars(self.default_id),
            default_model: opt_chars(self.default_model),
        }
    }

    /// The entries agree with the model, one per registered id, and the
    /// default is registered.
    pub closed spec fn wf(&self) -> bool {
        &&& forall|i: int, j: int|
            0 <= i < j < self.entries@.len() ==> (#[trigger] self.entries@[i]).0@ != (
            #[trigger] self.entries@[j]).0@
        &&& forall|i: int|
            0 <= i < self.entries@.len() ==> self.adapters@.contains_key((#[trigger] self.entries@[i]).0@)
                && self.adapters@[self.entries@[i].0@] == self.entries@[i].1
        &&& forall|k: Seq<char>| #[trigger]
            self.adapters@.contains_key(k) ==> exists|i: int|
                0 <= i < self.entries@.len() && (#[trigger] self.entries@[i]).0@ == k
        &&& registry_wf(self.model())
    }

    /// Create an empty registry.
    pub fn new() -> (r: ProviderRegistry<P>)
        ensures
            r.wf(),
            r.model() == (RegistryModel::<P> { adapters: Map::empty(), default_id: None, default_model: None }),
    {
        ProviderRegistry { entries: Vec::new(), default_id: None, default_model: None, adapters: Ghost(Map::empty()) }
    }

    /// Position of the entry with id `id`.
    fn position(&self, id: &str) -> (r: Option<usize>)
        requires
            self.wf(),
        ensures
            match r {
                Some(i) => i < self.entries@.len() && self.entries@[i as int].0@ == id@,
                None => !self.model().adapters.contains_key(id@),
            },
    {
        let mut i: usize = 0;
        while i < self.entries.len()
            invariant
                i <= self.entries@.len(),
                forall|j: int| 0 <= j < i ==> (#[trigger] self.entries@[j]).0@ != id@,
            decreases self.entries@.len() - i,
        {
            if str_eq(self.entries[i].0.as_str(), id) {
                return Some(i);
            }
            i = i + 1;
        }
        proof {
            if self.adapters@.contains_key(id@) {
                let k = choose|k: int| 0 <= k < self.entries@.len() && (#[trigger] self.entries@[k]).0@ == id@;
                assert(self.entries@[k].0@ != id@);
            }
        }
        None
    }

    /// Register (or replace) an adapter under its id; the first registered
    /// provider becomes the default.
    pub fn register(&mut self, id: String, adapter: P)
        requires
            old(self).wf(),
        ensures
            final(self).wf(),
            final(self).model() == after_register(old(self).model(), id@, adapter),
    {
        let ghost old_entries = self.entries@;
        let ghost old_map = self.adapters@;
        let ghost id_view = id@;
        let ghost new_map = old_map.insert(id_view, adapter);
        let becomes_default = self.default_id.is_none();
        let id_copy = id.clone();
        match self.position(id.as_str()) {
            Some(i) => {
                self.entries.set(i, (id, adapter));
                self.adapters = Ghost(new_map);
                proof {
                    assert forall|a: int, b: int|
                        0 <= a < b < self.entries@.len() implies (#[trigger] self.entries@[a]).0@ != (
                        #[trigger] self.entries@[b]).0@ by {
                        assert(old_entries[a].0@ != old_entries[b].0@);
                    }
                    assert forall|a: int|
                        0 <= a < self.entries@.len() implies self.adapters@.contains_key(
                        (#[trigger] self.entries@[a]).0@,
                    ) && self.adapters@[self.entries@[a].0@] == self.entries@[a].1 by {
                        if a != i {
                            assert(old_entries[a].0@ != old_entries[i as int].0@) by {
                                if a < i {
                                    assert(old_entries[a].0@ != old_entries[i as int].0@);
                                } else {
                                    assert(old_entries[i as int].0@ != old_entries[a].0@);
                                }
                            }
                        }
                    }
                    assert forall|k: Seq<char>| #[trigger]
                        self.adapters@.contains_key(k) implies exists|a: int|
                        0 <= a < self.entries@.len() && (#[trigger] self.entries@[a]).0@ == k by {
                        if k == id_view {
                            assert(self.entries@[i as int].0@ == k);
                        } else {
                            let a = choose|a: int| 0 <= a < old_entries.len() && (#[trigger] old_entries[a]).0@ == k;
                            assert(self.entries@[a].0@ == k);
                        }
                    }
                }
            },
            None => {
                self.entries.push((id, adapter));
                self.adapters = Ghost(new_map);
                proof {
                    let n = old_entries.len() as int;
                    assert forall|a: int, b: int|
                        0 <= a < b < self.entries@.len() implies (#[trigger] self.entries@[a]).0@ != (
                        #[trigger] self.entries@[b]).0@ by {
                        if b < n {
                            assert(old_entries[a].0@ != old_entries[b].0@);
                        } else {
                            assert(old_map.contains_key(old_entries[a].0@));
                        }
                    }
                    assert forall|a: int|
                        0 <= a < self.entries@.len() implies self.adapters@.contains_key(
                        (#[trigger] self.entries@[a]).0@,
                    ) && self.adapters@[self.entries@[a].0@] == self.entries@[a].1 by {
                        if a < n {
                            assert(old_map.contains_key(old_entries[a].0@));
                            assert(old_entries[a].0@ != id_view);
                        }
                    }
                    assert forall|k: Seq<char>| #[trigger]
                        self.adapters@.contains_key(k) implies exists|a: int|
                        0 <= a < self.entries@.len() && (#[trigger] self.entries@[a]).0@ == k by {
                        if k == id_view {
                            assert(self.entries@[n].0@ == k);
                        } else {
                            let a = choose|a: int| 0 <= a < old_entries.len() && (#[trigger] old_entries[a]).0@ == k;
                            assert(self.entries@[a].0@ == k);
                        }
                    }
                }
            },
        }
        if becomes_default {
            self.default_id = Some(id_copy);
        }
    }

    /// Record the model to request against the default provider.
    pub fn set_default_model(&mut self, model: String)
        requires
            old(self).wf(),
        ensures
            final(self).wf(),
            final(self).model() == (RegistryModel { default_model: Some(model@), ..old(self).model() }),
    {
        let ghost before = *self;
        self.default_model = Some(model);
        proof {
            assert(self.entries@ == before.entries@);
            assert forall|k: Seq<char>| #[trigger]
                self.adapters@.contains_key(k) implies exists|i: int|
                0 <= i < self.entries@.len() && (#[trigger] self.entries@[i]).0@ == k by {
                let i = choose|i: int| 0 <= i < before.entries@.len() && (#[trigger] before.entries@[i]).0@ == k;
                assert(self.entries@[i].0@ == k);
            }
        }
    }

    /// The model string for the default provider, if configured.
    pub fn default_model(&self) -> (r: Option<String>)
        ensures
            opt_chars(r) == self.model().default_model,
    {
        match &self.default_model {
            Some(m) => Some(m.clone()),
            None => None,
        }
    }

    /// The adapter registered under `id`.
    pub fn get(&self, id: &str) -> (r: Option<&P>)
        requires
            self.wf(),
        ensures
            match r {
                Some(a) => self.model().adapters.contains_key(id@) && *a == self.model().adapters[id@],
                None => !self.model().adapters.contains_key(id@),
            },
    {
        match self.position(id) {
            Some(i) => Some(&self.entries[i].1),
            None => None,
        }
    }

    /// The current default adapter.
    pub fn get_default(&self) -> (r: Option<&P>)
        requires
            self.wf(),
        ensures
            match r {
                Some(a) => default_adapter(self.model()) == Some(*a),
                None => default_adapter(self.model()) is None,
            },
    {
        match &self.default_id {
            Some(d) => self.get(d.as_str()),
            None => None,
        }
    }

    /// The id of the default provider.
    pub fn default_id(&self) -> (r: Option<&str>)
        ensures
            match r {
                Some(d) => self.model().default_id == Some(d@),
                None => self.model().default_id is None,
            },
    {
        match &self.default_id {
            Some(d) => Some(d.as_str()),
            None => None,
        }
    }

    /// All registered provider ids, each once.
    pub fn ids(&self) -> (r: Vec<String>)
        requires
            self.wf(),
        ensures
            forall|i: int, j: int| 0 <= i < j < r@.len() ==> (#[trigger] r@[i])@ != (#[trigger] r@[j])@,
            forall|k: Seq<char>|
                self.model().adapters.contains_key(k) <==> exists|i: int| 0 <= i < r@.len() && (#[trigger] r@[i])@ == k,
    {
        let mut out: Vec<String> = Vec::new();
        let mut i: usize = 0;
        while i < self.entries.len()
            invariant
                self.wf(),
                i <= self.entries@.len(),
                out@.len() == i,
                forall|j: int| 0 <= j < i ==> (#[trigger] out@[j])@ == self.entries@[j].0@,
            decreases self.entries@.len() - i,
        {
            out.push(self.entries[i].0.clone());
            i = i + 1;
        }
        proof {
            assert forall|a: int, b: int| 0 <= a < b < out@.len() implies (#[trigger] out@[a])@ != (
            #[trigger] out@[b])@ by {
                assert(self.entries@[a].0@ != self.entries@[b].0@);
            }
            assert forall|k: Seq<char>|
                self.model().adapters.contains_key(k) <==> exists|a: int|
                    0 <= a < out@.len() && (#[trigger] out@[a])@ == k by {
                if self.adapters@.contains_key(k) {
                    let a = choose|a: int| 0 <= a < self.entries@.len() && (#[trigger] self.entries@[a]).0@ == k;
                    assert(out@[a]@ == k);
                }
                if exists|a: int| 0 <= a < out@.len() && (#[trigger] out@[a])@ == k {
                    let a = choose|a: int| 0 <= a < out@.len() && (#[trigger] out@[a])@ == k;
                    assert(self.entries@[a].0@ == k);
                }
            }
        }
        out
    }

    /// Register the adapter rebuilt for a stored config; when the config is
    /// the default one, make it the default provider and its model the
    /// default model.
    pub fn refresh(&mut self, id: String, adapter: P, is_default: bool, model: String)
        requires
            old(self).wf(),
        ensures
            final(self).wf(),
            final(self).model() == after_refresh(old(self).model(), id@, adapter, is_default, model@),
    {
        let key = id.clone();
        self.register(id, adapter);
        if is_default {
            let _registered = self.set_default(key.as_str());
            self.set_default_model(model);
        }
    }

    /// Set the default provider id; an unregistered id is refused and
    /// nothing changes.
    pub fn set_default(&mut self, id: &str) -> (r: Result<()>)
        requires
            old(self).wf(),
        ensures
            final(self).wf(),
            match after_set_default(old(self).model(), id@) {
                Ok(m) => r is Ok && final(self).model() == m,
                Err(msg) => r matches Err(e) && e is Config && e.detail() == msg && final(self).model() == old(
                    self,
                ).model(),
            },
    {
        match self.position(id) {
            Some(_) => {
                let ghost before = *self;
                self.default_id = Some(String::from_str(id));
                proof {
                    assert(self.entries@ == before.entries@);
                    assert forall|k: Seq<char>| #[trigger]
                        self.adapters@.contains_key(k) implies exists|i: int|
                        0 <= i < self.entries@.len() && (#[trigger] self.entries@[i]).0@ == k by {
                        let i = choose|i: int|
                            0 <= i < before.entries@.len() && (#[trigger] before.entries@[i]).0@ == k;
                        assert(self.entries@[i].0@ == k);
                    }
                }
                Ok(())
            },
            None => Err(AppError::Config(String::from_str("unknown provider: ").concat(id))),
        }
    }

    /// Require a provider by id, with a typed error if absent.
    pub fn require(&self, id: &str) -> (r: Result<&P>)
        requires
            self.wf(),
        ensures
            match r {
                Ok(a) => self.model().adapters.contains_key(id@) && *a == self.model().adapters[id@],
                Err(e) => !self.model().adapters.contains_key(id@) && e is Config && e.detail()
                    == not_configured_message(id@),
            },
    {
        match self.get(id) {
            Some(a) => Ok(a),
            None => Err(AppError::Config(String::from_str("provider not configured: ").concat(id))),
        }
    }

    /// Require the default provider, with a typed error if absent.
    pub fn require_default(&self) -> (r: Result<&P>)
        requires
            self.wf(),
        ensures
            match r {
                Ok(a) => default_adapter(self.model()) == Some(*a),
                Err(e) => default_adapter(self.model()) is None && e is Config && e.detail()
                    == "no default provider configured"@,
            },
    {
        match self.get_default() {
            Some(a) => Ok(a),
            None => Err(AppError::Config(String::from_str("no default provider configured"))),
        }
    }
}

impl<P> Default for ProviderRegistry<P> {
    /// An empty registry.
    fn default() -> (r: ProviderRegistry<P>)
        ensures
            r.wf(),
            r.model() == (RegistryModel::<P> { adapters: Map::empty(), default_id: None, default_model: None }),
    {
        ProviderRegistry::new()
    }
}

/// The first provider registered into a registry without a default becomes
/// the default.
pub proof fn law_first_registered_becomes_default<P>(m: RegistryModel<P>, id: Seq<char>, adapter: P)
    requires
        m.default_id is None,
    ensures
        default_adapter(after_register(m, id, adapter)) == Some(adapter),
{
}

/// Registering never changes an existing default choice.
pub proof fn law_register_keeps_default<P>(m: RegistryModel<P>, id: Seq<char>, adapter: P)
    requires
        m.default_id is Some,
    ensures
        after_register(m, id, adapter).default_id == m.default_id,
{
}

/// After registering an adapter, looking its id up gives that adapter.
pub proof fn law_register_then_lookup<P>(m: RegistryModel<P>, id: Seq<char>, adapter: P)
    ensures
        after_register(m, id, adapter).adapters.contains_key(id),
        after_register(m, id, adapter).adapters[id] == adapter,
{
}

/// Registering and choosing the default keep the default a registered id.
pub proof fn law_default_stays_registered<P>(m: RegistryModel<P>, id: Seq<char>, adapter: P)
    requires
        registry_wf(m),
    ensures
        registry_wf(after_register(m, id, adapter)),
        after_set_default(m, id) matches Ok(m2) ==> registry_wf(m2),
{
}

/// Choosing a registered provider as default makes its adapter the default
/// one; choosing an unknown id is refused with nothing changed.
pub proof fn law_set_default<P>(m: RegistryModel<P>, id: Seq<char>)
    ensures
        m.adapters.contains_key(id) ==> (after_set_default(m, id) matches Ok(m2) && default_adapter(m2) == Some(
            m.adapters[id],
        )),
        !m.adapters.contains_key(id) ==> after_set_default(m, id) == Err::<RegistryModel<P>, Seq<char>>(
            unknown_provider_message(id),
        ),
{
}

/// Rebuilding the default config's adapter leaves the registry pointing at
/// that adapter and at the config's model; rebuilding another config's
/// adapter keeps the default provider and model as they were (once there
/// is a default).
pub proof fn law_refresh_keeps_default_aligned<P>(
    m: RegistryModel<P>,
    id: Seq<char>,
    adapter: P,
    is_default: bool,
    model: Seq<char>,
)
    ensures
        is_default ==> default_adapter(after_refresh(m, id, adapter, is_default, model)) == Some(adapter)
            && after_refresh(m, id, adapter, is_default, model).default_model == Some(model),
        !is_default && m.default_id is Some ==> after_refresh(m, id, adapter, is_default, model).default_id
            == m.default_id && after_refresh(m, id, adapter, is_default, model).default_model == m.default_model,
        registry_wf(m) ==> registry_wf(after_refresh(m, id, adapter, is_default, model)),
{
}

} // verus!
