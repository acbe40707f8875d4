//! Campaigns: each roleplay session is a campaign, the root aggregate that
//! owns its characters, transcript, world state and memories.

use vstd::prelude::*;
use vstd::string::*;

use crate::errors::{checked_by, AppError, Result};
use crate::ids::{is_utc_rfc3339, is_uuid_v4_text, new_id, now_rfc3339};
use crate::json::{JsonModel, JsonValue};
use crate::text::{str_eq, trim, trim_str, utf8_len, utf8_len_exceeds};

verus! {

/// Maximum length of a campaign name; names are kept short for sidebars/UI.
pub const MAX_NAME_LENGTH: usize = 120;

/// The lifecycle state of a campaign (a closed state machine).
///
/// The GM asks clarifying questions while `Setup`, generates the world and
/// characters during the transient `Worldgen` turn, then narrates normally
/// once `Active`. The status is backend-driven only.
#[derive(Debug, Clone, Copy, PartialEq, Eq, Structural)]
pub enum CampaignStatus {
    /// The GM is asking questions before the world exists.
    Setup,
    /// A world-generation turn is in flight (single-flight guard).
    Worldgen,
    /// Normal play: the world exists and the story runs.
    Active,
}

/// The stable wire name of a status.
pub open spec fn status_wire(status: CampaignStatus) -> Seq<char> {
    match status {
        CampaignStatus::Setup => "setup"@,
        CampaignStatus::Worldgen => "worldgen"@,
        CampaignStatus::Active => "active"@,
    }
}

/// The status a wire name denotes; unknown names fall back to `Setup`.
pub open spec fn status_from_wire_text(value: Seq<char>) -> CampaignStatus {
    if value == "worldgen"@ {
        CampaignStatus::Worldgen
    } else if value == "active"@ {
        CampaignStatus::Active
    } else {
        CampaignStatus::Setup
    }
}

impl CampaignStatus {
    /// Stable wire name used in persistence and IPC.
    pub fn as_str(&self) -> (s: &'static str)
        ensures
            s@ == status_wire(*self),
    {
        match self {
            CampaignStatus::Setup => "setup",
            CampaignStatus::Worldgen => "worldgen",
            CampaignStatus::Active => "active",
        }
    }

    /// Inverse of [`CampaignStatus::as_str`]; unknown strings fall back to
    /// `Setup` so malformed values degrade gracefully.
    pub fn from_wire(value: &str) -> (r: CampaignStatus)
        ensures
            r == status_from_wire_text(value@),
    {
        if str_eq(value, "worldgen") {
            CampaignStatus::Worldgen
        } else if str_eq(value, "active") {
            CampaignStatus::Active
        } else {
            CampaignStatus::Setup
        }
    }
}

/// Reading back a status's wire name gives the status again.
pub proof fn lemma_status_wire_round_trip(status: CampaignStatus)
    ensures
        status_from_wire_text(status_wire(status)) == status,
{
    reveal_strlit("setup");
    reveal_strlit("worldgen");
    reveal_strlit("active");
    match status {
        CampaignStatus::Setup => {
            assert("setup"@.len() != "worldgen"@.len());
            assert("setup"@.len() != "active"@.len());
        },
        CampaignStatus::Worldgen => {},
        CampaignStatus::Active => {
            assert("active"@.len() != "worldgen"@.len());
        },
    }
}

/// A roleplay session. Owns everything below it in the aggregate.
#[derive(Debug)]
pub struct Campaign {
    /// Backend-generated UUID (v4); clients never supply it.
    pub id: String,
    /// Short display name; validated, then trimmed.
    pub name: String,
    /// Free-text summary shown on the campaign list screen.
    pub description: String,
    /// Optional GM "brain" preset; `None` falls back to default behaviour.
    pub ruleset_id: Option<String>,
    /// Which lifecycle phase the campaign is in (drives the GM prompt).
    pub status: CampaignStatus,
    /// Free-form JSON settings (per-campaign model hint, flags, ...).
    pub settings: JsonValue,
    /// RFC 3339 timestamp, set once at insert; drives newest-first lists.
    pub created_at: String,
    /// RFC 3339 timestamp, refreshed by every update.
    pub updated_at: String,
}

/// Input for creating a campaign.
#[derive(Debug)]
pub struct NewCampaign {
    /// Display name; the only field validated at this boundary.
    pub name: String,
    /// Optional free-text summary.
    pub description: String,
    /// Optional ruleset preset; `None` means default GM behaviour.
    pub ruleset_id: Option<String>,
}

/// Input for updating a campaign (full replace of the editable fields).
#[derive(Debug)]
pub struct UpdateCampaign {
    /// New display name; replaces the stored one wholesale.
    pub name: String,
    /// New summary; replaces the stored one wholesale.
    pub description: String,
    /// New ruleset link; `None` clears it (full replace).
    pub ruleset_id: Option<String>,
}

/// Why a campaign name is refused, if it is: blank once trimmed, or longer
/// than the limit once trimmed.
pub open spec fn name_error(name: Seq<char>) -> Option<Seq<char>> {
    if trim(name).len() == 0 {
        Some("campaign name must not be empty"@)
    } else if utf8_len(trim(name)) > MAX_NAME_LENGTH {
        Some("campaign name is too long (max 120 chars)"@)
    } else {
        None
    }
}

/// Validate a campaign name (trimmed form, so padding cannot pass or hide).
pub fn validate_name(name: &str) -> (r: Result<()>)
    ensures
        checked_by(r, name_error(name@)),
{
    let trimmed = trim_str(name);
    if trimmed.unicode_len() == 0 {
        return Err(AppError::Domain(String::from_str("campaign name must not be empty")));
    }
    if utf8_len_exceeds(trimmed, MAX_NAME_LENGTH) {
        return Err(AppError::Domain(String::from_str("campaign name is too long (max 120 chars)")));
    }
    Ok(())
}

impl NewCampaign {
    /// Validate creation input before it reaches storage.
    pub fn validate(&self) -> (r: Result<()>)
        ensures
            checked_by(r, name_error(self.name@)),
    {
        validate_name(self.name.as_str())
    }
}

impl UpdateCampaign {
    /// Validate update input before it reaches storage.
    pub fn validate(&self) -> (r: Result<()>)
        ensures
            checked_by(r, name_error(self.name@)),
    {
        validate_name(self.name.as_str())
    }
}

/// Two optional strings hold the same text.
pub open spec fn same_opt_text(a: Option<String>, b: Option<String>) -> bool {
    match (a, b) {
        (Some(x), Some(y)) => x@ == y@,
        (None, None) => true,
        _ => false,
    }
}

/// Build the campaign a valid creation input describes, with the given id
/// and time: name and description trimmed, a fresh campaign in `Setup` with
/// empty settings, created and updated now.
pub fn campaign_from_input(input: NewCampaign, id: String, now: String) -> (r: Result<Campaign>)
    ensures
        match name_error(input.name@) {
            Some(msg) => r matches Err(e) && e is Domain && e.detail() == msg,
            None => r matches Ok(c) && c.id@ == id@ && c.name@ == trim(input.name@) && c.description@
                == trim(input.description@) && same_opt_text(c.ruleset_id, input.ruleset_id)
                && c.status == CampaignStatus::Setup && c.settings@ == JsonModel::Object(Seq::empty())
                && c.created_at@ == now@ && c.updated_at@ == now@,
        },
{
    match input.validate() {
        Ok(()) => {},
        Err(e) => return Err(e),
    }
    let created_at = now.clone();
    Ok(Campaign {
        id,
        name: String::from_str(trim_str(input.name.as_str())),
        description: String::from_str(trim_str(input.description.as_str())),
        ruleset_id: input.ruleset_id,
        status: CampaignStatus::Setup,
        settings: JsonValue::empty_object(),
        created_at,
        updated_at: now,
    })
}

/// Build a new campaign from input with a fresh id and the current time.
pub fn prepare_campaign(input: NewCampaign) -> (r: Result<Campaign>)
    ensures
        match name_error(input.name@) {
            Some(msg) => r matches Err(e) && e is Domain && e.detail() == msg,
            None => r matches Ok(c) && is_uuid_v4_text(c.id@) && is_utc_rfc3339(c.created_at@) && c.name@ == trim(input.name@) && c.description@
                == trim(input.description@) && same_opt_text(c.ruleset_id, input.ruleset_id)
                && c.status == CampaignStatus::Setup && c.settings@ == JsonModel::Object(Seq::empty())
                && c.created_at@ == c.updated_at@,
        },
{
    match input.validate() {
        Ok(()) => {},
        Err(e) => return Err(e),
    }
    let id = new_id();
    let now = now_rfc3339();
    campaign_from_input(input, id, now)
}

/// Apply an update to a stored campaign: the editable fields are replaced
/// (trimmed), identity, status, settings and creation time are kept, and the
/// update time is `now`.
pub fn updated_campaign(existing: Campaign, input: UpdateCampaign, now: String) -> (r: Result<Campaign>)
    ensures
        match name_error(input.name@) {
            Some(msg) => r matches Err(e) && e is Domain && e.detail() == msg,
            None => r matches Ok(c) && c.id@ == existing.id@ && c.name@ == trim(input.name@)
                && c.description@ == trim(input.description@) && same_opt_text(c.ruleset_id, input.ruleset_id)
                && c.status == existing.status && c.settings@ == existing.settings@ && c.created_at@
                == existing.created_at@ && c.updated_at@ == now@,
        },
{
    match input.validate() {
        Ok(()) => {},
        Err(e) => return Err(e),
    }
    Ok(Campaign {
        id: existing.id,
        name: String::from_str(trim_str(input.name.as_str())),
        description: String::from_str(trim_str(input.description.as_str())),
        ruleset_id: input.ruleset_id,
        status: existing.status,
        settings: existing.settings,
        created_at: existing.created_at,
        updated_at: now,
    })
}

} // verus!
