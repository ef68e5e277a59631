//! New definitions and events: fresh identifiers and the current time.

use crate::model::{
    AutomationDefinition, AutomationEvent, AutomationTrigger, DefinitionModel, EventModel, RunMode,
    TriggerModel,
};
use crate::text_map::TextMap;
use crate::time::{utc_now, Timestamp};
use uuid::Uuid;
use vstd::prelude::*;

verus! {

/// The hyphenated form of a UUID: groups of 8, 4, 4, 4 and 12 lower-case hexadecimal digits.
pub open spec fn is_uuid_text(text: Seq<char>) -> bool {
    &&& text.len() == 36
    &&& forall|i: int|
        0 <= i < 36 ==> if i == 8 || i == 13 || i == 18 || i == 23 {
            #[trigger] text[i] == '-'
        } else {
            '0' <= text[i] <= '9' || 'a' <= text[i] <= 'f'
        }
}

/// Calls `Uuid::new_v4` and writes the result in its hyphenated form. Which UUID it is depends on
/// chance.
#[verifier::external_body]
pub(crate) fn fresh_id() -> (r: String)
    ensures
        is_uuid_text(r@),
{
    Uuid::new_v4().to_string()
}

/// An enabled definition without a name, conditions and steps.
pub open spec fn blank_definition(
    id: Seq<char>,
    trigger: TriggerModel,
    created_at: Timestamp,
    updated_at: Timestamp,
) -> DefinitionModel {
    DefinitionModel {
        id,
        name: Seq::empty(),
        enabled: true,
        trigger,
        conditions: Seq::empty(),
        steps: Seq::empty(),
        run_mode: RunMode::Automatic,
        revision: 0,
        created_at,
        updated_at,
        legacy_id: None,
    }
}

/// An event that tells nothing but its kind.
pub open spec fn blank_event(id: Seq<char>, kind: Seq<char>, occurred_at: Timestamp) -> EventModel {
    EventModel {
        id,
        kind,
        occurred_at,
        variables: Map::empty(),
        origin_automation_id: None,
    }
}

impl AutomationDefinition {
    /// A definition to be filled in, under the given identifier and times.
    pub fn with_identity(
        id: String,
        trigger: AutomationTrigger,
        created_at: Timestamp,
        updated_at: Timestamp,
    ) -> (r: Self)
        ensures
            r@ == blank_definition(id@, trigger@, created_at, updated_at),
    {
        let r = AutomationDefinition {
            id,
            name: String::new(),
            enabled: true,
            trigger,
            conditions: Vec::new(),
            steps: Vec::new(),
            run_mode: RunMode::Automatic,
            revision: 0,
            created_at,
            updated_at,
            legacy_id: None,
        };
        assert(r@ =~= blank_definition(id@, trigger@, created_at, updated_at));
        r
    }

    /// A definition to be filled in, under a fresh identifier.
    pub fn new(trigger: AutomationTrigger) -> (r: Self)
        ensures
            is_uuid_text(r@.id),
            r.created_at.wf(),
            r.updated_at.wf(),
            r@ == blank_definition(r@.id, trigger@, r.created_at, r.updated_at),
    {
        AutomationDefinition::with_identity(fresh_id(), trigger, utc_now(), utc_now())
    }
}

impl AutomationEvent {
    /// An event under the given identifier and time.
    pub fn with_identity(id: String, kind: &str, occurred_at: Timestamp) -> (r: Self)
        ensures
            r@ == blank_event(id@, kind@, occurred_at),
    {
        AutomationEvent {
            id,
            kind: kind.to_owned(),
            occurred_at,
            variables: TextMap::new(),
            origin_automation_id: None,
        }
    }

    /// An event of this moment, under a fresh identifier.
    pub fn new(kind: &str) -> (r: Self)
        ensures
            is_uuid_text(r@.id),
            r.occurred_at.wf(),
            r@ == blank_event(r@.id, kind@, r.occurred_at),
    {
        AutomationEvent::with_identity(fresh_id(), kind, utc_now())
    }
}

/// A new definition is enabled, runs automatically, has not been saved and holds nothing but its
/// trigger; a new event tells nothing but its kind and when it occurred, and no automation caused it.
pub proof fn law_new_definitions_and_events(
    id: Seq<char>,
    trigger: TriggerModel,
    kind: Seq<char>,
    at: Timestamp,
    later: Timestamp,
)
    ensures
        ({
            let definition = blank_definition(id, trigger, at, later);
            &&& definition.id == id
            &&& definition.name.len() == 0
            &&& definition.enabled
            &&& definition.trigger == trigger
            &&& definition.conditions.len() == 0
            &&& definition.steps.len() == 0
            &&& definition.run_mode == RunMode::Automatic
            &&& definition.revision == 0
            &&& definition.created_at == at
            &&& definition.updated_at == later
            &&& definition.legacy_id is None
        }),
        ({
            let event = blank_event(id, kind, at);
            &&& event.id == id
            &&& event.kind == kind
            &&& event.occurred_at == at
            &&& event.variables.dom() == Set::<Seq<char>>::empty()
            &&& event.origin_automation_id is None
        }),
{
}

} // verus!
