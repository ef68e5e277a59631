//! Saving definitions: limits, conflicts, revisions and the next time slot.

use crate::error::{invalid, AutomationError, ErrorModel};
use crate::model::{
    AutomationDefinition, AutomationIssue, AutomationTrigger, DefinitionModel, IssueModel,
    TriggerModel,
};
use crate::schedule;
use crate::text;
use crate::time::Timestamp;
use crate::validation;
use crate::validation::outcome;
use vstd::prelude::*;

verus! {

/// How many definitions can be saved.
pub const MAX_DEFINITIONS: usize = 256;

/// A new definition can be saved where there is room for it.
pub open spec fn capacity_rule(definition: DefinitionModel, stored: nat) -> Result<
    (),
    ErrorModel,
> {
    if definition.revision == 0 && stored >= MAX_DEFINITIONS {
        Err(ErrorModel::Invalid("no more than 256 automations can be saved"@))
    } else {
        Ok(())
    }
}

/// Another enabled definition listens to the same shortcut.
pub open spec fn shortcut_taken(
    definition: DefinitionModel,
    stored: Seq<DefinitionModel>,
) -> bool {
    definition.trigger is Hotkey && exists|i: int|
        0 <= i < stored.len() && takes_shortcut(#[trigger] stored[i], definition)
}

/// `other` is another enabled definition that listens to the shortcut of `definition`.
pub open spec fn takes_shortcut(other: DefinitionModel, definition: DefinitionModel) -> bool {
    &&& other.id != definition.id
    &&& other.enabled
    &&& other.trigger == definition.trigger
}

/// A definition can be enabled where it has no issues and its shortcut is free.
pub open spec fn enabling_rule(
    definition: DefinitionModel,
    issues: Seq<IssueModel>,
    stored: Seq<DefinitionModel>,
) -> Result<(), ErrorModel> {
    if !definition.enabled {
        Ok(())
    } else if issues.len() > 0 {
        Err(
            ErrorModel::Invalid(
                text::joined(issues.map_values(|issue: IssueModel| issue.message), "；"@),
            ),
        )
    } else if shortcut_taken(definition, stored) {
        Err(ErrorModel::Invalid("the shortcut is already used by another automation"@))
    } else {
        Ok(())
    }
}

/// What is written when a definition is saved: the definition itself and, where it is enabled and
/// scheduled, its next slot.
pub struct Revision {
    pub definition: AutomationDefinition,
    pub next_slot: Option<i64>,
}

/// What saving `definition` over `previous` comes to.
pub open spec fn revised(
    definition: DefinitionModel,
    previous: Option<DefinitionModel>,
    now: Timestamp,
) -> Result<DefinitionModel, ErrorModel> {
    match previous {
        Some(stored) => if stored.revision != definition.revision {
            Err(ErrorModel::Conflict)
        } else {
            Ok(
                DefinitionModel {
                    revision: definition.revision + 1,
                    created_at: stored.created_at,
                    legacy_id: stored.legacy_id,
                    updated_at: now,
                    ..definition
                },
            )
        },
        None => if definition.revision != 0 {
            Err(ErrorModel::Conflict)
        } else {
            Ok(DefinitionModel { revision: 1, created_at: now, updated_at: now, ..definition })
        },
    }
}

/// The slot that is stored with a definition.
pub open spec fn stored_slot(definition: DefinitionModel, now: Timestamp) -> Option<int> {
    if definition.enabled {
        schedule::next_slot(definition.trigger, now.seconds as int)
    } else {
        None
    }
}

/// What a request to save a definition comes to before it is compared with what is stored: there
/// has to be room, it has to be fit to be enabled, and it has to be valid, in that order.
pub open spec fn submission(
    definition: DefinitionModel,
    encoded: Result<nat, ErrorModel>,
    issues: Seq<IssueModel>,
    stored: Seq<DefinitionModel>,
) -> Result<(), ErrorModel> {
    validation::first_error(
        seq![
            capacity_rule(definition, stored.len()),
            enabling_rule(definition, issues, stored),
            validation::validation(definition, encoded),
        ],
    )
}

/// Checks that there is room for a new definition among `stored` ones.
pub fn check_capacity(definition: &AutomationDefinition, stored: usize) -> (r: Result<
    (),
    AutomationError,
>)
    ensures
        outcome(r) == capacity_rule(definition@, stored as nat),
{
    if definition.revision == 0 && stored >= MAX_DEFINITIONS {
        return Err(invalid("no more than 256 automations can be saved"));
    }
    Ok(())
}

/// Checks that a definition can be enabled, where it is to be.
pub fn check_enabling(
    definition: &AutomationDefinition,
    issues: &[AutomationIssue],
    stored: &[AutomationDefinition],
) -> (r: Result<(), AutomationError>)
    ensures
        outcome(r) == enabling_rule(definition@, text::views(issues@), text::views(stored@)),
{
    if !definition.enabled {
        return Ok(());
    }
    if issues.len() > 0 {
        let ghost messages = text::views(issues@).map_values(|issue: IssueModel| issue.message);
        let mut parts: Vec<String> = Vec::new();
        let mut i: usize = 0;
        while i < issues.len()
            invariant
                i <= issues@.len(),
                messages == text::views(issues@).map_values(|issue: IssueModel| issue.message),
                text::views(parts@) == messages.take(i as int),
            decreases issues@.len() - i,
        {
            let ghost before = text::views(parts@);
            parts.push(issues[i].message.clone());
            assert(text::views(parts@) =~= before.push(messages[i as int]));
            assert(messages.take(i + 1) =~= messages.take(i as int).push(messages[i as int]));
            i = i + 1;
        }
        assert(messages.take(i as int) =~= messages);
        return Err(AutomationError::Invalid(text::join(&parts, "；")));
    }
    if is_shortcut_taken(definition, stored) {
        return Err(invalid("the shortcut is already used by another automation"));
    }
    Ok(())
}

/// Checks a request to save a definition against all rules, in their order. `issues` are those of a
/// definition that is to be enabled, `encoded` is the size of the stored definition.
pub fn check_submission(
    definition: &AutomationDefinition,
    encoded: Result<usize, AutomationError>,
    issues: &[AutomationIssue],
    stored: &[AutomationDefinition],
) -> (r: Result<(), AutomationError>)
    ensures
        outcome(r) == submission(
            definition@,
            validation::encoded_size(encoded),
            text::views(issues@),
            text::views(stored@),
        ),
{
    proof {
        reveal_with_fuel(validation::first_error, 4);
    }
    match check_capacity(definition, stored.len()) {
        Ok(()) => match check_enabling(definition, issues, stored) {
            Ok(()) => validation::validate(definition, encoded),
            Err(e) => Err(e),
        },
        Err(e) => Err(e),
    }
}

/// Whether another enabled definition listens to the same shortcut.
fn is_shortcut_taken(definition: &AutomationDefinition, stored: &[AutomationDefinition]) -> (r:
    bool)
    ensures
        r == shortcut_taken(definition@, text::views(stored@)),
{
    let shortcut = match &definition.trigger {
        AutomationTrigger::Hotkey { shortcut } => shortcut,
        _ => {
            return false;
        },
    };
    let ghost models = text::views(stored@);
    let mut i: usize = 0;
    while i < stored.len()
        invariant
            i <= stored@.len(),
            models == text::views(stored@),
            definition@.trigger == (TriggerModel::Hotkey { shortcut: shortcut@ }),
            forall|k: int| 0 <= k < i ==> !takes_shortcut(#[trigger] models[k], definition@),
        decreases stored@.len() - i,
    {
        let other = &stored[i];
        assert(models[i as int] == other@);
        if other.enabled && !text::same_text(other.id.as_str(), definition.id.as_str()) {
            if let AutomationTrigger::Hotkey { shortcut: theirs } = &other.trigger {
                if text::same_text(theirs.as_str(), shortcut.as_str()) {
                    assert(takes_shortcut(models[i as int], definition@));
                    return true;
                }
            }
        }
        i = i + 1;
    }
    false
}

/// Turns a definition into its next revision. A definition that was changed since it was read is
/// a conflict, and so is one that claims a revision and is not stored.
pub fn revise(
    definition: AutomationDefinition,
    previous: Option<&AutomationDefinition>,
    now: Timestamp,
) -> (r: Result<Revision, AutomationError>)
    requires
        revised(
            definition@,
            match previous {
                Some(stored) => Some(stored@),
                None => None,
            },
            now,
        ) is Ok ==> definition.revision < u64::MAX && (definition.enabled
            && definition.trigger is Schedule ==> now.interior()),
    ensures
        match r {
            Ok(revision) => {
                &&& revised(
                    definition@,
                    match previous {
                        Some(stored) => Some(stored@),
                        None => None,
                    },
                    now,
                ) == Ok::<DefinitionModel, ErrorModel>(revision.definition@)
                &&& match revision.next_slot {
                    Some(slot) => definition.enabled && schedule::next_slot(
                        definition@.trigger,
                        now.seconds as int,
                    ) == Some(slot as int) && slot > now.seconds,
                    None => !definition.enabled || schedule::next_slot(
                        definition@.trigger,
                        now.seconds as int,
                    ) is None,
                }
                &&& match revision.next_slot {
                    Some(slot) => stored_slot(definition@, now) == Some(slot as int),
                    None => stored_slot(definition@, now) is None,
                }
            },
            Err(e) => revised(
                definition@,
                match previous {
                    Some(stored) => Some(stored@),
                    None => None,
                },
                now,
            ) == Err::<DefinitionModel, ErrorModel>(e@),
        },
{
    let mut definition = definition;
    match previous {
        Some(stored) => {
            if stored.revision != definition.revision {
                return Err(AutomationError::Conflict);
            }
            definition.created_at = stored.created_at;
            definition.legacy_id = match &stored.legacy_id {
                Some(id) => Some(id.clone()),
                None => None,
            };
        },
        None => {
            if definition.revision != 0 {
                return Err(AutomationError::Conflict);
            }
            definition.created_at = now;
        },
    }
    definition.revision = definition.revision + 1;
    definition.updated_at = now;
    let next_slot: Option<i64> = if definition.enabled {
        match schedule::next_schedule(&definition.trigger, now) {
            Some(slot) => Some(slot.seconds),
            None => None,
        }
    } else {
        None
    };
    Ok(Revision { definition, next_slot })
}

/// Of two changes to the same stored revision only the first is saved: once one is, the other is a
/// conflict.
pub proof fn law_no_lost_update(
    first: DefinitionModel,
    second: DefinitionModel,
    stored: DefinitionModel,
    at: Timestamp,
    later: Timestamp,
)
    requires
        first.revision == second.revision,
        revised(first, Some(stored), at) is Ok,
    ensures
        revised(second, Some(revised(first, Some(stored), at)->Ok_0), later) == Err::<
            DefinitionModel,
            ErrorModel,
        >(ErrorModel::Conflict),
{
}

/// What was saved can be saved again as it came back.
pub proof fn law_saved_definition_can_be_saved_again(
    definition: DefinitionModel,
    previous: Option<DefinitionModel>,
    at: Timestamp,
    later: Timestamp,
)
    requires
        revised(definition, previous, at) is Ok,
    ensures
        ({
            let saved = revised(definition, previous, at)->Ok_0;
            let again = revised(saved, Some(saved), later);
            &&& again is Ok
            &&& again->Ok_0.revision == definition.revision + 2
        }),
{
}

/// When a definition was created, and what it was migrated from, never change once it is stored.
pub proof fn law_origin_is_kept(
    definition: DefinitionModel,
    stored: DefinitionModel,
    now: Timestamp,
)
    requires
        revised(definition, Some(stored), now) is Ok,
    ensures
        revised(definition, Some(stored), now)->Ok_0.created_at == stored.created_at,
        revised(definition, Some(stored), now)->Ok_0.legacy_id == stored.legacy_id,
{
}

/// Saving changes nothing of what a definition does.
pub proof fn law_saving_keeps_the_content(
    definition: DefinitionModel,
    previous: Option<DefinitionModel>,
    now: Timestamp,
)
    requires
        revised(definition, previous, now) is Ok,
    ensures
        ({
            let saved = revised(definition, previous, now)->Ok_0;
            &&& saved.id == definition.id
            &&& saved.name == definition.name
            &&& saved.enabled == definition.enabled
            &&& saved.trigger == definition.trigger
            &&& saved.conditions == definition.conditions
            &&& saved.steps == definition.steps
            &&& saved.run_mode == definition.run_mode
        }),
{
}

/// The shortcut of a definition that may be enabled is not that of any other enabled definition.
pub proof fn law_accepted_shortcut_is_free(
    definition: DefinitionModel,
    issues: Seq<IssueModel>,
    stored: Seq<DefinitionModel>,
    i: int,
)
    requires
        enabling_rule(definition, issues, stored) is Ok,
        definition.enabled,
        definition.trigger is Hotkey,
        0 <= i < stored.len(),
        stored[i].id != definition.id,
        stored[i].enabled,
    ensures
        stored[i].trigger != definition.trigger,
{
    assert(!takes_shortcut(stored[i], definition));
}

/// A definition that was never saved is refused where 256 are stored, and only there; one that was
/// saved before is never refused on that account.
pub proof fn law_room_for_definitions(definition: DefinitionModel, stored: nat)
    ensures
        capacity_rule(definition, stored) is Err <==> definition.revision == 0 && stored >= 256,
        capacity_rule(definition, stored) is Err ==> capacity_rule(definition, stored) == Err::<
            (),
            ErrorModel,
        >(ErrorModel::Invalid("no more than 256 automations can be saved"@)),
{
}

/// A definition may be disabled whatever its issues. It may be enabled exactly where it has no issue
/// and no other enabled definition listens to its shortcut; otherwise its issues are the error, or,
/// without any, the shortcut is.
pub proof fn law_enabling(
    definition: DefinitionModel,
    issues: Seq<IssueModel>,
    stored: Seq<DefinitionModel>,
)
    ensures
        ({
            let r = enabling_rule(definition, issues, stored);
            let taken = definition.trigger is Hotkey && exists|i: int|
                0 <= i < stored.len() && (#[trigger] stored[i]).enabled && stored[i].id
                    != definition.id && stored[i].trigger is Hotkey
                    && stored[i].trigger->Hotkey_shortcut == definition.trigger->Hotkey_shortcut;
            &&& !definition.enabled ==> r is Ok
            &&& definition.enabled ==> (r is Ok <==> issues.len() == 0 && !taken)
            &&& definition.enabled && issues.len() == 0 && taken ==> r == Err::<(), ErrorModel>(
                ErrorModel::Invalid("the shortcut is already used by another automation"@),
            )
            &&& definition.enabled && issues.len() == 1 ==> r == Err::<(), ErrorModel>(
                ErrorModel::Invalid(issues[0].message),
            )
        }),
        forall|more: Seq<IssueModel>|
            definition.enabled && issues.len() > 0 && more.len() > 0 ==> (
            #[trigger] enabling_rule(definition, issues + more, stored)) == Err::<(), ErrorModel>(
                ErrorModel::Invalid(
                    enabling_rule(definition, issues, stored)->Err_0->Invalid_0 + "；"@
                        + enabling_rule(definition, more, stored)->Err_0->Invalid_0,
                ),
            ),
{
    let taken = definition.trigger is Hotkey && exists|i: int|
        0 <= i < stored.len() && (#[trigger] stored[i]).enabled && stored[i].id != definition.id
            && stored[i].trigger is Hotkey && stored[i].trigger->Hotkey_shortcut
            == definition.trigger->Hotkey_shortcut;
    if taken {
        let i = choose|i: int|
            0 <= i < stored.len() && (#[trigger] stored[i]).enabled && stored[i].id
                != definition.id && stored[i].trigger is Hotkey
                && stored[i].trigger->Hotkey_shortcut == definition.trigger->Hotkey_shortcut;
        assert(takes_shortcut(stored[i], definition));
    }
    if shortcut_taken(definition, stored) {
        let i = choose|i: int|
            0 <= i < stored.len() && takes_shortcut(#[trigger] stored[i], definition);
        assert(stored[i].enabled);
    }
    let said = |list: Seq<IssueModel>| list.map_values(|issue: IssueModel| issue.message);
    assert forall|more: Seq<IssueModel>|
        definition.enabled && issues.len() > 0 && more.len() > 0 implies (
    #[trigger] enabling_rule(definition, issues + more, stored)) == Err::<(), ErrorModel>(
        ErrorModel::Invalid(
            enabling_rule(definition, issues, stored)->Err_0->Invalid_0 + "；"@ + enabling_rule(
                definition,
                more,
                stored,
            )->Err_0->Invalid_0,
        ),
    ) by {
        text::law_joined(said(issues), said(more), "；"@);
        assert(said(issues + more) =~= said(issues) + said(more));
    }
}

/// A definition that is stored is saved exactly where it is based on the stored revision, one that is
/// not exactly where it claims none; anything else is a conflict. What is saved counts one revision
/// more and was updated now; a new one was created now.
pub proof fn law_revisions(
    definition: DefinitionModel,
    previous: Option<DefinitionModel>,
    now: Timestamp,
)
    ensures
        ({
            let base = match previous {
                Some(stored) => stored.revision,
                None => 0,
            };
            let r = revised(definition, previous, now);
            &&& definition.revision == base ==> {
                &&& r is Ok
                &&& r->Ok_0.revision == base + 1
                &&& r->Ok_0.updated_at == now
                &&& previous is None ==> r->Ok_0.created_at == now && r->Ok_0.legacy_id
                    == definition.legacy_id
            }
            &&& definition.revision != base ==> r == Err::<DefinitionModel, ErrorModel>(
                ErrorModel::Conflict,
            )
        }),
{
}

/// A request to save is refused for want of room before all else, then because it cannot be enabled,
/// then because it is not valid, and goes on exactly where none of these holds.
pub proof fn law_order_of_submission(
    definition: DefinitionModel,
    encoded: Result<nat, ErrorModel>,
    issues: Seq<IssueModel>,
    stored: Seq<DefinitionModel>,
)
    ensures
        ({
            let room = capacity_rule(definition, stored.len());
            let fit = enabling_rule(definition, issues, stored);
            let valid = validation::validation(definition, encoded);
            let r = submission(definition, encoded, issues, stored);
            &&& room is Err ==> r == room
            &&& room is Ok && fit is Err ==> r == fit
            &&& room is Ok && fit is Ok ==> r == valid
        }),
{
    let room = capacity_rule(definition, stored.len());
    let fit = enabling_rule(definition, issues, stored);
    let valid = validation::validation(definition, encoded);
    let outcomes = seq![room, fit, valid];
    if room is Err {
        validation::lemma_first_error(outcomes, 0);
    } else if fit is Err {
        validation::lemma_first_error(outcomes, 1);
    } else if valid is Err {
        validation::lemma_first_error(outcomes, 2);
    } else {
        validation::lemma_first_error(outcomes, 3);
        assert(valid == Ok::<(), ErrorModel>(valid->Ok_0));
    }
}

/// What is saved is stored with its next slot after now exactly where it is enabled and its trigger has
/// one.
pub proof fn law_stored_slots(definition: DefinitionModel, now: Timestamp)
    ensures
        !definition.enabled ==> stored_slot(definition, now) is None,
        definition.enabled ==> stored_slot(definition, now) == schedule::next_slot(
            definition.trigger,
            now.seconds as int,
        ),
        !(definition.trigger is Schedule) ==> stored_slot(definition, now) is None,
{
}

} // verus!
