//! The stored definitions as a whole: what saving and deleting do to them, and what always holds.

use crate::error::ErrorModel;
use crate::model::{DefinitionModel, IssueModel};
use crate::saving;
use crate::schedule;
use crate::text;
use crate::time::Timestamp;
use crate::validation;
use vstd::prelude::*;

verus! {

/// What is stored: the definitions, the next slots of those that have one, and the identifiers that
/// definitions were migrated from.
#[verifier::ext_equal]
pub struct Records {
    pub definitions: Map<Seq<char>, DefinitionModel>,
    pub slots: Map<Seq<char>, int>,
    pub migrated: Set<Seq<char>>,
}

/// The slot that is stored with a definition.
pub open spec fn slot_of(definition: DefinitionModel, now: Timestamp) -> Option<int> {
    saving::stored_slot(definition, now)
}

/// Another enabled definition listens to the same shortcut.
pub open spec fn taken_in(
    definition: DefinitionModel,
    definitions: Map<Seq<char>, DefinitionModel>,
) -> bool {
    definition.trigger is Hotkey && exists|id: Seq<char>|
        definitions.contains_key(id) && saving::takes_shortcut(
            #[trigger] definitions[id],
            definition,
        )
}

/// [`saving::enabling_rule`] over the stored definitions.
pub open spec fn enabling_in(
    definition: DefinitionModel,
    issues: Seq<IssueModel>,
    definitions: Map<Seq<char>, DefinitionModel>,
) -> Result<(), ErrorModel> {
    if !definition.enabled {
        Ok(())
    } else if issues.len() > 0 {
        Err(
            ErrorModel::Invalid(
                text::joined(issues.map_values(|issue: IssueModel| issue.message), "；"@),
            ),
        )
    } else if taken_in(definition, definitions) {
        Err(ErrorModel::Invalid("the shortcut is already used by another automation"@))
    } else {
        Ok(())
    }
}

/// `list` holds each of the definitions once.
pub open spec fn lists(
    list: Seq<DefinitionModel>,
    definitions: Map<Seq<char>, DefinitionModel>,
) -> bool {
    &&& list.len() == definitions.dom().len()
    &&& forall|i: int|
        0 <= i < list.len() ==> definitions.contains_key((#[trigger] list[i]).id)
            && definitions[list[i].id] == list[i]
    &&& forall|id: Seq<char>|
        definitions.contains_key(id) ==> list.contains(#[trigger] definitions[id])
}

/// Why what is stored does not change.
pub enum Refusal {
    /// A rule of the library is broken.
    Rule(ErrorModel),
    /// The database refuses, in its own words.
    Database,
}

/// Another definition was migrated from the same identifier.
pub open spec fn migrated_before(
    definition: DefinitionModel,
    definitions: Map<Seq<char>, DefinitionModel>,
) -> bool {
    definition.legacy_id is Some && exists|id: Seq<char>|
        definitions.contains_key(id) && id != definition.id && (
        #[trigger] definitions[id]).legacy_id == definition.legacy_id
}

impl Records {
    /// Nothing is stored.
    pub open spec fn none() -> Records {
        Records { definitions: Map::empty(), slots: Map::empty(), migrated: Set::empty() }
    }

    /// The stored definition with the identifier.
    pub open spec fn get(self, id: Seq<char>) -> Option<DefinitionModel> {
        if self.definitions.contains_key(id) {
            Some(self.definitions[id])
        } else {
            None
        }
    }

    /// What saving a definition leaves. The database does not take a second definition that was
    /// migrated from the same identifier.
    pub open spec fn saved(self, definition: DefinitionModel, now: Timestamp) -> Result<
        Records,
        Refusal,
    > {
        match saving::revised(definition, self.get(definition.id), now) {
            Err(e) => Err(Refusal::Rule(e)),
            Ok(revision) => if migrated_before(revision, self.definitions) {
                Err(Refusal::Database)
            } else {
                Ok(
                    Records {
                        definitions: self.definitions.insert(revision.id, revision),
                        slots: match slot_of(revision, now) {
                            Some(slot) => self.slots.insert(revision.id, slot),
                            None => self.slots.remove(revision.id),
                        },
                        migrated: match revision.legacy_id {
                            Some(legacy) => self.migrated.insert(legacy),
                            None => self.migrated,
                        },
                    },
                )
            },
        }
    }

    /// What a request to save a definition leaves, once it has kept every rule.
    pub open spec fn submitted(
        self,
        definition: DefinitionModel,
        encoded: Result<nat, ErrorModel>,
        issues: Seq<IssueModel>,
        now: Timestamp,
    ) -> Result<Records, Refusal> {
        match validation::first_error(
            seq![
                saving::capacity_rule(definition, self.definitions.dom().len()),
                enabling_in(definition, issues, self.definitions),
                validation::validation(definition, encoded),
            ],
        ) {
            Err(e) => Err(Refusal::Rule(e)),
            Ok(()) => self.saved(definition, now),
        }
    }

    /// What deleting a definition leaves.
    pub open spec fn deleted(self, id: Seq<char>) -> Records {
        Records {
            definitions: self.definitions.remove(id),
            slots: self.slots.remove(id),
            migrated: self.migrated,
        }
    }

    /// What the change leaves; a request that is refused leaves everything as it was.
    pub open spec fn after(self, change: Change) -> Records {
        match change {
            Change::Save { definition, encoded, issues, now } => match self.submitted(
                definition,
                encoded,
                issues,
                now,
            ) {
                Ok(records) => records,
                Err(_) => self,
            },
            Change::Delete { id } => self.deleted(id),
        }
    }

    /// No two enabled definitions listen to the same shortcut.
    pub open spec fn shortcuts_are_unique(self) -> bool {
        forall|a: Seq<char>, b: Seq<char>|
            #![trigger self.definitions[a], self.definitions[b]]
            a != b && self.definitions.contains_key(a) && self.definitions.contains_key(b)
                && self.definitions[a].enabled && self.definitions[b].enabled
                && self.definitions[a].trigger is Hotkey ==> self.definitions[a].trigger
                != self.definitions[b].trigger
    }

    /// No two definitions were migrated from the same identifier.
    pub open spec fn migrations_are_unique(self) -> bool {
        forall|a: Seq<char>, b: Seq<char>|
            #![trigger self.definitions[a], self.definitions[b]]
            a != b && self.definitions.contains_key(a) && self.definitions.contains_key(b)
                && self.definitions[a].legacy_id is Some ==> self.definitions[a].legacy_id
                != self.definitions[b].legacy_id
    }

    /// What always holds of what is stored: each definition is found under its identifier and has
    /// been saved, there are no more than allowed, no shortcut is taken twice, nothing was migrated
    /// twice, only stored definitions have slots, and what was migrated is on record.
    pub open spec fn sound(self) -> bool {
        &&& self.definitions.dom().finite()
        &&& self.definitions.dom().len() <= saving::MAX_DEFINITIONS
        &&& self.shortcuts_are_unique()
        &&& self.migrations_are_unique()
        &&& forall|id: Seq<char>|
            self.definitions.contains_key(id) ==> (#[trigger] self.definitions[id]).id == id
                && self.definitions[id].revision > 0
        &&& forall|id: Seq<char>|
            #[trigger] self.slots.contains_key(id) ==> self.definitions.contains_key(id)
        &&& forall|id: Seq<char>|
            self.definitions.contains_key(id) && (#[trigger] self.definitions[id]).legacy_id is Some
                ==> self.migrated.contains(self.definitions[id].legacy_id->0)
    }
}

/// A change to what is stored.
pub enum Change {
    Save {
        definition: DefinitionModel,
        encoded: Result<nat, ErrorModel>,
        issues: Seq<IssueModel>,
        now: Timestamp,
    },
    Delete { id: Seq<char> },
}

/// What a sequence of changes leaves.
pub open spec fn after_all(records: Records, changes: Seq<Change>) -> Records
    decreases changes.len(),
{
    if changes.len() == 0 {
        records
    } else {
        after_all(records, changes.drop_last()).after(changes.last())
    }
}

/// Whether a definition may be enabled is the same asked of a list of the stored definitions, in
/// whatever order.
pub proof fn law_listing_decides(
    definition: DefinitionModel,
    issues: Seq<IssueModel>,
    list: Seq<DefinitionModel>,
    definitions: Map<Seq<char>, DefinitionModel>,
)
    requires
        lists(list, definitions),
    ensures
        saving::enabling_rule(definition, issues, list) == enabling_in(
            definition,
            issues,
            definitions,
        ),
        saving::capacity_rule(definition, list.len()) == saving::capacity_rule(
            definition,
            definitions.dom().len(),
        ),
{
    if saving::shortcut_taken(definition, list) {
        let i = choose|i: int|
            0 <= i < list.len() && saving::takes_shortcut(#[trigger] list[i], definition);
        assert(definitions[list[i].id] == list[i]);
    }
    if taken_in(definition, definitions) {
        let id = choose|id: Seq<char>|
            definitions.contains_key(id) && saving::takes_shortcut(
                #[trigger] definitions[id],
                definition,
            );
        let i = choose|i: int| 0 <= i < list.len() && list[i] == definitions[id];
        assert(saving::takes_shortcut(list[i], definition));
    }
}

/// What was saved is read back as the next revision, with what it does unchanged and its origin
/// kept. It has a slot exactly where it is enabled and has a next one, what it was migrated from is
/// on record, and all other definitions and slots are as they were.
pub proof fn law_saved_definition_is_read_back(
    records: Records,
    definition: DefinitionModel,
    now: Timestamp,
)
    requires
        records.saved(definition, now) is Ok,
    ensures
        ({
            let after = records.saved(definition, now)->Ok_0;
            let read = after.get(definition.id);
            &&& read is Some
            &&& read->0 == (DefinitionModel {
                revision: definition.revision + 1,
                created_at: read->0.created_at,
                updated_at: now,
                legacy_id: read->0.legacy_id,
                ..definition
            })
            &&& match records.get(definition.id) {
                Some(previous) => read->0.created_at == previous.created_at && read->0.legacy_id
                    == previous.legacy_id,
                None => read->0.created_at == now && read->0.legacy_id == definition.legacy_id,
            }
            &&& after.slots.contains_key(definition.id) <==> definition.enabled
                && schedule::next_slot(definition.trigger, now.seconds as int) is Some
            &&& after.slots.contains_key(definition.id) ==> Some(after.slots[definition.id])
                == schedule::next_slot(definition.trigger, now.seconds as int)
            &&& read->0.legacy_id is Some ==> after.migrated.contains(read->0.legacy_id->0)
            &&& records.migrated.subset_of(after.migrated)
            &&& forall|id: Seq<char>|
                id != definition.id ==> #[trigger] after.get(id) == records.get(id)
            &&& forall|id: Seq<char>|
                id != definition.id ==> (#[trigger] after.slots.contains_key(id)
                    == records.slots.contains_key(id)) && (records.slots.contains_key(id)
                    ==> after.slots[id] == records.slots[id])
        }),
{
}

/// Deleting a definition removes it and its slot and nothing else; what it was migrated from stays
/// on record.
pub proof fn law_deleting_keeps_the_migration(records: Records, id: Seq<char>)
    ensures
        records.deleted(id).get(id) is None,
        !records.deleted(id).slots.contains_key(id),
        records.deleted(id).migrated == records.migrated,
        forall|other: Seq<char>|
            other != id ==> #[trigger] records.deleted(id).get(other) == records.get(other),
{
}

proof fn lemma_submitted(
    records: Records,
    definition: DefinitionModel,
    encoded: Result<nat, ErrorModel>,
    issues: Seq<IssueModel>,
    now: Timestamp,
)
    ensures
        records.submitted(definition, encoded, issues, now) is Ok ==> {
            &&& saving::capacity_rule(definition, records.definitions.dom().len()) is Ok
            &&& enabling_in(definition, issues, records.definitions) is Ok
            &&& records.submitted(definition, encoded, issues, now) == records.saved(
                definition,
                now,
            )
        },
{
    let outcomes = seq![
        saving::capacity_rule(definition, records.definitions.dom().len()),
        enabling_in(definition, issues, records.definitions),
        validation::validation(definition, encoded),
    ];
    validation::lemma_no_error(outcomes);
    assert(outcomes[0] == saving::capacity_rule(definition, records.definitions.dom().len()));
    assert(outcomes[1] == enabling_in(definition, issues, records.definitions));
}

proof fn lemma_change_is_sound(records: Records, change: Change)
    requires
        records.sound(),
    ensures
        records.after(change).sound(),
{
    let after = records.after(change);
    match change {
        Change::Save { definition, encoded, issues, now } => {
            lemma_submitted(records, definition, encoded, issues, now);
            if records.submitted(definition, encoded, issues, now) is Ok {
                let saved = after.definitions[definition.id];
                assert(saved.enabled == definition.enabled);
                assert(saved.trigger == definition.trigger);
                assert forall|a: Seq<char>, b: Seq<char>|
                    #![trigger after.definitions[a], after.definitions[b]]
                    a != b && after.definitions.contains_key(a) && after.definitions.contains_key(b)
                        && after.definitions[a].enabled && after.definitions[b].enabled
                        && after.definitions[a].trigger is Hotkey implies after.definitions[a].trigger
                    != after.definitions[b].trigger by {
                    if a == definition.id {
                        assert(!saving::takes_shortcut(records.definitions[b], definition));
                    } else if b == definition.id {
                        if after.definitions[a].trigger == after.definitions[b].trigger {
                            assert(!saving::takes_shortcut(records.definitions[a], definition));
                        }
                    } else {
                        assert(records.definitions[a] == after.definitions[a]);
                        assert(records.definitions[b] == after.definitions[b]);
                    }
                }
                assert forall|a: Seq<char>, b: Seq<char>|
                    #![trigger after.definitions[a], after.definitions[b]]
                    a != b && after.definitions.contains_key(a) && after.definitions.contains_key(b)
                        && after.definitions[a].legacy_id is Some implies after.definitions[a].legacy_id
                    != after.definitions[b].legacy_id by {
                    if a == definition.id {
                        assert(records.definitions[b] == after.definitions[b]);
                    } else if b == definition.id {
                        assert(records.definitions[a] == after.definitions[a]);
                    } else {
                        assert(records.definitions[a] == after.definitions[a]);
                        assert(records.definitions[b] == after.definitions[b]);
                    }
                }
                if records.definitions.contains_key(definition.id) {
                    assert(after.definitions.dom() =~= records.definitions.dom());
                }
                assert forall|id: Seq<char>|
                    after.definitions.contains_key(id) && (
                    #[trigger] after.definitions[id]).legacy_id is Some implies after.migrated.contains(
                    after.definitions[id].legacy_id->0,
                ) by {
                    if id != definition.id {
                        assert(records.definitions[id] == after.definitions[id]);
                    }
                }
                assert forall|id: Seq<char>| after.definitions.contains_key(id) implies (
                #[trigger] after.definitions[id]).id == id && after.definitions[id].revision > 0 by {
                    if id != definition.id {
                        assert(records.definitions[id] == after.definitions[id]);
                    }
                }
            }
        },
        Change::Delete { id } => {
            assert forall|a: Seq<char>, b: Seq<char>|
                #![trigger after.definitions[a], after.definitions[b]]
                a != b && after.definitions.contains_key(a) && after.definitions.contains_key(b)
                    && after.definitions[a].enabled && after.definitions[b].enabled
                    && after.definitions[a].trigger is Hotkey implies after.definitions[a].trigger
                != after.definitions[b].trigger by {
                assert(records.definitions[a] == after.definitions[a]);
                assert(records.definitions[b] == after.definitions[b]);
            }
            assert forall|k: Seq<char>| after.definitions.contains_key(k) implies (
            #[trigger] after.definitions[k]) == records.definitions[k] by {}
            assert(after.migrations_are_unique());
        },
    }
}

/// Whatever is saved and deleted, what is stored stays sound. In particular no two enabled
/// definitions ever share a shortcut, no two definitions were migrated from the same identifier,
/// and there are never more definitions than allowed.
pub proof fn law_records_stay_sound(changes: Seq<Change>)
    ensures
        after_all(Records::none(), changes).sound(),
        after_all(Records::none(), changes).shortcuts_are_unique(),
        after_all(Records::none(), changes).migrations_are_unique(),
        after_all(Records::none(), changes).definitions.dom().len() <= saving::MAX_DEFINITIONS,
    decreases changes.len(),
{
    if changes.len() > 0 {
        law_records_stay_sound(changes.drop_last());
        lemma_change_is_sound(after_all(Records::none(), changes.drop_last()), changes.last());
    }
}

/// A definition that is to be enabled with a shortcut that an enabled other one has is refused as
/// invalid, and nothing is stored. Disabled, it is not refused on that account.
pub proof fn law_taken_shortcut_is_refused(
    records: Records,
    definition: DefinitionModel,
    encoded: Result<nat, ErrorModel>,
    issues: Seq<IssueModel>,
    now: Timestamp,
)
    requires
        taken_in(definition, records.definitions),
    ensures
        definition.enabled ==> {
            &&& records.submitted(definition, encoded, issues, now) matches Err(
                Refusal::Rule(ErrorModel::Invalid(_)),
            )
            &&& records.after(Change::Save { definition, encoded, issues, now }) == records
        },
        !definition.enabled ==> enabling_in(definition, issues, records.definitions) is Ok,
{
    reveal_with_fuel(validation::first_error, 3);
}

/// A new definition that was migrated from the same identifier as a stored one is refused by the
/// database, and nothing changes. A stored definition can always be saved again: its own identifier is no
/// obstacle.
pub proof fn law_nothing_is_migrated_twice(
    records: Records,
    definition: DefinitionModel,
    encoded: Result<nat, ErrorModel>,
    issues: Seq<IssueModel>,
    now: Timestamp,
)
    requires
        records.sound(),
    ensures
        !records.definitions.contains_key(definition.id) && migrated_before(
            definition,
            records.definitions,
        ) ==> {
            &&& records.saved(definition, now) is Err
            &&& definition.revision == 0 ==> records.saved(definition, now) == Err::<
                Records,
                Refusal,
            >(Refusal::Database)
            &&& records.after(Change::Save { definition, encoded, issues, now }) == records
        },
        records.definitions.contains_key(definition.id)
            && records.definitions[definition.id].revision == definition.revision ==> records.saved(
            definition,
            now,
        ) is Ok,
{
    lemma_submitted(records, definition, encoded, issues, now);
    if records.definitions.contains_key(definition.id) {
        let revision = saving::revised(definition, records.get(definition.id), now)->Ok_0;
        let stored = records.definitions[definition.id];
        if stored.revision == definition.revision && migrated_before(revision, records.definitions) {
            let id = choose|id: Seq<char>|
                records.definitions.contains_key(id) && id != revision.id && (
                #[trigger] records.definitions[id]).legacy_id == revision.legacy_id;
            assert(stored.legacy_id != records.definitions[id].legacy_id);
        }
    } else if migrated_before(definition, records.definitions) && definition.revision == 0 {
        let revision = saving::revised(definition, records.get(definition.id), now)->Ok_0;
        let id = choose|id: Seq<char>|
            records.definitions.contains_key(id) && id != definition.id && (
            #[trigger] records.definitions[id]).legacy_id == definition.legacy_id;
        assert(records.definitions[id].legacy_id == revision.legacy_id);
        assert(migrated_before(revision, records.definitions));
    }
}

/// Asking for a definition to be saved comes to what the rules on a list of the stored definitions
/// come to, and to the next revision where they are kept.
pub proof fn law_submission_follows_the_rules(
    records: Records,
    definition: DefinitionModel,
    encoded: Result<nat, ErrorModel>,
    issues: Seq<IssueModel>,
    list: Seq<DefinitionModel>,
    now: Timestamp,
)
    requires
        lists(list, records.definitions),
    ensures
        records.submitted(definition, encoded, issues, now) == match saving::submission(
            definition,
            encoded,
            issues,
            list,
        ) {
            Err(e) => Err(Refusal::Rule(e)),
            Ok(()) => records.saved(definition, now),
        },
{
    law_listing_decides(definition, issues, list, records.definitions);
}

/// Once a definition is stored its migration stays on record, whatever is saved and deleted.
pub proof fn law_migrations_are_never_forgotten(records: Records, change: Change)
    ensures
        records.migrated.subset_of(records.after(change).migrated),
{
}

/// However many definitions are saved and deleted, there are never more than 256.
pub proof fn law_at_most_256_definitions(changes: Seq<Change>)
    ensures
        after_all(Records::none(), changes).definitions.dom().len() <= 256,
{
    law_records_stay_sound(changes);
}

/// Deleting a definition leaves the slots of all others.
pub proof fn law_deleting_keeps_other_slots(records: Records, id: Seq<char>, other: Seq<char>)
    requires
        other != id,
    ensures
        records.deleted(id).slots.contains_key(other) <==> records.slots.contains_key(other),
        records.slots.contains_key(other) ==> records.deleted(id).slots[other]
            == records.slots[other],
{
}

} // verus!
