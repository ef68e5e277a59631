//! The rules that a definition has to keep.

use crate::error::{invalid, AutomationError, ErrorModel};
use crate::model::{
    AutomationCondition, AutomationDefinition, AutomationStep, AutomationTrigger, ConditionModel,
    DefinitionModel, StepModel, TriggerModel,
};
use crate::template;
use crate::text;
use crate::time;
use crate::trigger::available_variables;
use vstd::prelude::*;

verus! {

pub const MAX_ID_BYTES: usize = 128;

pub const MAX_NAME_BYTES: usize = 256;

pub const MAX_STEPS: usize = 64;

pub const MAX_CONDITIONS: usize = 16;

pub const MAX_DEFINITION_BYTES: usize = 524_288;

pub const MAX_APPLICATIONS: usize = 64;

pub const MAX_SCRIPT_BYTES: usize = 65_536;

pub const MAX_TIMEOUT_SECONDS: u32 = 3600;

pub const MAX_DELAY_SECONDS: u64 = 86_400;

pub const MAX_TITLE_BYTES: usize = 256;

pub const MAX_BODY_BYTES: usize = 8192;

/// `Ok` where the rule is kept, else an error with the given text.
pub open spec fn rule(kept: bool, otherwise: Seq<char>) -> Result<(), ErrorModel> {
    if kept {
        Ok(())
    } else {
        Err(ErrorModel::Invalid(otherwise))
    }
}

/// The first error of a list of outcomes.
pub open spec fn first_error(outcomes: Seq<Result<(), ErrorModel>>) -> Result<(), ErrorModel>
    decreases outcomes.len(),
{
    if outcomes.len() == 0 {
        Ok(())
    } else if outcomes[0] is Err {
        outcomes[0]
    } else {
        first_error(outcomes.drop_first())
    }
}

/// The view of an outcome.
pub open spec fn outcome(result: Result<(), AutomationError>) -> Result<(), ErrorModel> {
    match result {
        Ok(()) => Ok(()),
        Err(e) => Err(e@),
    }
}

/// The identifier and the name have lengths within their limits.
pub open spec fn names_rule(definition: DefinitionModel) -> Result<(), ErrorModel> {
    rule(
        definition.id.len() > 0 && text::byte_len(definition.id) <= MAX_ID_BYTES
            && text::byte_len(definition.name) <= MAX_NAME_BYTES,
        "name or identifier is too long"@,
    )
}

/// There are steps, and no more steps and conditions than allowed.
pub open spec fn counts_rule(definition: DefinitionModel) -> Result<(), ErrorModel> {
    rule(
        0 < definition.steps.len() <= MAX_STEPS && definition.conditions.len() <= MAX_CONDITIONS,
        "add 1–64 actions and no more than 16 conditions"@,
    )
}

/// The encoded definition keeps within its limit. Where it could not be encoded, that error stands.
pub open spec fn size_rule(encoded: Result<nat, ErrorModel>) -> Result<(), ErrorModel> {
    match encoded {
        Ok(bytes) => rule(
            bytes <= MAX_DEFINITION_BYTES,
            "configuration cannot exceed 512 KiB"@,
        ),
        Err(e) => Err(e),
    }
}

/// A daily time, a set of weekdays and a time zone can be used: all three are known, and the
/// weekdays are numbered from 1 for Monday to 7 for Sunday.
pub open spec fn time_rule(time_known: bool, weekdays: Seq<u8>, zone_known: bool) -> Result<
    (),
    ErrorModel,
> {
    rule(
        time_known && weekdays.len() > 0 && (forall|i: int|
            0 <= i < weekdays.len() ==> 1 <= #[trigger] weekdays[i] <= 7) && zone_known,
        "select a valid time, weekday, and time zone"@,
    )
}

pub open spec fn trigger_rule(trigger: TriggerModel) -> Result<(), ErrorModel> {
    match trigger {
        TriggerModel::Schedule { time: at, weekdays, timezone, .. } => time_rule(
            time::clock_time(at) is Some,
            weekdays,
            time::known_timezone(timezone),
        ),
        TriggerModel::Application { apps, .. } => rule(
            0 < apps.len() <= MAX_APPLICATIONS && forall|i: int|
                0 <= i < apps.len() ==> (#[trigger] apps[i]).id.len() > 0 && apps[i].path.len() > 0,
            "select an application from the installed applications"@,
        ),
        TriggerModel::Hotkey { shortcut } => rule(
            text::trimmed(shortcut).len() > 0,
            "record a global shortcut"@,
        ),
        _ => Ok(()),
    }
}

pub open spec fn condition_rule(condition: ConditionModel) -> Result<(), ErrorModel> {
    match condition {
        ConditionModel::TimeRange { weekdays, start, end, timezone } => time_rule(
            time::clock_time(start) is Some && time::clock_time(end) is Some,
            weekdays,
            time::known_timezone(timezone),
        ),
        ConditionModel::ApplicationRunning { app, .. } => rule(
            app.id.len() > 0,
            "select an application for the condition"@,
        ),
        ConditionModel::DeviceConnected { device_id, .. } => rule(
            device_id.len() > 0,
            "select a device for the condition"@,
        ),
        ConditionModel::Presence { .. } => Ok(()),
    }
}

/// What has to hold of a step; `known` are the variables that it may use.
pub open spec fn step_rule(step: StepModel, known: Set<Seq<char>>) -> Result<(), ErrorModel> {
    match step {
        StepModel::QuickAction { action_id } => rule(
            action_id.len() > 0,
            "select a quick action"@,
        ),
        StepModel::Shell { script, timeout_seconds, .. } => first_error(
            seq![
                rule(
                    text::trimmed(script).len() > 0 && text::byte_len(script) <= MAX_SCRIPT_BYTES
                        && 1 <= timeout_seconds <= MAX_TIMEOUT_SECONDS,
                    "the script cannot be empty or exceed 64 KiB, and the timeout must be 1–3600 seconds"@,
                ),
                template::checked(script, known),
            ],
        ),
        StepModel::Delay { duration_seconds } => rule(
            duration_seconds <= MAX_DELAY_SECONDS,
            "delay cannot exceed 24 hours"@,
        ),
        StepModel::Notification { title, body, .. } => first_error(
            seq![
                rule(
                    text::trimmed(title).len() > 0 && text::byte_len(title) <= MAX_TITLE_BYTES
                        && text::byte_len(body) <= MAX_BODY_BYTES,
                    "enter a notification title; the body cannot exceed 8 KiB"@,
                ),
                template::checked(title, known),
                template::checked(body, known),
            ],
        ),
    }
}

/// The outcomes of all rules in the order in which they are tried.
pub open spec fn rule_outcomes(
    definition: DefinitionModel,
    encoded: Result<nat, ErrorModel>,
) -> Seq<Result<(), ErrorModel>> {
    let known = definition.trigger.variables().to_set();
    seq![
        names_rule(definition),
        counts_rule(definition),
        size_rule(encoded),
        trigger_rule(definition.trigger),
    ] + definition.conditions.map_values(|c: ConditionModel| condition_rule(c))
        + definition.steps.map_values(|s: StepModel| step_rule(s, known))
}

/// What validating a definition comes to. `encoded` is the number of bytes that it takes when it
/// is stored.
pub open spec fn validation(
    definition: DefinitionModel,
    encoded: Result<nat, ErrorModel>,
) -> Result<(), ErrorModel> {
    first_error(rule_outcomes(definition, encoded))
}

/// The view of the number of bytes of an encoded definition.
pub open spec fn encoded_size(encoded: Result<usize, AutomationError>) -> Result<nat, ErrorModel> {
    match encoded {
        Ok(bytes) => Ok(bytes as nat),
        Err(e) => Err(e@),
    }
}

/// The first error stands behind nothing but kept rules.
pub proof fn lemma_first_error(outcomes: Seq<Result<(), ErrorModel>>, k: int)
    requires
        0 <= k <= outcomes.len(),
        forall|i: int| 0 <= i < k ==> (#[trigger] outcomes[i]) is Ok,
    ensures
        k == outcomes.len() ==> first_error(outcomes) == Ok::<(), ErrorModel>(()),
        k < outcomes.len() && outcomes[k] is Err ==> first_error(outcomes) == outcomes[k],
    decreases outcomes.len(),
{
    if outcomes.len() > 0 && k > 0 {
        let rest = outcomes.drop_first();
        assert forall|i: int| 0 <= i < k - 1 implies (#[trigger] rest[i]) is Ok by {
            assert(rest[i] == outcomes[i + 1]);
        }
        lemma_first_error(rest, k - 1);
    }
}

/// Without a first error all rules are kept.
pub proof fn lemma_no_error(outcomes: Seq<Result<(), ErrorModel>>)
    ensures
        first_error(outcomes) is Ok <==> forall|i: int|
            0 <= i < outcomes.len() ==> (#[trigger] outcomes[i]) is Ok,
    decreases outcomes.len(),
{
    if outcomes.len() > 0 {
        let rest = outcomes.drop_first();
        lemma_no_error(rest);
        if first_error(outcomes) is Ok {
            assert forall|i: int| 0 <= i < outcomes.len() implies (#[trigger] outcomes[i]) is Ok by {
                if i > 0 {
                    assert(rest[i - 1] == outcomes[i]);
                }
            }
        } else if outcomes[0] is Ok {
            let i = choose|i: int| 0 <= i < rest.len() && (#[trigger] rest[i]) is Err;
            assert(outcomes[i + 1] == rest[i]);
        }
    }
}

/// A definition is valid exactly where it keeps every rule.
pub proof fn law_valid_means_every_rule(
    definition: DefinitionModel,
    encoded: Result<nat, ErrorModel>,
)
    ensures
        validation(definition, encoded) is Ok <==> {
            &&& names_rule(definition) is Ok
            &&& counts_rule(definition) is Ok
            &&& size_rule(encoded) is Ok
            &&& trigger_rule(definition.trigger) is Ok
            &&& forall|i: int|
                0 <= i < definition.conditions.len() ==> condition_rule(
                    #[trigger] definition.conditions[i],
                ) is Ok
            &&& forall|i: int|
                0 <= i < definition.steps.len() ==> step_rule(
                    #[trigger] definition.steps[i],
                    definition.trigger.variables().to_set(),
                ) is Ok
        },
{
    let outcomes = rule_outcomes(definition, encoded);
    let conditions = definition.conditions;
    let steps = definition.steps;
    let known = definition.trigger.variables().to_set();
    lemma_no_error(outcomes);
    assert(outcomes[0] == names_rule(definition));
    assert(outcomes[1] == counts_rule(definition));
    assert(outcomes[2] == size_rule(encoded));
    assert(outcomes[3] == trigger_rule(definition.trigger));
    assert forall|i: int| 0 <= i < conditions.len() implies outcomes[4 + i] == condition_rule(
        #[trigger] conditions[i],
    ) by {}
    assert forall|i: int| 0 <= i < steps.len() implies outcomes[4 + conditions.len() + i]
        == step_rule(#[trigger] steps[i], known) by {}
    if !(validation(definition, encoded) is Ok) {
        let k = choose|k: int| 0 <= k < outcomes.len() && (#[trigger] outcomes[k]) is Err;
        if k >= 4 + conditions.len() {
            assert(step_rule(steps[k - 4 - conditions.len()], known) is Err);
        } else if k >= 4 {
            assert(condition_rule(conditions[k - 4]) is Err);
        }
    }
}

/// The texts of a valid definition render, and its scripts can be prepared, for every event that
/// provides the variables that the trigger promises.
pub proof fn law_valid_texts_render(
    definition: DefinitionModel,
    encoded: Result<nat, ErrorModel>,
    values: Map<Seq<char>, Seq<char>>,
    i: int,
)
    requires
        validation(definition, encoded) is Ok,
        definition.trigger.variables().to_set().subset_of(values.dom()),
        0 <= i < definition.steps.len(),
    ensures
        definition.steps[i] matches StepModel::Notification { title, body, .. }
            ==> template::rendered(title, values) is Ok && template::rendered(body, values) is Ok,
        definition.steps[i] matches StepModel::Shell { script, .. } ==> template::prepared(
            script,
            values.dom(),
            true,
        ) is Ok && template::prepared(script, values.dom(), false) is Ok,
{
    law_valid_means_every_rule(definition, encoded);
    reveal_with_fuel(first_error, 4);
    let known = definition.trigger.variables().to_set();
    let step = definition.steps[i];
    assert(step_rule(step, known) is Ok);
    match step {
        StepModel::Notification { title, body, .. } => {
            template::law_checked_text_renders(title, known, values);
            template::law_checked_text_renders(body, known, values);
        },
        StepModel::Shell { script, .. } => {
            template::law_checked_text_renders(script, known, values);
        },
        _ => {},
    }
}

/// Checks a daily time, of which is given whether it can be read, its weekdays, and a time zone, of
/// which is given whether it is known.
pub fn check_time(time_known: bool, weekdays: &[u8], zone_known: bool) -> (r: Result<
    (),
    AutomationError,
>)
    ensures
        outcome(r) == time_rule(time_known, weekdays@, zone_known),
{
    let mut i: usize = 0;
    let mut numbered = true;
    while i < weekdays.len()
        invariant
            i <= weekdays@.len(),
            numbered == forall|k: int| 0 <= k < i ==> 1 <= #[trigger] weekdays@[k] <= 7,
        decreases weekdays@.len() - i,
    {
        if weekdays[i] < 1 || weekdays[i] > 7 {
            numbered = false;
        }
        i = i + 1;
    }
    if !time_known || weekdays.is_empty() || !numbered || !zone_known {
        return Err(invalid("select a valid time, weekday, and time zone"));
    }
    Ok(())
}

/// Checks a daily time, its weekdays and its time zone.
fn validate_time(at: &str, weekdays: &[u8], timezone: &str) -> (r: Result<(), AutomationError>)
    ensures
        outcome(r) == time_rule(
            time::clock_time(at@) is Some,
            weekdays@,
            time::known_timezone(timezone@),
        ),
{
    check_time(
        time::parse_clock(at).is_some(),
        weekdays,
        time::timezone_exists(timezone),
    )
}

/// Checks that a text uses only variables that the trigger's events provide.
pub fn validate_variables(source: &str, trigger: &AutomationTrigger) -> (r: Result<
    (),
    AutomationError,
>)
    ensures
        outcome(r) == template::checked(source@, trigger@.variables().to_set()),
{
    let allowed = available_variables(trigger);
    template::check_variables(source, &allowed)
}

fn validate_trigger(trigger: &AutomationTrigger) -> (r: Result<(), AutomationError>)
    ensures
        outcome(r) == trigger_rule(trigger@),
{
    match trigger {
        AutomationTrigger::Schedule { time: at, weekdays, timezone, .. } => validate_time(
            at.as_str(),
            weekdays,
            timezone.as_str(),
        ),
        AutomationTrigger::Application { apps, .. } => {
            let ghost models = text::views(apps@);
            let mut complete = true;
            let mut i: usize = 0;
            while i < apps.len()
                invariant
                    i <= apps@.len(),
                    models == text::views(apps@),
                    complete == forall|k: int|
                        0 <= k < i ==> (#[trigger] models[k]).id.len() > 0 && models[k].path.len()
                            > 0,
                decreases apps@.len() - i,
            {
                assert(models[i as int] == apps@[i as int]@);
                if apps[i].id.as_str().is_empty() || apps[i].path.as_str().is_empty() {
                    complete = false;
                }
                i = i + 1;
            }
            assert(trigger@->Application_apps == models);
            if apps.is_empty() || apps.len() > MAX_APPLICATIONS || !complete {
                return Err(invalid("select an application from the installed applications"));
            }
            Ok(())
        },
        AutomationTrigger::Hotkey { shortcut } => {
            if text::trim(shortcut.as_str()).is_empty() {
                return Err(invalid("record a global shortcut"));
            }
            Ok(())
        },
        _ => Ok(()),
    }
}

fn validate_condition(condition: &AutomationCondition) -> (r: Result<(), AutomationError>)
    ensures
        outcome(r) == condition_rule(condition@),
{
    match condition {
        AutomationCondition::TimeRange { weekdays, start, end, timezone } => {
            match validate_time(start.as_str(), weekdays, timezone.as_str()) {
                Ok(()) => validate_time(end.as_str(), weekdays, timezone.as_str()),
                Err(e) => Err(e),
            }
        },
        AutomationCondition::ApplicationRunning { app, .. } => {
            if app.id.as_str().is_empty() {
                return Err(invalid("select an application for the condition"));
            }
            Ok(())
        },
        AutomationCondition::DeviceConnected { device_id, .. } => {
            if device_id.as_str().is_empty() {
                return Err(invalid("select a device for the condition"));
            }
            Ok(())
        },
        AutomationCondition::Presence { .. } => Ok(()),
    }
}

fn validate_step(step: &AutomationStep, trigger: &AutomationTrigger) -> (r: Result<
    (),
    AutomationError,
>)
    ensures
        outcome(r) == step_rule(step@, trigger@.variables().to_set()),
{
    proof {
        reveal_with_fuel(first_error, 4);
    }
    match step {
        AutomationStep::QuickAction { action_id } => {
            if action_id.as_str().is_empty() {
                return Err(invalid("select a quick action"));
            }
            Ok(())
        },
        AutomationStep::Shell { script, timeout_seconds, .. } => {
            if text::trim(script.as_str()).is_empty() || text::size(script.as_str())
                > MAX_SCRIPT_BYTES || *timeout_seconds < 1 || *timeout_seconds
                > MAX_TIMEOUT_SECONDS {
                return Err(
                    invalid(
                        "the script cannot be empty or exceed 64 KiB, and the timeout must be 1–3600 seconds",
                    ),
                );
            }
            validate_variables(script.as_str(), trigger)
        },
        AutomationStep::Delay { duration_seconds } => {
            if *duration_seconds > MAX_DELAY_SECONDS {
                return Err(invalid("delay cannot exceed 24 hours"));
            }
            Ok(())
        },
        AutomationStep::Notification { title, body, .. } => {
            if text::trim(title.as_str()).is_empty() || text::size(title.as_str()) > MAX_TITLE_BYTES
                || text::size(body.as_str()) > MAX_BODY_BYTES {
                return Err(invalid("enter a notification title; the body cannot exceed 8 KiB"));
            }
            match validate_variables(title.as_str(), trigger) {
                Ok(()) => validate_variables(body.as_str(), trigger),
                Err(e) => Err(e),
            }
        },
    }
}

/// Checks a definition against all rules. `encoded` is the number of bytes that the definition
/// takes when it is stored, or the error that encoding it gave.
pub fn validate(
    definition: &AutomationDefinition,
    encoded: Result<usize, AutomationError>,
) -> (r: Result<(), AutomationError>)
    ensures
        outcome(r) == validation(definition@, encoded_size(encoded)),
{
    let ghost model = definition@;
    let ghost outcomes = rule_outcomes(model, encoded_size(encoded));
    let ghost conditions = model.conditions;
    let ghost steps = model.steps;
    let ghost known = model.trigger.variables().to_set();
    assert(outcomes.len() == 4 + conditions.len() + steps.len());
    assert(outcomes[0] == names_rule(model));
    assert(outcomes[1] == counts_rule(model));
    assert(outcomes[2] == size_rule(encoded_size(encoded)));
    assert(outcomes[3] == trigger_rule(model.trigger));
    if definition.id.as_str().is_empty() || text::size(definition.id.as_str()) > MAX_ID_BYTES
        || text::size(definition.name.as_str()) > MAX_NAME_BYTES {
        proof {
            lemma_first_error(outcomes, 0);
        }
        return Err(invalid("name or identifier is too long"));
    }
    if definition.steps.is_empty() || definition.steps.len() > MAX_STEPS
        || definition.conditions.len() > MAX_CONDITIONS {
        proof {
            lemma_first_error(outcomes, 1);
        }
        return Err(invalid("add 1–64 actions and no more than 16 conditions"));
    }
    match encoded {
        Ok(bytes) => {
            if bytes > MAX_DEFINITION_BYTES {
                proof {
                    lemma_first_error(outcomes, 2);
                }
                return Err(invalid("configuration cannot exceed 512 KiB"));
            }
        },
        Err(e) => {
            proof {
                lemma_first_error(outcomes, 2);
            }
            return Err(e);
        },
    }
    match validate_trigger(&definition.trigger) {
        Ok(()) => {},
        Err(e) => {
            proof {
                lemma_first_error(outcomes, 3);
            }
            return Err(e);
        },
    }
    let mut i: usize = 0;
    while i < definition.conditions.len()
        invariant
            i <= definition.conditions@.len(),
            conditions == text::views(definition.conditions@),
            outcomes == rule_outcomes(definition@, encoded_size(encoded)),
            outcomes.len() == 4 + conditions.len() + steps.len(),
            forall|k: int|
                0 <= k < conditions.len() ==> outcomes[4 + k] == condition_rule(
                    #[trigger] conditions[k],
                ),
            forall|k: int| 0 <= k < 4 + i ==> (#[trigger] outcomes[k]) is Ok,
        decreases definition.conditions@.len() - i,
    {
        assert(conditions[i as int] == definition.conditions@[i as int]@);
        match validate_condition(&definition.conditions[i]) {
            Ok(()) => {},
            Err(e) => {
                proof {
                    lemma_first_error(outcomes, 4 + i);
                }
                return Err(e);
            },
        }
        i = i + 1;
    }
    let mut j: usize = 0;
    while j < definition.steps.len()
        invariant
            j <= definition.steps@.len(),
            steps == text::views(definition.steps@),
            known == definition@.trigger.variables().to_set(),
            outcomes == rule_outcomes(definition@, encoded_size(encoded)),
            outcomes.len() == 4 + conditions.len() + steps.len(),
            forall|k: int|
                0 <= k < steps.len() ==> outcomes[4 + conditions.len() + k] == step_rule(
                    #[trigger] steps[k],
                    known,
                ),
            forall|k: int| 0 <= k < 4 + conditions.len() + j ==> (#[trigger] outcomes[k]) is Ok,
        decreases definition.steps@.len() - j,
    {
        assert(steps[j as int] == definition.steps@[j as int]@);
        match validate_step(&definition.steps[j], &definition.trigger) {
            Ok(()) => {},
            Err(e) => {
                proof {
                    lemma_first_error(outcomes, 4 + conditions.len() + j);
                }
                return Err(e);
            },
        }
        j = j + 1;
    }
    proof {
        lemma_first_error(outcomes, outcomes.len() as int);
    }
    Ok(())
}

/// What a definition has to keep to be valid, limit by limit: the bytes of its identifier and name, the
/// numbers of its steps and conditions, and the bytes that it takes when it is stored.
pub proof fn law_limits_of_definitions(definition: DefinitionModel, encoded: Result<nat, ErrorModel>)
    requires
        validation(definition, encoded) is Ok,
    ensures
        0 < definition.id.len(),
        text::byte_len(definition.id) <= 128,
        text::byte_len(definition.name) <= 256,
        1 <= definition.steps.len() <= 64,
        definition.conditions.len() <= 16,
        encoded is Ok,
        encoded->Ok_0 <= 524_288,
{
    law_valid_means_every_rule(definition, encoded);
}

/// A definition within its limits whose trigger, conditions and steps are right is valid.
pub proof fn law_nothing_else_is_asked_of_definitions(
    definition: DefinitionModel,
    encoded: Result<nat, ErrorModel>,
)
    requires
        0 < definition.id.len(),
        text::byte_len(definition.id) <= 128,
        text::byte_len(definition.name) <= 256,
        1 <= definition.steps.len() <= 64,
        definition.conditions.len() <= 16,
        encoded is Ok,
        encoded->Ok_0 <= 524_288,
        trigger_rule(definition.trigger) is Ok,
        forall|i: int|
            0 <= i < definition.conditions.len() ==> condition_rule(
                #[trigger] definition.conditions[i],
            ) is Ok,
        forall|i: int|
            0 <= i < definition.steps.len() ==> step_rule(
                #[trigger] definition.steps[i],
                definition.trigger.variables().to_set(),
            ) is Ok,
    ensures
        validation(definition, encoded) is Ok,
{
    law_valid_means_every_rule(definition, encoded);
}

/// Which triggers are right: a schedule with a time, a time zone and weekdays from 1 to 7; one to 64
/// applications that are known by identifier and path; a shortcut that is not blank; and all others.
pub proof fn law_right_triggers(trigger: TriggerModel)
    ensures
        trigger matches TriggerModel::Schedule { time: at, weekdays, timezone, .. } ==> {
            &&& trigger_rule(trigger) is Ok <==> {
                &&& time::clock_time(at) is Some
                &&& time::known_timezone(timezone)
                &&& weekdays.len() > 0
                &&& forall|i: int| 0 <= i < weekdays.len() ==> 1 <= #[trigger] weekdays[i] <= 7
            }
            &&& trigger_rule(trigger) is Err ==> trigger_rule(trigger)->Err_0 == ErrorModel::Invalid(
                "select a valid time, weekday, and time zone"@,
            )
        },
        trigger matches TriggerModel::Application { apps, .. } ==> {
            &&& trigger_rule(trigger) is Ok <==> {
                &&& 1 <= apps.len() <= 64
                &&& forall|i: int|
                    0 <= i < apps.len() ==> (#[trigger] apps[i]).id.len() > 0 && apps[i].path.len()
                        > 0
            }
            &&& trigger_rule(trigger) is Err ==> trigger_rule(trigger)->Err_0 == ErrorModel::Invalid(
                "select an application from the installed applications"@,
            )
        },
        trigger matches TriggerModel::Hotkey { shortcut } ==> {
            &&& trigger_rule(trigger) is Ok <==> exists|i: int|
                0 <= i < shortcut.len() && !text::is_white_space(#[trigger] shortcut[i])
            &&& trigger_rule(trigger) is Err ==> trigger_rule(trigger)->Err_0 == ErrorModel::Invalid(
                "record a global shortcut"@,
            )
        },
        trigger is Manual || trigger is System || trigger is Device || trigger is Transfer
            || trigger is Presence ==> trigger_rule(trigger) is Ok,
{
    if let TriggerModel::Hotkey { shortcut } = trigger {
        lemma_blank(shortcut);
    }
}

proof fn lemma_blank(t: Seq<char>)
    ensures
        text::trimmed(t).len() > 0 <==> exists|i: int|
            0 <= i < t.len() && !text::is_white_space(#[trigger] t[i]),
{
    let (from, to) = text::law_trimmed(t);
    if from < to {
        assert(!text::is_white_space(t[from]));
    }
}

/// Which conditions are right: a range of hours with two times, a time zone and weekdays from 1 to 7,
/// an application or a device that is named, and every state of presence.
pub proof fn law_right_conditions(condition: ConditionModel)
    ensures
        condition matches ConditionModel::TimeRange { weekdays, start, end, timezone } ==> {
            &&& condition_rule(condition) is Ok <==> {
                &&& time::clock_time(start) is Some
                &&& time::clock_time(end) is Some
                &&& time::known_timezone(timezone)
                &&& weekdays.len() > 0
                &&& forall|i: int| 0 <= i < weekdays.len() ==> 1 <= #[trigger] weekdays[i] <= 7
            }
            &&& condition_rule(condition) is Err ==> condition_rule(condition)->Err_0
                == ErrorModel::Invalid("select a valid time, weekday, and time zone"@)
        },
        condition matches ConditionModel::ApplicationRunning { app, .. } ==> {
            &&& condition_rule(condition) is Ok <==> app.id.len() > 0
            &&& condition_rule(condition) is Err ==> condition_rule(condition)->Err_0
                == ErrorModel::Invalid("select an application for the condition"@)
        },
        condition matches ConditionModel::DeviceConnected { device_id, .. } ==> {
            &&& condition_rule(condition) is Ok <==> device_id.len() > 0
            &&& condition_rule(condition) is Err ==> condition_rule(condition)->Err_0
                == ErrorModel::Invalid("select a device for the condition"@)
        },
        condition is Presence ==> condition_rule(condition) is Ok,
{
}

/// Which steps are right: a quick action that is named; a script that is not blank, takes at most 64
/// KiB and may run for a second to an hour; a delay of at most a day; a notification with a title that
/// is not blank and takes at most 256 bytes, and a body of at most 8 KiB. Their texts use only
/// variables that are known.
pub proof fn law_right_steps(step: StepModel, known: Set<Seq<char>>)
    ensures
        step matches StepModel::QuickAction { action_id } ==> {
            &&& step_rule(step, known) is Ok <==> action_id.len() > 0
            &&& step_rule(step, known) is Err ==> step_rule(step, known)->Err_0
                == ErrorModel::Invalid("select a quick action"@)
        },
        step matches StepModel::Shell { script, timeout_seconds, .. } ==> {
            let fits = (exists|i: int|
                0 <= i < script.len() && !text::is_white_space(#[trigger] script[i]))
                && text::byte_len(script) <= 65_536 && 1 <= timeout_seconds <= 3600;
            &&& step_rule(step, known) is Ok <==> fits && template::checked(script, known) is Ok
            &&& !fits ==> step_rule(step, known) == Err::<(), ErrorModel>(
                ErrorModel::Invalid(
                    "the script cannot be empty or exceed 64 KiB, and the timeout must be 1–3600 seconds"@,
                ),
            )
            &&& fits && template::checked(script, known) is Err ==> step_rule(step, known)
                == template::checked(script, known)
        },
        step matches StepModel::Delay { duration_seconds } ==> {
            &&& step_rule(step, known) is Ok <==> duration_seconds <= 86_400
            &&& step_rule(step, known) is Err ==> step_rule(step, known)->Err_0
                == ErrorModel::Invalid("delay cannot exceed 24 hours"@)
        },
        step matches StepModel::Notification { title, body, .. } ==> {
            let fits = (exists|i: int|
                0 <= i < title.len() && !text::is_white_space(#[trigger] title[i]))
                && text::byte_len(title) <= 256 && text::byte_len(body) <= 8192;
            &&& step_rule(step, known) is Ok <==> fits && template::checked(title, known) is Ok
                && template::checked(body, known) is Ok
            &&& !fits ==> step_rule(step, known) == Err::<(), ErrorModel>(
                ErrorModel::Invalid("enter a notification title; the body cannot exceed 8 KiB"@),
            )
            &&& fits && template::checked(title, known) is Err ==> step_rule(step, known)
                == template::checked(title, known)
            &&& fits && template::checked(title, known) is Ok && template::checked(body, known) is Err
                ==> step_rule(step, known) == template::checked(body, known)
        },
{
    match step {
        StepModel::Shell { script, timeout_seconds, .. } => {
            lemma_blank(script);
            let outcomes = seq![
                rule(
                    text::trimmed(script).len() > 0 && text::byte_len(script) <= MAX_SCRIPT_BYTES
                        && 1 <= timeout_seconds <= MAX_TIMEOUT_SECONDS,
                    "the script cannot be empty or exceed 64 KiB, and the timeout must be 1–3600 seconds"@,
                ),
                template::checked(script, known),
            ];
            lemma_no_error(outcomes);
            assert(outcomes[0] is Ok && outcomes[1] is Ok <==> step_rule(step, known) is Ok);
            lemma_first_error(outcomes, 0);
            if outcomes[0] is Ok {
                lemma_first_error(outcomes, 1);
            }
        },
        StepModel::Notification { title, body, .. } => {
            lemma_blank(title);
            let outcomes = seq![
                rule(
                    text::trimmed(title).len() > 0 && text::byte_len(title) <= MAX_TITLE_BYTES
                        && text::byte_len(body) <= MAX_BODY_BYTES,
                    "enter a notification title; the body cannot exceed 8 KiB"@,
                ),
                template::checked(title, known),
                template::checked(body, known),
            ];
            lemma_no_error(outcomes);
            assert(outcomes[0] is Ok && outcomes[1] is Ok && outcomes[2] is Ok <==> step_rule(
                step,
                known,
            ) is Ok);
            lemma_first_error(outcomes, 0);
            if outcomes[0] is Ok {
                lemma_first_error(outcomes, 1);
                if outcomes[1] is Ok {
                    lemma_first_error(outcomes, 2);
                }
            }
        },
        _ => {},
    }
}

/// The first thing that is wrong with a definition is the error: its names, then the numbers of its
/// steps and conditions, then its size, then its trigger, then its conditions and then its steps, one
/// after the other.
pub proof fn law_first_wrong_thing_is_the_error(
    definition: DefinitionModel,
    encoded: Result<nat, ErrorModel>,
    c: int,
    k: int,
)
    requires
        0 <= c <= definition.conditions.len(),
        forall|i: int|
            0 <= i < c ==> condition_rule(#[trigger] definition.conditions[i]) is Ok,
        0 <= k < definition.steps.len(),
        forall|i: int|
            0 <= i < k ==> step_rule(
                #[trigger] definition.steps[i],
                definition.trigger.variables().to_set(),
            ) is Ok,
    ensures
        ({
            let r = validation(definition, encoded);
            let known = definition.trigger.variables().to_set();
            let named = 0 < definition.id.len() && text::byte_len(definition.id) <= 128
                && text::byte_len(definition.name) <= 256;
            let counted = 1 <= definition.steps.len() <= 64 && definition.conditions.len() <= 16;
            let small = encoded is Ok && encoded->Ok_0 <= 524_288;
            let triggered = trigger_rule(definition.trigger) is Ok;
            &&& !named ==> r == Err::<(), ErrorModel>(
                ErrorModel::Invalid("name or identifier is too long"@),
            )
            &&& named && !counted ==> r == Err::<(), ErrorModel>(
                ErrorModel::Invalid("add 1–64 actions and no more than 16 conditions"@),
            )
            &&& named && counted && encoded is Err ==> r == Err::<(), ErrorModel>(encoded->Err_0)
            &&& named && counted && encoded is Ok && !small ==> r == Err::<(), ErrorModel>(
                ErrorModel::Invalid("configuration cannot exceed 512 KiB"@),
            )
            &&& named && counted && small && !triggered ==> r == trigger_rule(definition.trigger)
            &&& named && counted && small && triggered && c < definition.conditions.len()
                && condition_rule(definition.conditions[c]) is Err ==> r == condition_rule(
                definition.conditions[c],
            )
            &&& named && counted && small && triggered && c == definition.conditions.len()
                && step_rule(definition.steps[k], known) is Err ==> r == step_rule(
                definition.steps[k],
                known,
            )
        }),
{
    let outcomes = rule_outcomes(definition, encoded);
    let conditions = definition.conditions;
    let steps = definition.steps;
    let known = definition.trigger.variables().to_set();
    assert(outcomes[0] == names_rule(definition));
    assert(outcomes[1] == counts_rule(definition));
    assert(outcomes[2] == size_rule(encoded));
    assert(outcomes[3] == trigger_rule(definition.trigger));
    assert forall|i: int| 0 <= i < conditions.len() implies outcomes[4 + i] == condition_rule(
        #[trigger] conditions[i],
    ) by {}
    assert forall|i: int| 0 <= i < steps.len() implies outcomes[4 + conditions.len() + i]
        == step_rule(#[trigger] steps[i], known) by {}
    lemma_first_error(outcomes, 0);
    if outcomes[0] is Ok {
        lemma_first_error(outcomes, 1);
        if outcomes[1] is Ok {
            lemma_first_error(outcomes, 2);
            if outcomes[2] is Ok {
                lemma_first_error(outcomes, 3);
                if outcomes[3] is Ok {
                    assert forall|i: int| 0 <= i < 4 + c implies (#[trigger] outcomes[i]) is Ok by {
                        if i >= 4 {
                            assert(condition_rule(conditions[i - 4]) is Ok);
                        }
                    }
                    lemma_first_error(outcomes, 4 + c);
                    if c == conditions.len() {
                        assert forall|i: int| 0 <= i < 4 + c + k implies (
                        #[trigger] outcomes[i]) is Ok by {
                            if i >= 4 + c {
                                assert(step_rule(steps[i - 4 - c], known) is Ok);
                            }
                        }
                        lemma_first_error(outcomes, 4 + c + k);
                        assert(outcomes[4 + c + k] == step_rule(steps[k], known));
                    } else {
                        assert(outcomes[4 + c] == condition_rule(conditions[c]));
                    }
                }
            }
        }
    }
}

} // verus!
