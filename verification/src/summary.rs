//! A definition as a sentence.

use crate::model::{
    ApplicationEvent, ApplicationIdentity, ApplicationModel, AutomationCondition,
    AutomationDefinition, AutomationStep, AutomationTrigger, ConditionModel, DefinitionModel,
    PresenceEvent, SessionEvent, StepModel, TriggerModel,
};
use crate::text;
use crate::text_map::TextMap;
use vstd::prelude::*;

verus! {

/// The short name of a weekday numbered from 1 for Monday; empty for any other number.
pub open spec fn weekday_name(day: u8) -> Seq<char> {
    if day == 1 {
        "Mon"@
    } else if day == 2 {
        "Tue"@
    } else if day == 3 {
        "Wed"@
    } else if day == 4 {
        "Thu"@
    } else if day == 5 {
        "Fri"@
    } else if day == 6 {
        "Sat"@
    } else if day == 7 {
        "Sun"@
    } else {
        ""@
    }
}

pub open spec fn weekday_names(weekdays: Seq<u8>) -> Seq<char> {
    text::joined(weekdays.map_values(|day: u8| weekday_name(day)), "、"@)
}

pub open spec fn presence_phrase(state: PresenceEvent) -> Seq<char> {
    match state {
        PresenceEvent::UnknownPresent => "an unknown person is present"@,
        PresenceEvent::OwnerPresent => "the owner is present"@,
    }
}

pub open spec fn trigger_phrase(trigger: TriggerModel) -> Seq<char> {
    match trigger {
        TriggerModel::Manual => "Run manually"@,
        TriggerModel::Schedule { time, weekdays, .. } => "Every "@ + weekday_names(weekdays)
            + " at "@ + time,
        TriggerModel::Application { event, apps } => "When "@ + text::joined(
            apps.map_values(|app: ApplicationModel| app.name),
            " or "@,
        ) + " "@ + match event {
            ApplicationEvent::Started => "starts"@,
            ApplicationEvent::Exited => "exits"@,
            ApplicationEvent::Foreground => "moves to the foreground"@,
            ApplicationEvent::Background => "moves to the background"@,
        },
        TriggerModel::System { event } => match event {
            SessionEvent::Locked => "When the system locks"@,
            SessionEvent::Unlocked => "When the system unlocks"@,
            SessionEvent::Sleeping => "When the system goes to sleep"@,
            SessionEvent::Resumed => "When the system resumes from sleep"@,
            SessionEvent::Started => "When ArcRelay starts"@,
        },
        TriggerModel::Device { connected, .. } => if connected {
            "When a device connects"@
        } else {
            "When a device disconnects"@
        },
        TriggerModel::Transfer { received, .. } => if received {
            "When receiving files completes"@
        } else {
            "When sending files completes"@
        },
        TriggerModel::Hotkey { shortcut } => "When "@ + shortcut + " is pressed"@,
        TriggerModel::Presence { state } => "When "@ + presence_phrase(state),
    }
}

pub open spec fn condition_phrase(condition: ConditionModel) -> Seq<char> {
    match condition {
        ConditionModel::TimeRange { weekdays, start, end, .. } => weekday_names(weekdays) + " "@
            + start + "–"@ + end,
        ConditionModel::ApplicationRunning { app, running } => app.name + if running {
            "is running"@
        } else {
            "is not running"@
        },
        ConditionModel::DeviceConnected { connected, .. } => "the selected device "@ + if connected {
            "is connected"@
        } else {
            "is not connected"@
        },
        ConditionModel::Presence { state } => presence_phrase(state),
    }
}

/// What a step does; `names` gives the names of quick actions by identifier.
pub open spec fn step_phrase(step: StepModel, names: Map<Seq<char>, Seq<char>>) -> Seq<char> {
    match step {
        StepModel::QuickAction { action_id } => if names.contains_key(action_id) {
            names[action_id]
        } else {
            "Quick action"@
        },
        StepModel::Shell { .. } => "Run script"@,
        StepModel::Delay { duration_seconds } => "Wait "@ + text::decimal(duration_seconds)
            + " seconds"@,
        StepModel::Notification { title, .. } => "Show notification \""@ + title + "\""@,
    }
}

/// The definition as a sentence: the trigger, the conditions where there are any, the steps.
pub open spec fn sentence(
    definition: DefinitionModel,
    names: Map<Seq<char>, Seq<char>>,
) -> Seq<char> {
    let conditions = text::joined(
        definition.conditions.map_values(|c: ConditionModel| condition_phrase(c)),
        ", and "@,
    );
    let steps = text::joined(
        definition.steps.map_values(|s: StepModel| step_phrase(s, names)),
        " → "@,
    );
    trigger_phrase(definition.trigger) + if conditions.len() == 0 {
        Seq::empty()
    } else {
        ", only when "@ + conditions
    } + ", run "@ + steps
}

fn weekday_text(day: u8) -> (r: &'static str)
    ensures
        r@ == weekday_name(day),
{
    match day {
        1 => "Mon",
        2 => "Tue",
        3 => "Wed",
        4 => "Thu",
        5 => "Fri",
        6 => "Sat",
        7 => "Sun",
        _ => "",
    }
}

fn weekday_texts(weekdays: &Vec<u8>) -> (r: String)
    ensures
        r@ == weekday_names(weekdays@),
{
    let ghost names = weekdays@.map_values(|day: u8| weekday_name(day));
    let mut parts: Vec<String> = Vec::new();
    let mut i: usize = 0;
    while i < weekdays.len()
        invariant
            i <= weekdays@.len(),
            names == weekdays@.map_values(|day: u8| weekday_name(day)),
            text::views(parts@) == names.take(i as int),
        decreases weekdays@.len() - i,
    {
        let ghost before = text::views(parts@);
        parts.push(weekday_text(weekdays[i]).to_owned());
        assert(text::views(parts@) =~= before.push(names[i as int]));
        assert(names.take(i + 1) =~= names.take(i as int).push(names[i as int]));
        i = i + 1;
    }
    assert(names.take(i as int) =~= names);
    text::join(&parts, "、")
}

fn application_names(apps: &Vec<ApplicationIdentity>) -> (r: String)
    ensures
        r@ == text::joined(
            text::views(apps@).map_values(|app: ApplicationModel| app.name),
            " or "@,
        ),
{
    let ghost names = text::views(apps@).map_values(|app: ApplicationModel| app.name);
    let mut parts: Vec<String> = Vec::new();
    let mut i: usize = 0;
    while i < apps.len()
        invariant
            i <= apps@.len(),
            names == text::views(apps@).map_values(|app: ApplicationModel| app.name),
            text::views(parts@) == names.take(i as int),
        decreases apps@.len() - i,
    {
        let ghost before = text::views(parts@);
        parts.push(apps[i].name.clone());
        assert(text::views(parts@) =~= before.push(names[i as int]));
        assert(names.take(i + 1) =~= names.take(i as int).push(names[i as int]));
        i = i + 1;
    }
    assert(names.take(i as int) =~= names);
    text::join(&parts, " or ")
}

fn presence_text(state: PresenceEvent) -> (r: &'static str)
    ensures
        r@ == presence_phrase(state),
{
    match state {
        PresenceEvent::UnknownPresent => "an unknown person is present",
        PresenceEvent::OwnerPresent => "the owner is present",
    }
}

fn trigger_text(trigger: &AutomationTrigger) -> (r: String)
    ensures
        r@ == trigger_phrase(trigger@),
{
    match trigger {
        AutomationTrigger::Manual => "Run manually".to_owned(),
        AutomationTrigger::Schedule { time, weekdays, .. } => {
            let mut out = "Every ".to_owned();
            out.append(weekday_texts(weekdays).as_str());
            out.append(" at ");
            out.append(time.as_str());
            out
        },
        AutomationTrigger::Application { event, apps } => {
            let mut out = "When ".to_owned();
            out.append(application_names(apps).as_str());
            out.append(" ");
            out.append(
                match event {
                    ApplicationEvent::Started => "starts",
                    ApplicationEvent::Exited => "exits",
                    ApplicationEvent::Foreground => "moves to the foreground",
                    ApplicationEvent::Background => "moves to the background",
                },
            );
            out
        },
        AutomationTrigger::System { event } => match event {
            SessionEvent::Locked => "When the system locks".to_owned(),
            SessionEvent::Unlocked => "When the system unlocks".to_owned(),
            SessionEvent::Sleeping => "When the system goes to sleep".to_owned(),
            SessionEvent::Resumed => "When the system resumes from sleep".to_owned(),
            SessionEvent::Started => "When ArcRelay starts".to_owned(),
        },
        AutomationTrigger::Device { connected, .. } => if *connected {
            "When a device connects".to_owned()
        } else {
            "When a device disconnects".to_owned()
        },
        AutomationTrigger::Transfer { received, .. } => if *received {
            "When receiving files completes".to_owned()
        } else {
            "When sending files completes".to_owned()
        },
        AutomationTrigger::Hotkey { shortcut } => {
            let mut out = "When ".to_owned();
            out.append(shortcut.as_str());
            out.append(" is pressed");
            out
        },
        AutomationTrigger::Presence { state } => text::joined_pair("When ", presence_text(*state)),
    }
}

fn condition_text(condition: &AutomationCondition) -> (r: String)
    ensures
        r@ == condition_phrase(condition@),
{
    match condition {
        AutomationCondition::TimeRange { weekdays, start, end, .. } => {
            let mut out = weekday_texts(weekdays);
            out.append(" ");
            out.append(start.as_str());
            out.append("–");
            out.append(end.as_str());
            out
        },
        AutomationCondition::ApplicationRunning { app, running } => text::joined_pair(
            app.name.as_str(),
            if *running {
                "is running"
            } else {
                "is not running"
            },
        ),
        AutomationCondition::DeviceConnected { connected, .. } => text::joined_pair(
            "the selected device ",
            if *connected {
                "is connected"
            } else {
                "is not connected"
            },
        ),
        AutomationCondition::Presence { state } => presence_text(*state).to_owned(),
    }
}

fn condition_texts(conditions: &Vec<AutomationCondition>) -> (r: String)
    ensures
        r@ == text::joined(
            text::views(conditions@).map_values(|c: ConditionModel| condition_phrase(c)),
            ", and "@,
        ),
{
    let ghost phrases = text::views(conditions@).map_values(
        |c: ConditionModel| condition_phrase(c),
    );
    let mut parts: Vec<String> = Vec::new();
    let mut i: usize = 0;
    while i < conditions.len()
        invariant
            i <= conditions@.len(),
            phrases == text::views(conditions@).map_values(|c: ConditionModel| condition_phrase(c)),
            text::views(parts@) == phrases.take(i as int),
        decreases conditions@.len() - i,
    {
        let ghost before = text::views(parts@);
        parts.push(condition_text(&conditions[i]));
        assert(text::views(parts@) =~= before.push(phrases[i as int]));
        assert(phrases.take(i + 1) =~= phrases.take(i as int).push(phrases[i as int]));
        i = i + 1;
    }
    assert(phrases.take(i as int) =~= phrases);
    text::join(&parts, ", and ")
}

fn step_text(step: &AutomationStep, names: &TextMap) -> (r: String)
    ensures
        r@ == step_phrase(step@, names@),
{
    match step {
        AutomationStep::QuickAction { action_id } => match names.get(action_id.as_str()) {
            Some(name) => name.clone(),
            None => "Quick action".to_owned(),
        },
        AutomationStep::Shell { .. } => "Run script".to_owned(),
        AutomationStep::Delay { duration_seconds } => {
            let mut out = "Wait ".to_owned();
            out.append(text::decimal_text(*duration_seconds).as_str());
            out.append(" seconds");
            out
        },
        AutomationStep::Notification { title, .. } => {
            let mut out = "Show notification \"".to_owned();
            out.append(title.as_str());
            out.append("\"");
            out
        },
    }
}

fn step_texts(steps: &Vec<AutomationStep>, names: &TextMap) -> (r: String)
    ensures
        r@ == text::joined(
            text::views(steps@).map_values(|s: StepModel| step_phrase(s, names@)),
            " → "@,
        ),
{
    let ghost values = names@;
    let ghost phrases = text::views(steps@).map_values(|s: StepModel| step_phrase(s, values));
    let mut parts: Vec<String> = Vec::new();
    let mut i: usize = 0;
    while i < steps.len()
        invariant
            i <= steps@.len(),
            values == names@,
            phrases == text::views(steps@).map_values(|s: StepModel| step_phrase(s, values)),
            text::views(parts@) == phrases.take(i as int),
        decreases steps@.len() - i,
    {
        let ghost before = text::views(parts@);
        parts.push(step_text(&steps[i], names));
        assert(text::views(parts@) =~= before.push(phrases[i as int]));
        assert(phrases.take(i + 1) =~= phrases.take(i as int).push(phrases[i as int]));
        i = i + 1;
    }
    assert(phrases.take(i as int) =~= phrases);
    text::join(&parts, " → ")
}

impl AutomationDefinition {
    /// The definition as a sentence, without the names of quick actions.
    pub fn summary(&self) -> (r: String)
        ensures
            r@ == sentence(self@, Map::empty()),
    {
        self.summary_with_actions(&TextMap::new())
    }

    /// The definition as a sentence; `names` gives the names of quick actions by identifier.
    pub fn summary_with_actions(&self, names: &TextMap) -> (r: String)
        ensures
            r@ == sentence(self@, names@),
    {
        let conditions = condition_texts(&self.conditions);
        let mut out = trigger_text(&self.trigger);
        if !conditions.as_str().is_empty() {
            out.append(", only when ");
            out.append(conditions.as_str());
        }
        out.append(", run ");
        out.append(step_texts(&self.steps, names).as_str());
        assert(out@ =~= sentence(self@, names@));
        out
    }
}

/// The sentence of a definition begins with its trigger, names its conditions only where it has some,
/// and ends with its steps.
pub proof fn law_sentences(definition: DefinitionModel, names: Map<Seq<char>, Seq<char>>)
    ensures
        ({
            let steps = text::joined(
                Seq::new(
                    definition.steps.len(),
                    |i: int| step_phrase(definition.steps[i], names),
                ),
                " → "@,
            );
            let conditions = text::joined(
                Seq::new(
                    definition.conditions.len(),
                    |i: int| condition_phrase(definition.conditions[i]),
                ),
                ", and "@,
            );
            &&& definition.conditions.len() == 0 ==> sentence(definition, names) == trigger_phrase(
                definition.trigger,
            ) + ", run "@ + steps
            &&& conditions.len() > 0 ==> sentence(definition, names) == trigger_phrase(
                definition.trigger,
            ) + ", only when "@ + conditions + ", run "@ + steps
        }),
{
    let steps = Seq::new(definition.steps.len(), |i: int| step_phrase(definition.steps[i], names));
    let conditions = Seq::new(
        definition.conditions.len(),
        |i: int| condition_phrase(definition.conditions[i]),
    );
    assert(steps =~= definition.steps.map_values(|s: StepModel| step_phrase(s, names)));
    assert(conditions =~= definition.conditions.map_values(|c: ConditionModel| condition_phrase(c)));
    let told = text::joined(conditions, ", and "@);
    let done = text::joined(steps, " → "@);
    if definition.conditions.len() == 0 {
        assert(sentence(definition, names) =~= trigger_phrase(definition.trigger) + ", run "@ + done);
    }
    if told.len() > 0 {
        assert(sentence(definition, names) =~= trigger_phrase(definition.trigger)
            + ", only when "@ + told + ", run "@ + done);
    }
}

/// A quick action is called by the name that is known for its identifier; a delay tells its seconds
/// and a notification its title.
pub proof fn law_phrases_of_steps(step: StepModel, names: Map<Seq<char>, Seq<char>>)
    ensures
        step matches StepModel::QuickAction { action_id } ==> {
            &&& names.contains_key(action_id) ==> step_phrase(step, names) == names[action_id]
            &&& !names.contains_key(action_id) ==> step_phrase(step, names) == "Quick action"@
        },
        step is Shell ==> step_phrase(step, names) == "Run script"@,
        step matches StepModel::Delay { duration_seconds } ==> step_phrase(step, names) == "Wait "@
            + text::decimal(duration_seconds) + " seconds"@,
        step matches StepModel::Notification { title, .. } ==> step_phrase(step, names)
            == "Show notification \""@ + title + "\""@,
{
}

/// A condition is told as it is: with its weekdays and hours, with the name of its application and
/// whether it runs, and with whether the device is connected; presence is told in the same words as
/// in a trigger.
pub proof fn law_phrases_of_conditions(condition: ConditionModel)
    ensures
        condition matches ConditionModel::TimeRange { weekdays, start, end, .. }
            ==> condition_phrase(condition) == weekday_names(weekdays) + " "@ + start + "–"@ + end,
        condition matches ConditionModel::ApplicationRunning { app, running } ==> {
            &&& running ==> condition_phrase(condition) == app.name + "is running"@
            &&& !running ==> condition_phrase(condition) == app.name + "is not running"@
        },
        condition matches ConditionModel::DeviceConnected { connected, .. } ==> {
            &&& connected ==> condition_phrase(condition) == "the selected device is connected"@
            &&& !connected ==> condition_phrase(condition)
                == "the selected device is not connected"@
        },
        condition matches ConditionModel::Presence { state } ==> trigger_phrase(
            TriggerModel::Presence { state },
        ) == "When "@ + condition_phrase(condition),
{
    reveal_strlit("the selected device ");
    reveal_strlit("is connected");
    reveal_strlit("is not connected");
    reveal_strlit("the selected device is connected");
    reveal_strlit("the selected device is not connected");
    if let ConditionModel::DeviceConnected { connected, .. } = condition {
        if connected {
            assert(condition_phrase(condition) =~= "the selected device is connected"@);
        } else {
            assert(condition_phrase(condition) =~= "the selected device is not connected"@);
        }
    }
}

/// A trigger is told with what it waits for.
pub proof fn law_phrases_of_triggers(trigger: TriggerModel)
    ensures
        trigger is Manual ==> trigger_phrase(trigger) == "Run manually"@,
        trigger matches TriggerModel::Schedule { time, weekdays, .. } ==> trigger_phrase(trigger)
            == "Every "@ + weekday_names(weekdays) + " at "@ + time,
        trigger matches TriggerModel::Application { event, apps } ==> {
            let who = "When "@ + text::joined(
                Seq::new(apps.len(), |i: int| apps[i].name),
                " or "@,
            ) + " "@;
            &&& event == ApplicationEvent::Started ==> trigger_phrase(trigger) == who + "starts"@
            &&& event == ApplicationEvent::Exited ==> trigger_phrase(trigger) == who + "exits"@
            &&& event == ApplicationEvent::Foreground ==> trigger_phrase(trigger) == who
                + "moves to the foreground"@
            &&& event == ApplicationEvent::Background ==> trigger_phrase(trigger) == who
                + "moves to the background"@
        },
        trigger matches TriggerModel::System { event } ==> {
            &&& event == SessionEvent::Locked ==> trigger_phrase(trigger)
                == "When the system locks"@
            &&& event == SessionEvent::Unlocked ==> trigger_phrase(trigger)
                == "When the system unlocks"@
            &&& event == SessionEvent::Sleeping ==> trigger_phrase(trigger)
                == "When the system goes to sleep"@
            &&& event == SessionEvent::Resumed ==> trigger_phrase(trigger)
                == "When the system resumes from sleep"@
            &&& event == SessionEvent::Started ==> trigger_phrase(trigger)
                == "When ArcRelay starts"@
        },
        trigger matches TriggerModel::Device { connected, .. } ==> {
            &&& connected ==> trigger_phrase(trigger) == "When a device connects"@
            &&& !connected ==> trigger_phrase(trigger) == "When a device disconnects"@
        },
        trigger matches TriggerModel::Transfer { received, .. } ==> {
            &&& received ==> trigger_phrase(trigger) == "When receiving files completes"@
            &&& !received ==> trigger_phrase(trigger) == "When sending files completes"@
        },
        trigger matches TriggerModel::Hotkey { shortcut } ==> trigger_phrase(trigger) == "When "@
            + shortcut + " is pressed"@,
        trigger matches TriggerModel::Presence { state } ==> {
            &&& state == PresenceEvent::UnknownPresent ==> trigger_phrase(trigger)
                == "When an unknown person is present"@
            &&& state == PresenceEvent::OwnerPresent ==> trigger_phrase(trigger)
                == "When the owner is present"@
        },
{
    reveal_strlit("When ");
    reveal_strlit("an unknown person is present");
    reveal_strlit("the owner is present");
    reveal_strlit("When an unknown person is present");
    reveal_strlit("When the owner is present");
    match trigger {
        TriggerModel::Application { apps, .. } => {
            assert(apps.map_values(|app: ApplicationModel| app.name) =~= Seq::new(
                apps.len(),
                |i: int| apps[i].name,
            ));
        },
        TriggerModel::Presence { state } => match state {
            PresenceEvent::UnknownPresent => {
                assert(trigger_phrase(trigger) =~= "When an unknown person is present"@);
            },
            PresenceEvent::OwnerPresent => {
                assert(trigger_phrase(trigger) =~= "When the owner is present"@);
            },
        },
        _ => {},
    }
}

/// Weekdays are called by their names, Monday being the first, one behind the other.
pub proof fn law_names_of_weekdays(weekdays: Seq<u8>, more: Seq<u8>)
    requires
        weekdays.len() > 0,
        more.len() > 0,
    ensures
        weekday_names(seq![1]) == "Mon"@,
        weekday_names(seq![2]) == "Tue"@,
        weekday_names(seq![3]) == "Wed"@,
        weekday_names(seq![4]) == "Thu"@,
        weekday_names(seq![5]) == "Fri"@,
        weekday_names(seq![6]) == "Sat"@,
        weekday_names(seq![7]) == "Sun"@,
        weekday_names(weekdays + more) == weekday_names(weekdays) + "、"@ + weekday_names(more),
{
    let called = |days: Seq<u8>| days.map_values(|day: u8| weekday_name(day));
    text::law_joined(called(weekdays), called(more), "、"@);
    assert(called(weekdays + more) =~= called(weekdays) + called(more));
}

} // verus!
