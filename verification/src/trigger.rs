//! What a trigger asks of the system, which events it answers to, and what they tell.

use crate::model::{
    ApplicationEvent, ApplicationIdentity, AutomationDefinition, AutomationEvent, AutomationTrigger, DefinitionModel,
    EventModel, PresenceEvent, SessionEvent, TriggerModel,
};
use crate::text;
use vstd::prelude::*;

verus! {

impl PresenceEvent {
    /// The word for the state in identifiers.
    pub open spec fn token_text(self) -> Seq<char> {
        match self {
            PresenceEvent::UnknownPresent => "unknownPresent"@,
            PresenceEvent::OwnerPresent => "ownerPresent"@,
        }
    }

    /// The word for the state in identifiers.
    pub fn token(self) -> (r: &'static str)
        ensures
            r@ == self.token_text(),
    {
        match self {
            PresenceEvent::UnknownPresent => "unknownPresent",
            PresenceEvent::OwnerPresent => "ownerPresent",
        }
    }
}

/// The value of a variable of an event; empty where the event does not provide it.
pub open spec fn value_of(event: EventModel, key: Seq<char>) -> Seq<char> {
    if event.variables.contains_key(key) {
        event.variables[key]
    } else {
        Seq::empty()
    }
}

impl TriggerModel {
    /// The capability that the system needs for the trigger. Its events carry it as their kind.
    pub open spec fn capability_text(self) -> Seq<char> {
        match self {
            TriggerModel::Manual => "manual"@,
            TriggerModel::Schedule { .. } => "schedule"@,
            TriggerModel::Application { event, .. } => "application."@ + match event {
                ApplicationEvent::Started => "started"@,
                ApplicationEvent::Exited => "exited"@,
                ApplicationEvent::Foreground => "foreground"@,
                ApplicationEvent::Background => "background"@,
            },
            TriggerModel::System { event } => "system."@ + match event {
                SessionEvent::Locked => "locked"@,
                SessionEvent::Unlocked => "unlocked"@,
                SessionEvent::Sleeping => "sleeping"@,
                SessionEvent::Resumed => "resumed"@,
                SessionEvent::Started => "started"@,
            },
            TriggerModel::Device { connected, .. } => "device."@ + if connected {
                "connected"@
            } else {
                "disconnected"@
            },
            TriggerModel::Transfer { received, .. } => "transfer."@ + if received {
                "received"@
            } else {
                "sent"@
            },
            TriggerModel::Hotkey { .. } => "hotkey"@,
            TriggerModel::Presence { state } => "presence."@ + state.token_text(),
        }
    }

    /// The event concerns one of the targets that the trigger selects.
    pub open spec fn selects(self, event: EventModel) -> bool {
        match self {
            TriggerModel::Application { apps, .. } => exists|i: int|
                0 <= i < apps.len() && (#[trigger] apps[i]).id == value_of(
                    event,
                    "event.app.id"@,
                ),
            TriggerModel::Device { device_ids, .. } => {
                ||| device_ids.len() == 0
                ||| device_ids.contains(value_of(event, "event.device.id"@))
            },
            TriggerModel::Transfer { device_ids, file_kinds, .. } => {
                &&& {
                    ||| device_ids.len() == 0
                    ||| device_ids.contains(value_of(event, "event.device.id"@))
                }
                &&& {
                    ||| file_kinds.len() == 0
                    ||| exists|i: int|
                        0 <= i < file_kinds.len() && text::pieces(
                            value_of(event, "event.file.kinds"@),
                            ","@,
                        ).contains(#[trigger] file_kinds[i])
                }
            },
            TriggerModel::Hotkey { shortcut } => shortcut == value_of(event, "event.shortcut"@),
            TriggerModel::Schedule { .. } => false,
            _ => true,
        }
    }

    /// The trigger answers to the event.
    pub open spec fn answers(self, event: EventModel) -> bool {
        self.capability_text() == event.kind && self.selects(event)
    }

    /// The variables that the events of the trigger provide.
    pub open spec fn variables(self) -> Seq<Seq<char>> {
        match self {
            TriggerModel::Application { .. } => seq![
                "event.app.name"@,
                "event.app.path"@,
                "event.app.id"@,
            ],
            TriggerModel::Device { .. } => seq!["event.device.name"@, "event.device.id"@],
            TriggerModel::Transfer { received, .. } => if received {
                seq![
                    "event.device.name"@,
                    "event.device.id"@,
                    "event.file.directory"@,
                    "event.file.count"@,
                    "event.file.firstPath"@,
                ]
            } else {
                seq!["event.device.name"@, "event.device.id"@, "event.file.count"@]
            },
            TriggerModel::Schedule { .. } => seq![
                "event.schedule.plannedAt"@,
                "event.schedule.actualAt"@,
            ],
            TriggerModel::Presence { .. } => seq![
                "event.presence.state"@,
                "event.presence.faceCount"@,
                "event.presence.ownerSimilarity"@,
            ],
            _ => Seq::empty(),
        }
    }
}

/// The value of a variable of an event; empty where the event does not provide it.
fn variable<'a>(event: &'a AutomationEvent, key: &str) -> (r: &'a str)
    ensures
        r@ == value_of(event@, key@),
{
    match event.variables.get(key) {
        Some(value) => value.as_str(),
        None => {
            proof {
                reveal_strlit("");
                assert(""@ =~= Seq::<char>::empty());
            }
            ""
        },
    }
}

impl AutomationTrigger {
    /// The capability that the system needs for the trigger.
    pub fn capability(&self) -> (r: String)
        ensures
            r@ == self@.capability_text(),
    {
        match self {
            AutomationTrigger::Manual => "manual".to_owned(),
            AutomationTrigger::Schedule { .. } => "schedule".to_owned(),
            AutomationTrigger::Application { event, .. } => text::joined_pair(
                "application.",
                match event {
                    ApplicationEvent::Started => "started",
                    ApplicationEvent::Exited => "exited",
                    ApplicationEvent::Foreground => "foreground",
                    ApplicationEvent::Background => "background",
                },
            ),
            AutomationTrigger::System { event } => text::joined_pair(
                "system.",
                match event {
                    SessionEvent::Locked => "locked",
                    SessionEvent::Unlocked => "unlocked",
                    SessionEvent::Sleeping => "sleeping",
                    SessionEvent::Resumed => "resumed",
                    SessionEvent::Started => "started",
                },
            ),
            AutomationTrigger::Device { connected, .. } => text::joined_pair(
                "device.",
                if *connected {
                    "connected"
                } else {
                    "disconnected"
                },
            ),
            AutomationTrigger::Transfer { received, .. } => text::joined_pair(
                "transfer.",
                if *received {
                    "received"
                } else {
                    "sent"
                },
            ),
            AutomationTrigger::Hotkey { .. } => "hotkey".to_owned(),
            AutomationTrigger::Presence { state } => text::joined_pair("presence.", state.token()),
        }
    }

    /// Whether the trigger answers to the event. A schedule answers to none: its slots are
    /// queued for their one automation directly.
    pub fn matches(&self, event: &AutomationEvent) -> (r: bool)
        ensures
            r == self@.answers(event@),
    {
        if !text::same_text(self.capability().as_str(), event.kind.as_str()) {
            return false;
        }
        match self {
            AutomationTrigger::Application { apps, .. } => {
                assert(self@->Application_apps == text::views(apps@));
                let r = any_application(apps, variable(event, "event.app.id"));
                assert(r == self@.selects(event@));
                r
            },
            AutomationTrigger::Device { device_ids, .. } => device_ids.is_empty()
                || text::contains_text(device_ids, variable(event, "event.device.id")),
            AutomationTrigger::Transfer { device_ids, file_kinds, .. } => (device_ids.is_empty()
                || text::contains_text(device_ids, variable(event, "event.device.id"))) && (
            file_kinds.is_empty() || any_piece(variable(event, "event.file.kinds"), file_kinds)),
            AutomationTrigger::Hotkey { shortcut } => text::same_text(
                shortcut.as_str(),
                variable(event, "event.shortcut"),
            ),
            AutomationTrigger::Schedule { .. } => false,
            AutomationTrigger::Manual => true,
            AutomationTrigger::System { .. } => true,
            AutomationTrigger::Presence { .. } => true,
        }
    }
}

/// Whether one of `apps` has the identifier `id`.
fn any_application(apps: &Vec<ApplicationIdentity>, id: &str) -> (r: bool)
    ensures
        r == exists|i: int|
            0 <= i < text::views(apps@).len() && (#[trigger] text::views(apps@)[i]).id == id@,
{
    let ghost models = text::views(apps@);
    let mut i: usize = 0;
    while i < apps.len()
        invariant
            i <= apps@.len(),
            models == text::views(apps@),
            forall|j: int| 0 <= j < i ==> (#[trigger] models[j]).id != id@,
        decreases apps@.len() - i,
    {
        if text::same_text(apps[i].id.as_str(), id) {
            assert(models[i as int].id == id@);
            return true;
        }
        i = i + 1;
    }
    false
}

/// Whether one of `wanted` is in the comma-separated `list`.
fn any_piece(list: &str, wanted: &Vec<String>) -> (r: bool)
    ensures
        r == exists|i: int|
            0 <= i < text::views(wanted@).len() && text::pieces(list@, ","@).contains(
                #[trigger] text::views(wanted@)[i],
            ),
{
    proof {
        reveal_strlit(",");
    }
    let ghost models = text::views(wanted@);
    let mut i: usize = 0;
    while i < wanted.len()
        invariant
            i <= wanted@.len(),
            ","@.len() > 0,
            models == text::views(wanted@),
            forall|j: int|
                0 <= j < i ==> !text::pieces(list@, ","@).contains(#[trigger] models[j]),
        decreases wanted@.len() - i,
    {
        if text::has_piece(list, ",", wanted[i].as_str()) {
            assert(models[i as int] == wanted@[i as int]@);
            return true;
        }
        i = i + 1;
    }
    false
}

impl DefinitionModel {
    /// An event of the system runs the automation, as far as the trigger is concerned.
    pub open spec fn responds_to(self, event: EventModel) -> bool {
        self.enabled && self.trigger.answers(event)
    }
}

impl AutomationDefinition {
    /// Whether an event of the system is to be queued for the automation.
    pub fn responds(&self, event: &AutomationEvent) -> (r: bool)
        ensures
            r == self@.responds_to(event@),
    {
        self.enabled && self.trigger.matches(event)
    }
}

/// The positions of those of the first `n` definitions for which an event is queued, in order.
pub open spec fn responding(definitions: Seq<DefinitionModel>, n: nat, event: EventModel) -> Seq<
    int,
>
    decreases n,
{
    if n == 0 {
        Seq::empty()
    } else {
        let rest = responding(definitions, (n - 1) as nat, event);
        if definitions[n - 1].responds_to(event) {
            rest.push(n - 1)
        } else {
            rest
        }
    }
}

/// The positions of the definitions for which an event of the system is queued, in order.
pub fn respondents(definitions: &[AutomationDefinition], event: &AutomationEvent) -> (r: Vec<usize>)
    ensures
        r@.map_values(|i: usize| i as int) == responding(
            text::views(definitions@),
            definitions@.len(),
            event@,
        ),
        forall|k: int| 0 <= k < r@.len() ==> #[trigger] r@[k] < definitions@.len(),
{
    let ghost models = text::views(definitions@);
    let mut found: Vec<usize> = Vec::new();
    let mut i: usize = 0;
    while i < definitions.len()
        invariant
            i <= definitions@.len(),
            models == text::views(definitions@),
            found@.map_values(|k: usize| k as int) == responding(models, i as nat, event@),
            forall|k: int| 0 <= k < found@.len() ==> #[trigger] found@[k] < i,
        decreases definitions@.len() - i,
    {
        assert(models[i as int] == definitions@[i as int]@);
        if definitions[i].responds(event) {
            let ghost before = found@.map_values(|k: usize| k as int);
            found.push(i);
            assert(found@.map_values(|k: usize| k as int) =~= before.push(i as int));
        }
        i = i + 1;
    }
    found
}

/// An event is queued once for each enabled definition whose trigger answers to it, in the order of
/// the definitions, and for no other.
pub proof fn law_dispatch_reaches_the_respondents(
    definitions: Seq<DefinitionModel>,
    n: nat,
    event: EventModel,
)
    requires
        n <= definitions.len(),
    ensures
        forall|k: int|
            0 <= k < responding(definitions, n, event).len() ==> {
                let i = #[trigger] responding(definitions, n, event)[k];
                0 <= i < n && definitions[i].responds_to(event)
            },
        forall|k: int, l: int|
            0 <= k < l < responding(definitions, n, event).len() ==> #[trigger] responding(
                definitions,
                n,
                event,
            )[k] < #[trigger] responding(definitions, n, event)[l],
        forall|i: int|
            0 <= i < n && (#[trigger] definitions[i]).responds_to(event) ==> responding(
                definitions,
                n,
                event,
            ).contains(i),
    decreases n,
{
    if n > 0 {
        let m = (n - 1) as nat;
        law_dispatch_reaches_the_respondents(definitions, m, event);
        let rest = responding(definitions, m, event);
        let all = responding(definitions, n, event);
        assert forall|k: int| 0 <= k < all.len() implies {
            let i = #[trigger] all[k];
            0 <= i < n && definitions[i].responds_to(event)
        } by {
            if k < rest.len() {
                assert(all[k] == rest[k]);
            }
        }
        assert forall|k: int, l: int| 0 <= k < l < all.len() implies #[trigger] all[k]
            < #[trigger] all[l] by {
            assert(all[k] == rest[k]);
            if l < rest.len() {
                assert(all[l] == rest[l]);
            }
        }
        assert forall|i: int| 0 <= i < n && (#[trigger] definitions[i]).responds_to(event) implies
            all.contains(i) by {
            if i < m {
                let k = choose|k: int| 0 <= k < rest.len() && rest[k] == i;
                assert(all[k] == i);
            } else {
                assert(all[all.len() - 1] == i);
            }
        }
    }
}

/// The variables that the events of a trigger provide.
pub fn available_variables(trigger: &AutomationTrigger) -> (r: Vec<&'static str>)
    ensures
        text::views(r@) == trigger@.variables(),
{
    let r = match trigger {
        AutomationTrigger::Application { .. } => vec![
            "event.app.name",
            "event.app.path",
            "event.app.id",
        ],
        AutomationTrigger::Device { .. } => vec!["event.device.name", "event.device.id"],
        AutomationTrigger::Transfer { received, .. } => if *received {
            vec![
                "event.device.name",
                "event.device.id",
                "event.file.directory",
                "event.file.count",
                "event.file.firstPath",
            ]
        } else {
            vec!["event.device.name", "event.device.id", "event.file.count"]
        },
        AutomationTrigger::Schedule { .. } => vec![
            "event.schedule.plannedAt",
            "event.schedule.actualAt",
        ],
        AutomationTrigger::Presence { .. } => vec![
            "event.presence.state",
            "event.presence.faceCount",
            "event.presence.ownerSimilarity",
        ],
        _ => vec![],
    };
    assert(text::views(r@) =~= trigger@.variables());
    r
}

/// An application is recognised by its identifier alone: its display name and its path, in the
/// trigger or in the event, take no part.
pub proof fn law_application_identity_is_stable(
    trigger: TriggerModel,
    other: TriggerModel,
    event: EventModel,
    renamed: EventModel,
)
    requires
        trigger is Application,
        other is Application,
        trigger->Application_event == other->Application_event,
        trigger->Application_apps.len() == other->Application_apps.len(),
        forall|i: int|
            0 <= i < trigger->Application_apps.len() ==> (#[trigger] trigger->Application_apps[i]).id
                == other->Application_apps[i].id,
        event.kind == renamed.kind,
        value_of(event, "event.app.id"@) == value_of(renamed, "event.app.id"@),
    ensures
        trigger.answers(event) == other.answers(renamed),
{
    let ours = trigger->Application_apps;
    let theirs = other->Application_apps;
    let wanted = value_of(event, "event.app.id"@);
    if trigger.selects(event) {
        let i = choose|i: int| 0 <= i < ours.len() && (#[trigger] ours[i]).id == wanted;
        assert(theirs[i].id == wanted);
    }
    if other.selects(renamed) {
        let i = choose|i: int| 0 <= i < theirs.len() && (#[trigger] theirs[i]).id == wanted;
        assert(ours[i].id == wanted);
    }
}

/// A trigger that selects several targets answers to an event of any one of them.
pub proof fn law_every_target_is_answered(trigger: TriggerModel, event: EventModel, i: int)
    requires
        event.kind == trigger.capability_text(),
        trigger is Application ==> 0 <= i < trigger->Application_apps.len()
            && trigger->Application_apps[i].id == value_of(event, "event.app.id"@),
        trigger is Device ==> 0 <= i < trigger->Device_device_ids.len()
            && trigger->Device_device_ids[i] == value_of(event, "event.device.id"@),
        trigger is Application || trigger is Device,
    ensures
        trigger.answers(event),
{
}

/// No event starts a scheduled automation, and no event starts a disabled one.
pub proof fn law_schedules_and_disabled_automations_answer_nothing(
    definition: DefinitionModel,
    event: EventModel,
)
    requires
        definition.trigger is Schedule || !definition.enabled,
    ensures
        !definition.responds_to(event),
{
}

/// The kinds under which the events of each trigger are reported.
pub proof fn law_kinds_of_events(trigger: TriggerModel)
    ensures
        trigger is Manual ==> trigger.capability_text() == "manual"@,
        trigger is Schedule ==> trigger.capability_text() == "schedule"@,
        trigger is Hotkey ==> trigger.capability_text() == "hotkey"@,
        trigger matches TriggerModel::Application { event, .. } ==> {
            &&& event == ApplicationEvent::Started ==> trigger.capability_text()
                == "application.started"@
            &&& event == ApplicationEvent::Exited ==> trigger.capability_text()
                == "application.exited"@
            &&& event == ApplicationEvent::Foreground ==> trigger.capability_text()
                == "application.foreground"@
            &&& event == ApplicationEvent::Background ==> trigger.capability_text()
                == "application.background"@
        },
        trigger matches TriggerModel::System { event } ==> {
            &&& event == SessionEvent::Locked ==> trigger.capability_text() == "system.locked"@
            &&& event == SessionEvent::Unlocked ==> trigger.capability_text() == "system.unlocked"@
            &&& event == SessionEvent::Sleeping ==> trigger.capability_text() == "system.sleeping"@
            &&& event == SessionEvent::Resumed ==> trigger.capability_text() == "system.resumed"@
            &&& event == SessionEvent::Started ==> trigger.capability_text() == "system.started"@
        },
        trigger matches TriggerModel::Device { connected, .. } ==> {
            &&& connected ==> trigger.capability_text() == "device.connected"@
            &&& !connected ==> trigger.capability_text() == "device.disconnected"@
        },
        trigger matches TriggerModel::Transfer { received, .. } ==> {
            &&& received ==> trigger.capability_text() == "transfer.received"@
            &&& !received ==> trigger.capability_text() == "transfer.sent"@
        },
        trigger matches TriggerModel::Presence { state } ==> {
            &&& state == PresenceEvent::UnknownPresent ==> trigger.capability_text()
                == "presence.unknownPresent"@
            &&& state == PresenceEvent::OwnerPresent ==> trigger.capability_text()
                == "presence.ownerPresent"@
        },
{
    reveal_strlit("application.");
    reveal_strlit("started");
    reveal_strlit("exited");
    reveal_strlit("foreground");
    reveal_strlit("background");
    reveal_strlit("system.");
    reveal_strlit("locked");
    reveal_strlit("unlocked");
    reveal_strlit("sleeping");
    reveal_strlit("resumed");
    reveal_strlit("device.");
    reveal_strlit("connected");
    reveal_strlit("disconnected");
    reveal_strlit("transfer.");
    reveal_strlit("received");
    reveal_strlit("sent");
    reveal_strlit("presence.");
    reveal_strlit("unknownPresent");
    reveal_strlit("ownerPresent");
    reveal_strlit("application.started");
    reveal_strlit("application.exited");
    reveal_strlit("application.foreground");
    reveal_strlit("application.background");
    reveal_strlit("system.locked");
    reveal_strlit("system.unlocked");
    reveal_strlit("system.sleeping");
    reveal_strlit("system.resumed");
    reveal_strlit("system.started");
    reveal_strlit("device.connected");
    reveal_strlit("device.disconnected");
    reveal_strlit("transfer.received");
    reveal_strlit("transfer.sent");
    reveal_strlit("presence.unknownPresent");
    reveal_strlit("presence.ownerPresent");
    let kind = trigger.capability_text();
    match trigger {
        TriggerModel::Application { event, .. } => match event {
            ApplicationEvent::Started => {
                assert(kind =~= "application.started"@);
            },
            ApplicationEvent::Exited => {
                assert(kind =~= "application.exited"@);
            },
            ApplicationEvent::Foreground => {
                assert(kind =~= "application.foreground"@);
            },
            ApplicationEvent::Background => {
                assert(kind =~= "application.background"@);
            },
        },
        TriggerModel::System { event } => match event {
            SessionEvent::Locked => {
                assert(kind =~= "system.locked"@);
            },
            SessionEvent::Unlocked => {
                assert(kind =~= "system.unlocked"@);
            },
            SessionEvent::Sleeping => {
                assert(kind =~= "system.sleeping"@);
            },
            SessionEvent::Resumed => {
                assert(kind =~= "system.resumed"@);
            },
            SessionEvent::Started => {
                assert(kind =~= "system.started"@);
            },
        },
        TriggerModel::Device { connected, .. } => {
            if connected {
                assert(kind =~= "device.connected"@);
            } else {
                assert(kind =~= "device.disconnected"@);
            }
        },
        TriggerModel::Transfer { received, .. } => {
            if received {
                assert(kind =~= "transfer.received"@);
            } else {
                assert(kind =~= "transfer.sent"@);
            }
        },
        TriggerModel::Presence { state } => match state {
            PresenceEvent::UnknownPresent => {
                assert(kind =~= "presence.unknownPresent"@);
            },
            PresenceEvent::OwnerPresent => {
                assert(kind =~= "presence.ownerPresent"@);
            },
        },
        _ => {},
    }
}

/// A trigger on devices answers to an event of its kind exactly where it names no device or the
/// event's device is one that it names. `device` is the device of the event, and empty where the
/// event does not tell it.
pub proof fn law_only_named_devices_are_answered(
    trigger: TriggerModel,
    event: EventModel,
    device: Seq<char>,
)
    requires
        trigger is Device,
        event.variables.contains_key("event.device.id"@) ==> device
            == event.variables["event.device.id"@],
        !event.variables.contains_key("event.device.id"@) ==> device.len() == 0,
    ensures
        ({
            let ids = trigger->Device_device_ids;
            let kind = if trigger->Device_connected {
                "device.connected"@
            } else {
                "device.disconnected"@
            };
            &&& event.kind != kind ==> !trigger.answers(event)
            &&& event.kind == kind && ids.len() == 0 ==> trigger.answers(event)
            &&& event.kind == kind && ids.len() > 0 ==> (trigger.answers(event) <==> exists|i: int|
                0 <= i < ids.len() && #[trigger] ids[i] == device)
        }),
{
    law_kinds_of_events(trigger);
    assert(device =~= value_of(event, "event.device.id"@));
}

/// A trigger on transfers answers to an event of its kind exactly where it names no device or the
/// event's device, and no kind of file or one of the event's. `device` is the device of the event and
/// `kinds` are its kinds of files, of which the event tells a list separated by commas.
pub proof fn law_only_named_transfers_are_answered(
    trigger: TriggerModel,
    event: EventModel,
    device: Seq<char>,
    kinds: Seq<Seq<char>>,
)
    requires
        trigger is Transfer,
        event.variables.contains_key("event.device.id"@) ==> device
            == event.variables["event.device.id"@],
        !event.variables.contains_key("event.device.id"@) ==> device.len() == 0,
        kinds.len() > 0,
        forall|k: int| 0 <= k < kinds.len() ==> !(#[trigger] kinds[k]).contains(','),
        event.variables.contains_key("event.file.kinds"@) ==> text::joined(kinds, seq![','])
            == event.variables["event.file.kinds"@],
        !event.variables.contains_key("event.file.kinds"@) ==> text::joined(kinds, seq![',']).len()
            == 0,
    ensures
        ({
            let ids = trigger->Transfer_device_ids;
            let wanted = trigger->Transfer_file_kinds;
            let kind = if trigger->Transfer_received {
                "transfer.received"@
            } else {
                "transfer.sent"@
            };
            let device_fits = exists|i: int| 0 <= i < ids.len() && #[trigger] ids[i] == device;
            let file_fits = exists|i: int, k: int|
                #![trigger wanted[i], kinds[k]]
                0 <= i < wanted.len() && 0 <= k < kinds.len() && wanted[i] == kinds[k];
            &&& event.kind != kind ==> !trigger.answers(event)
            &&& event.kind == kind ==> (trigger.answers(event) <==> (ids.len() == 0 || device_fits)
                && (wanted.len() == 0 || file_fits))
        }),
{
    law_kinds_of_events(trigger);
    assert(device =~= value_of(event, "event.device.id"@));
    reveal_strlit(",");
    let comma = seq![','];
    assert(","@ =~= comma);
    let told = value_of(event, "event.file.kinds"@);
    assert(told =~= text::joined(kinds, comma));
    assert forall|k: int| 0 <= k < kinds.len() implies !(#[trigger] kinds[k]).contains(
        comma[0],
    ) by {}
    text::law_pieces_of_joined(kinds, comma);
    let wanted = trigger->Transfer_file_kinds;
    if exists|i: int| 0 <= i < wanted.len() && kinds.contains(#[trigger] wanted[i]) {
        let i = choose|i: int| 0 <= i < wanted.len() && kinds.contains(#[trigger] wanted[i]);
        let k = choose|k: int| 0 <= k < kinds.len() && kinds[k] == wanted[i];
        assert(wanted[i] == kinds[k]);
    }
    if exists|i: int, k: int|
        #![trigger wanted[i], kinds[k]]
        0 <= i < wanted.len() && 0 <= k < kinds.len() && wanted[i] == kinds[k] {
        let (i, k) = choose|i: int, k: int|
            #![trigger wanted[i], kinds[k]]
            0 <= i < wanted.len() && 0 <= k < kinds.len() && wanted[i] == kinds[k];
        assert(kinds.contains(wanted[i]));
    }
}

/// A trigger on applications answers exactly to the events of its kind that concern an application
/// with one of the identifiers that it names; a shortcut to the event that tells this very shortcut;
/// the other triggers to every event of their kind, and a schedule to none.
pub proof fn law_what_is_answered(trigger: TriggerModel, event: EventModel)
    requires
        event.kind == trigger.capability_text(),
    ensures
        trigger matches TriggerModel::Application { apps, .. } ==> {
            &&& event.variables.contains_key("event.app.id"@) ==> (trigger.answers(event)
                <==> exists|i: int|
                0 <= i < apps.len() && (#[trigger] apps[i]).id == event.variables["event.app.id"@])
            &&& !event.variables.contains_key("event.app.id"@) ==> (trigger.answers(event)
                <==> exists|i: int| 0 <= i < apps.len() && (#[trigger] apps[i]).id.len() == 0)
        },
        trigger matches TriggerModel::Hotkey { shortcut } ==> {
            &&& event.variables.contains_key("event.shortcut"@) ==> (trigger.answers(event)
                <==> shortcut == event.variables["event.shortcut"@])
            &&& !event.variables.contains_key("event.shortcut"@) ==> (trigger.answers(event)
                <==> shortcut.len() == 0)
        },
        trigger is Manual || trigger is System || trigger is Presence ==> trigger.answers(event),
        trigger is Schedule ==> !trigger.answers(event),
{
    if let TriggerModel::Application { apps, .. } = trigger {
        if !event.variables.contains_key("event.app.id"@) {
            if exists|i: int| 0 <= i < apps.len() && (#[trigger] apps[i]).id.len() == 0 {
                let i = choose|i: int| 0 <= i < apps.len() && (#[trigger] apps[i]).id.len() == 0;
                assert(apps[i].id =~= Seq::<char>::empty());
            }
        }
    }
    if let TriggerModel::Hotkey { shortcut } = trigger {
        if shortcut.len() == 0 {
            assert(shortcut =~= Seq::<char>::empty());
        }
    }
}

/// No trigger answers to an event of another kind than its own, and an enabled automation responds
/// to whatever its trigger answers.
pub proof fn law_enabled_automations_respond(definition: DefinitionModel, event: EventModel)
    ensures
        event.kind != definition.trigger.capability_text() ==> !definition.responds_to(event),
        definition.enabled ==> (definition.responds_to(event) <==> definition.trigger.answers(
            event,
        )),
{
}

/// The variables that texts may use are those that the events of the trigger tell, and no others.
pub proof fn law_variables_of_triggers(trigger: TriggerModel, key: Seq<char>)
    ensures
        trigger.variables().contains(key) <==> {
            ||| trigger is Application && (key == "event.app.name"@ || key == "event.app.path"@ || key
                == "event.app.id"@)
            ||| (trigger is Device || trigger is Transfer) && (key == "event.device.name"@ || key
                == "event.device.id"@)
            ||| trigger is Transfer && key == "event.file.count"@
            ||| trigger is Transfer && trigger->Transfer_received && (key
                == "event.file.directory"@ || key == "event.file.firstPath"@)
            ||| trigger is Schedule && (key == "event.schedule.plannedAt"@ || key
                == "event.schedule.actualAt"@)
            ||| trigger is Presence && (key == "event.presence.state"@ || key
                == "event.presence.faceCount"@ || key == "event.presence.ownerSimilarity"@)
        },
{
    let all = trigger.variables();
    if all.contains(key) {
        let i = choose|i: int| 0 <= i < all.len() && all[i] == key;
        assert(i == 0 || i == 1 || i == 2 || i == 3 || i == 4);
    }
    if all.len() > 0 {
        assert(all.contains(all[0]));
        if all.len() > 1 {
            assert(all.contains(all[1]));
        }
        if all.len() > 2 {
            assert(all.contains(all[2]));
        }
        if all.len() > 3 {
            assert(all.contains(all[3]));
            assert(all.contains(all[4]));
        }
    }
}

} // verus!
