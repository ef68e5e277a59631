use arcrelay_automation::conditions::within_range;
use arcrelay_automation::saving::{check_capacity, check_enabling, check_submission, revise};
use arcrelay_automation::schedule::choose_slot;
use arcrelay_automation::template::prepare_script;
use arcrelay_automation::trigger::respondents;
use arcrelay_automation::validation::{check_time, validate_variables};
use arcrelay_automation::{
    available_variables, condition_failure, next_schedule, preflight, render_text, validate,
    ActionSnapshot, ApplicationEvent, ApplicationIdentity, AutomationCondition,
    AutomationDefinition, AutomationError, AutomationEvent, AutomationIssue, AutomationStep,
    AutomationTrigger, Capability, EnvironmentState, PresenceEvent, RunMode, SessionEvent,
    ShellKind, TextMap, Timestamp,
};
use chrono::{TimeZone, Utc};

fn utc(year: i32, month: u32, day: u32, hour: u32, minute: u32, second: u32) -> Timestamp {
    let at = Utc
        .with_ymd_and_hms(year, month, day, hour, minute, second)
        .unwrap();
    Timestamp::new(at.timestamp(), 0).unwrap()
}

fn app(id: &str, name: &str) -> ApplicationIdentity {
    ApplicationIdentity {
        id: id.to_string(),
        name: name.to_string(),
        path: format!("/Applications/{name}.app"),
    }
}

fn shell_step(script: &str, timeout_seconds: u32) -> AutomationStep {
    AutomationStep::Shell {
        shell: ShellKind::Bash,
        script: script.to_string(),
        working_directory: None,
        timeout_seconds,
    }
}

fn notification(title: &str, body: &str, mobile: bool) -> AutomationStep {
    AutomationStep::Notification {
        title: title.to_string(),
        body: body.to_string(),
        send_to_connected_devices: mobile,
    }
}

fn definition(trigger: AutomationTrigger) -> AutomationDefinition {
    let at = utc(2026, 1, 1, 0, 0, 0);
    let mut d = AutomationDefinition::with_identity("one".to_string(), trigger, at, at);
    d.name = "One".to_string();
    d.steps.push(AutomationStep::Delay {
        duration_seconds: 5,
    });
    d
}

fn schedule(time: &str, weekdays: &[u8], timezone: &str) -> AutomationTrigger {
    AutomationTrigger::Schedule {
        time: time.to_string(),
        weekdays: weekdays.to_vec(),
        timezone: timezone.to_string(),
        catch_up: false,
    }
}

fn range(weekdays: &[u8], start: &str, end: &str, timezone: &str) -> AutomationCondition {
    AutomationCondition::TimeRange {
        weekdays: weekdays.to_vec(),
        start: start.to_string(),
        end: end.to_string(),
        timezone: timezone.to_string(),
    }
}

fn refused(d: &AutomationDefinition) -> String {
    match validate(d, Ok(100)) {
        Err(AutomationError::Invalid(text)) => text,
        other => panic!("{other:?}"),
    }
}

fn event(kind: &str, variables: &[(&str, &str)]) -> AutomationEvent {
    let mut e = AutomationEvent::with_identity("e".to_string(), kind, utc(2026, 1, 1, 0, 0, 0));
    for (key, value) in variables {
        e.variables.insert(key.to_string(), value.to_string());
    }
    e
}

#[test]
fn capabilities_of_triggers() {
    let cases = [
        (AutomationTrigger::Manual, "manual"),
        (schedule("09:00", &[1], "UTC"), "schedule"),
        (
            AutomationTrigger::Application {
                event: ApplicationEvent::Exited,
                apps: vec![],
            },
            "application.exited",
        ),
        (
            AutomationTrigger::System {
                event: SessionEvent::Sleeping,
            },
            "system.sleeping",
        ),
        (
            AutomationTrigger::Device {
                connected: false,
                device_ids: vec![],
            },
            "device.disconnected",
        ),
        (
            AutomationTrigger::Transfer {
                received: false,
                device_ids: vec![],
                file_kinds: vec![],
            },
            "transfer.sent",
        ),
        (
            AutomationTrigger::Hotkey {
                shortcut: "Ctrl+K".to_string(),
            },
            "hotkey",
        ),
        (
            AutomationTrigger::Presence {
                state: PresenceEvent::OwnerPresent,
            },
            "presence.ownerPresent",
        ),
    ];
    for (trigger, capability) in cases {
        assert_eq!(trigger.capability(), capability);
    }
}

#[test]
fn devices_files_and_shortcuts_are_matched() {
    let device = AutomationTrigger::Device {
        connected: true,
        device_ids: vec!["a".to_string(), "b".to_string()],
    };
    assert!(device.matches(&event("device.connected", &[("event.device.id", "b")])));
    assert!(!device.matches(&event("device.connected", &[("event.device.id", "c")])));
    assert!(!device.matches(&event("device.connected", &[])));
    assert!(!device.matches(&event("device.disconnected", &[("event.device.id", "b")])));
    let transfer = AutomationTrigger::Transfer {
        received: true,
        device_ids: vec![],
        file_kinds: vec!["image".to_string(), "video".to_string()],
    };
    let kinds = |list: &str| event("transfer.received", &[("event.file.kinds", list)]);
    assert!(transfer.matches(&kinds("text,video")));
    assert!(!transfer.matches(&kinds("text,videos")));
    assert!(!transfer.matches(&kinds("")));
    let hotkey = AutomationTrigger::Hotkey {
        shortcut: "Ctrl+K".to_string(),
    };
    assert!(hotkey.matches(&event("hotkey", &[("event.shortcut", "Ctrl+K")])));
    assert!(!hotkey.matches(&event("hotkey", &[("event.shortcut", "Ctrl+J")])));
    assert!(!schedule("09:00", &[1], "UTC").matches(&event("schedule", &[])));
    let mut d = definition(AutomationTrigger::Manual);
    assert!(d.responds(&event("manual", &[])));
    d.enabled = false;
    assert!(!d.responds(&event("manual", &[])));
}

#[test]
fn sentences() {
    let mut d = definition(schedule("09:30", &[1, 7, 9], "UTC"));
    assert_eq!(d.summary(), "Every Mon、Sun、 at 09:30, run Wait 5 seconds");
    d.trigger = AutomationTrigger::Application {
        event: ApplicationEvent::Foreground,
        apps: vec![app("a", "Zoom"), app("b", "Mail")],
    };
    d.conditions = vec![
        range(&[1, 2], "09:00", "17:00", "UTC"),
        AutomationCondition::ApplicationRunning {
            app: app("c", "Music "),
            running: false,
        },
        AutomationCondition::DeviceConnected {
            device_id: "d".to_string(),
            connected: true,
        },
        AutomationCondition::Presence {
            state: PresenceEvent::OwnerPresent,
        },
    ];
    d.steps = vec![
        AutomationStep::QuickAction {
            action_id: "mute".to_string(),
        },
        AutomationStep::QuickAction {
            action_id: "other".to_string(),
        },
        shell_step("true", 1),
        notification("Hi", "", false),
    ];
    let mut names = TextMap::new();
    names.insert("mute".to_string(), "Mute".to_string());
    assert_eq!(
        d.summary_with_actions(&names),
        "When Zoom or Mail moves to the foreground, only when Mon、Tue 09:00–17:00, and Music is \
         not running, and the selected device is connected, and the owner is present, run Mute → \
         Quick action → Run script → Show notification \"Hi\""
    );
    d.conditions = vec![];
    d.steps = vec![];
    d.trigger = AutomationTrigger::System {
        event: SessionEvent::Started,
    };
    assert_eq!(d.summary(), "When ArcRelay starts, run ");
}

#[test]
fn limits_of_definitions() {
    let mut d = definition(AutomationTrigger::Manual);
    assert!(validate(&d, Ok(100)).is_ok());
    assert!(validate(&d, Ok(524288)).is_ok());
    assert!(matches!(
        validate(&d, Ok(524289)),
        Err(AutomationError::Invalid(text)) if text == "configuration cannot exceed 512 KiB"
    ));
    assert!(matches!(
        validate(&d, Err(AutomationError::Json("broken".to_string()))),
        Err(AutomationError::Json(text)) if text == "broken"
    ));
    d.id = String::new();
    assert_eq!(refused(&d), "name or identifier is too long");
    d.id = "x".repeat(128);
    d.name = "ä".repeat(128);
    assert!(validate(&d, Ok(100)).is_ok());
    d.name.push('x');
    assert_eq!(refused(&d), "name or identifier is too long");
    d.name = String::new();
    d.steps = vec![];
    assert_eq!(
        refused(&d),
        "add 1–64 actions and no more than 16 conditions"
    );
    for _ in 0..64 {
        d.steps.push(AutomationStep::Delay {
            duration_seconds: 86400,
        });
    }
    assert!(validate(&d, Ok(100)).is_ok());
    d.steps[63] = AutomationStep::Delay {
        duration_seconds: 86401,
    };
    assert_eq!(refused(&d), "delay cannot exceed 24 hours");
}

#[test]
fn rules_of_triggers_and_conditions() {
    let time = "select a valid time, weekday, and time zone";
    assert_eq!(refused(&definition(schedule("9 am", &[1], "UTC"))), time);
    assert_eq!(refused(&definition(schedule("24:00", &[1], "UTC"))), time);
    assert_eq!(refused(&definition(schedule("09:00", &[], "UTC"))), time);
    assert_eq!(refused(&definition(schedule("09:00", &[8], "UTC"))), time);
    assert_eq!(refused(&definition(schedule("09:00", &[0], "UTC"))), time);
    assert_eq!(
        refused(&definition(schedule("09:00", &[1], "Mars/Olympus"))),
        time
    );
    assert!(validate(
        &definition(schedule("09:00", &[1, 7], "Europe/Berlin")),
        Ok(100)
    )
    .is_ok());
    let apps = |apps| AutomationTrigger::Application {
        event: ApplicationEvent::Started,
        apps,
    };
    let choose = "select an application from the installed applications";
    assert_eq!(refused(&definition(apps(vec![]))), choose);
    assert_eq!(refused(&definition(apps(vec![app("", "A")]))), choose);
    assert_eq!(
        refused(&definition(apps(vec![app("a", "A"); 65]))),
        choose
    );
    assert!(validate(&definition(apps(vec![app("a", "A"); 64])), Ok(100)).is_ok());
    assert_eq!(
        refused(&definition(AutomationTrigger::Hotkey {
            shortcut: " \u{2003}\t".to_string()
        })),
        "record a global shortcut"
    );
    let mut d = definition(AutomationTrigger::Manual);
    d.conditions = vec![range(&[1], "09:00", "25:00", "UTC")];
    assert_eq!(refused(&d), time);
    d.conditions = vec![AutomationCondition::ApplicationRunning {
        app: app("", "A"),
        running: true,
    }];
    assert_eq!(refused(&d), "select an application for the condition");
    d.conditions = vec![AutomationCondition::DeviceConnected {
        device_id: String::new(),
        connected: true,
    }];
    assert_eq!(refused(&d), "select a device for the condition");
    d.conditions = vec![
        AutomationCondition::Presence {
            state: PresenceEvent::OwnerPresent
        };
        17
    ];
    assert_eq!(
        refused(&d),
        "add 1–64 actions and no more than 16 conditions"
    );
}

#[test]
fn rules_of_steps() {
    let mut d = definition(schedule("09:00", &[1], "UTC"));
    let mut refused_step = |step: AutomationStep| {
        d.steps = vec![step];
        match validate(&d, Ok(100)) {
            Err(AutomationError::Invalid(text)) => Some(text),
            Ok(()) => None,
            Err(other) => panic!("{other:?}"),
        }
    };
    let script = "the script cannot be empty or exceed 64 KiB, and the timeout must be 1–3600 \
                  seconds";
    assert_eq!(
        refused_step(AutomationStep::QuickAction {
            action_id: String::new()
        })
        .as_deref(),
        Some("select a quick action")
    );
    assert_eq!(refused_step(shell_step(" \n", 1)).as_deref(), Some(script));
    assert_eq!(refused_step(shell_step("true", 0)).as_deref(), Some(script));
    assert_eq!(
        refused_step(shell_step("true", 3601)).as_deref(),
        Some(script)
    );
    assert_eq!(refused_step(shell_step(&"x".repeat(65536), 3600)), None);
    assert_eq!(
        refused_step(shell_step(&"x".repeat(65537), 3600)).as_deref(),
        Some(script)
    );
    assert_eq!(
        refused_step(shell_step("echo {{ event.app.id }}", 1)).as_deref(),
        Some("this trigger does not provide variable event.app.id")
    );
    assert_eq!(
        refused_step(shell_step("echo {{event.schedule.plannedAt}}", 1)),
        None
    );
    let texts = "enter a notification title; the body cannot exceed 8 KiB";
    assert_eq!(
        refused_step(notification(" ", "", false)).as_deref(),
        Some(texts)
    );
    assert_eq!(
        refused_step(notification(&"x".repeat(257), "", false)).as_deref(),
        Some(texts)
    );
    assert_eq!(
        refused_step(notification("t", &"x".repeat(8193), false)).as_deref(),
        Some(texts)
    );
    assert_eq!(
        refused_step(notification("{{ nothing", "{{ x }}", false)).as_deref(),
        Some("event variable is missing a closing tag")
    );
    assert_eq!(
        refused_step(notification("t", "{{ x }}", false)).as_deref(),
        Some("this trigger does not provide variable x")
    );
}

#[test]
fn rule_on_times_alone() {
    assert!(check_time(true, &[1, 7], true).is_ok());
    assert!(check_time(false, &[1], true).is_err());
    assert!(check_time(true, &[1], false).is_err());
    assert!(check_time(true, &[3, 8], true).is_err());
    assert!(check_time(true, &[], true).is_err());
}

#[test]
fn texts_are_filled_in() {
    let e = event("x", &[("a", "1"), ("b c", "{{ a }}")]);
    assert_eq!(render_text("plain } text", &e).unwrap(), "plain } text");
    assert_eq!(render_text("", &e).unwrap(), "");
    assert_eq!(
        render_text("<{{a}}|{{ \u{3000}a\t}}|{{ b c }}>", &e).unwrap(),
        "<1|1|{{ a }}>"
    );
    let failure = |text: &str| render_text(text, &e).unwrap_err().message();
    assert_eq!(
        failure("{{ a }}{{"),
        "invalid automation: invalid variable"
    );
    assert_eq!(
        failure("{{ z }}{{"),
        "invalid automation: the event does not provide variable z; test with a real event"
    );
}

#[test]
fn variables_are_checked_against_the_trigger() {
    let device = AutomationTrigger::Device {
        connected: true,
        device_ids: vec![],
    };
    assert_eq!(
        available_variables(&device),
        vec!["event.device.name", "event.device.id"]
    );
    assert!(validate_variables("{{ event.device.id }} {{event.device.name}}", &device).is_ok());
    assert!(validate_variables("{{ event.file.count }}", &device).is_err());
    assert!(available_variables(&AutomationTrigger::Manual).is_empty());
}

#[test]
fn scripts_read_variables_from_the_environment() {
    let e = event("x", &[("a", "1"), ("b", "2")]);
    let (script, environment) = prepare_script("{{ b }}-{{ a }}-{{ b }}", &e, false).unwrap();
    assert_eq!(
        script,
        "${ARCRELAY_EVENT_0}-${ARCRELAY_EVENT_1}-${ARCRELAY_EVENT_2}"
    );
    assert_eq!(environment.len(), 3);
    assert_eq!(environment.get("ARCRELAY_EVENT_0").unwrap(), "2");
    assert_eq!(environment.get("ARCRELAY_EVENT_1").unwrap(), "1");
    assert_eq!(environment.get("ARCRELAY_EVENT_2").unwrap(), "2");
    let (script, _) = prepare_script("echo {{ a }}", &e, true).unwrap();
    assert_eq!(script, "echo $env:ARCRELAY_EVENT_0");
    assert_eq!(
        prepare_script("{{ c }}", &e, false).unwrap_err().message(),
        "invalid automation: the event does not provide variable c; select a real activity when \
         testing"
    );
    assert_eq!(
        prepare_script("{{ a", &e, false).unwrap_err().message(),
        "invalid automation: invalid event variable"
    );
    let many = "{{ a }}".repeat(11);
    let (script, environment) = prepare_script(&many, &e, true).unwrap();
    assert!(script.ends_with("$env:ARCRELAY_EVENT_10"));
    assert_eq!(environment.len(), 11);
}

#[test]
fn conditions_have_to_hold() {
    let state = EnvironmentState {
        running_app_ids: vec!["mail".to_string()],
        connected_device_ids: vec!["phone".to_string()],
        locked: false,
        presence_state: None,
    };
    let running = |id: &str, running: bool| AutomationCondition::ApplicationRunning {
        app: app(id, "Mail"),
        running,
    };
    let at = utc(2026, 9, 7, 12, 0, 0);
    assert_eq!(condition_failure(&[], &state, at), None);
    assert_eq!(
        condition_failure(&[running("mail", true), running("other", false)], &state, at),
        None
    );
    assert_eq!(
        condition_failure(&[running("mail", false)], &state, at).as_deref(),
        Some("the running state of application Mail does not satisfy the condition")
    );
    let device = AutomationCondition::DeviceConnected {
        device_id: "tablet".to_string(),
        connected: true,
    };
    assert_eq!(
        condition_failure(&[running("mail", true), device], &state, at).as_deref(),
        Some("the device connection state does not satisfy the condition")
    );
    // 2026-09-07 is a Monday; at noon UTC it is 21:00 in Tokyo.
    let outside = Some("the current time is outside the configured schedule");
    let check = |c: AutomationCondition| condition_failure(&[c], &state, at);
    assert_eq!(check(range(&[1], "21:00", "21:01", "Asia/Tokyo")), None);
    assert_eq!(
        check(range(&[1], "21:01", "22:00", "Asia/Tokyo")).as_deref(),
        outside
    );
    assert_eq!(
        check(range(&[2], "21:00", "22:00", "Asia/Tokyo")).as_deref(),
        outside
    );
    assert_eq!(check(range(&[1], "12:00", "12:00", "UTC")), None);
    assert_eq!(check(range(&[1], "11:00", "12:00", "UTC")).as_deref(), outside);
    assert_eq!(check(range(&[1], "x", "12:00", "UTC")).as_deref(), outside);
    assert_eq!(check(range(&[1], "11:00", "13:00", "Nowhere")).as_deref(), outside);
}

#[test]
fn ranges_over_midnight() {
    let ten = 22 * 3600;
    let two = 2 * 3600;
    assert!(within_range(&[1], ten, two, ten, 1, 7));
    assert!(within_range(&[1], ten, two, two - 1, 2, 1));
    assert!(!within_range(&[1], ten, two, two, 1, 7));
    assert!(!within_range(&[1], ten, two, two - 1, 1, 7));
    assert!(within_range(&[3], two, ten, two, 3, 2));
    assert!(!within_range(&[3], two, ten, ten, 3, 2));
}

#[test]
fn overnight_ranges_keep_their_weekday_when_the_clocks_change() {
    // The clocks went forward on Sunday 8 March 2026, which had twenty-three hours in New York.
    // Half past midnight on Monday still belongs to Sunday's range.
    let at = utc(2026, 3, 9, 4, 30, 0);
    let state = EnvironmentState::default();
    let saturday = range(&[6], "22:00", "02:00", "America/New_York");
    let sunday = range(&[7], "22:00", "02:00", "America/New_York");
    assert!(condition_failure(&[saturday], &state, at).is_some());
    assert!(condition_failure(&[sunday], &state, at).is_none());
    // They went back on Sunday 1 November 2026, which had twenty-five.
    let at = utc(2026, 11, 2, 5, 30, 0);
    let saturday = range(&[6], "22:00", "02:00", "America/New_York");
    let sunday = range(&[7], "22:00", "02:00", "America/New_York");
    assert!(condition_failure(&[saturday], &state, at).is_some());
    assert!(condition_failure(&[sunday], &state, at).is_none());
}

#[test]
fn weekly_slot_behind_a_missing_one_is_found() {
    // 02:30 has passed on Sunday 1 March and does not exist on Sunday 8 March 2026.
    let weekly = schedule("02:30", &[7], "America/New_York");
    let slot = utc(2026, 3, 15, 6, 30, 0);
    assert_eq!(
        next_schedule(&weekly, utc(2026, 3, 1, 12, 0, 0)),
        Some(slot)
    );
    assert_eq!(next_schedule(&weekly, utc(2026, 3, 8, 7, 0, 0)), Some(slot));
    assert_eq!(next_schedule(&weekly, utc(2026, 3, 15, 6, 29, 59)), Some(slot));
    let mut d = definition(weekly);
    d.enabled = true;
    let revision = revise(d, None, utc(2026, 3, 1, 12, 0, 0)).unwrap();
    assert_eq!(revision.next_slot, Some(slot.seconds));
}

#[test]
fn events_reach_the_definitions_that_respond() {
    let system = |event| AutomationTrigger::System { event };
    let mut off = definition(system(SessionEvent::Started));
    off.enabled = false;
    let definitions = [
        definition(system(SessionEvent::Started)),
        definition(system(SessionEvent::Locked)),
        off,
        definition(system(SessionEvent::Started)),
    ];
    assert_eq!(
        respondents(&definitions, &event("system.started", &[])),
        vec![0, 3]
    );
    assert!(respondents(&definitions, &event("system.resumed", &[])).is_empty());
}

#[test]
fn slots_of_schedules() {
    // 2026-09-07 is a Monday.
    let monday = utc(2026, 9, 7, 12, 0, 0);
    assert_eq!(
        next_schedule(&schedule("12:01", &[1], "UTC"), monday),
        Some(utc(2026, 9, 7, 12, 1, 0))
    );
    assert_eq!(
        next_schedule(&schedule("12:00", &[1], "UTC"), monday),
        Some(utc(2026, 9, 14, 12, 0, 0))
    );
    assert_eq!(
        next_schedule(&schedule("00:30", &[2, 5], "Asia/Tokyo"), monday),
        Some(utc(2026, 9, 7, 15, 30, 0))
    );
    // At the end of daylight saving time 01:30 comes twice; the first one counts.
    let october = schedule("01:30", &[7], "America/New_York");
    let first = utc(2026, 11, 1, 5, 30, 0);
    assert_eq!(next_schedule(&october, utc(2026, 11, 1, 0, 0, 0)), Some(first));
    assert_eq!(
        next_schedule(&october, first),
        Some(utc(2026, 11, 8, 6, 30, 0))
    );
    assert_eq!(next_schedule(&schedule("12:00", &[], "UTC"), monday), None);
    assert_eq!(next_schedule(&schedule("12:00", &[1], "X"), monday), None);
    assert_eq!(next_schedule(&schedule("noon", &[1], "UTC"), monday), None);
    assert_eq!(next_schedule(&AutomationTrigger::Manual, monday), None);
}

#[test]
fn slots_are_chosen_among_candidates() {
    let after = Timestamp::new(1000, 5).unwrap();
    // Day 1 of the count is a Monday.
    let candidates = [Some(1000), None, Some(1500), Some(2000)];
    assert_eq!(choose_slot(&[1, 2, 3, 4], 1, &candidates, after), Some(1500));
    assert_eq!(choose_slot(&[1, 4], 1, &candidates, after), Some(2000));
    assert_eq!(choose_slot(&[1], 1, &candidates, after), None);
    assert_eq!(choose_slot(&[7], 1, &candidates, after), None);
}

#[test]
fn issues_say_what_is_missing() {
    let capability = |id: &str, available: bool, reason: Option<&str>, remedy: Option<&str>| {
        Capability {
            id: id.to_string(),
            available,
            reason: reason.map(|t| t.to_string()),
            remedy: remedy.map(|t| t.to_string()),
        }
    };
    let mut d = definition(AutomationTrigger::Application {
        event: ApplicationEvent::Started,
        apps: vec![app("a", "A")],
    });
    d.name = "x".repeat(300);
    d.run_mode = RunMode::AskBeforeRun;
    d.conditions = vec![
        AutomationCondition::ApplicationRunning {
            app: app("b", "B"),
            running: true,
        },
        AutomationCondition::Presence {
            state: PresenceEvent::OwnerPresent,
        },
    ];
    d.steps = vec![
        shell_step("true", 1),
        notification("t", "", true),
        AutomationStep::QuickAction {
            action_id: "x".to_string(),
        },
        AutomationStep::QuickAction {
            action_id: "y".to_string(),
        },
    ];
    let capabilities = vec![
        capability("application.started", false, Some("denied"), Some("settings")),
        capability("shell.bash", true, None, None),
        capability("wifi", false, None, None),
    ];
    let action = ActionSnapshot {
        name: "Erase".to_string(),
        definition: serde_json::Value::Null,
        requires_confirmation: true,
        requires_unlocked_session: true,
        requirements: vec!["wifi".to_string(), "shell.bash".to_string()],
    };
    let snapshots = [None, None, Some(Ok(action)), Some(Err("gone".to_string()))];
    let available = [Err("not installed".to_string()), Ok(())];
    let issues: Vec<(String, String, String, Option<usize>)> =
        preflight(&d, Ok(100), &capabilities, &snapshots, &available)
            .into_iter()
            .map(|i: AutomationIssue| (i.code, i.message, i.remedy, i.step_index))
            .collect();
    let feature = "this feature is not supported on the current system";
    let unsupported = "this action is not supported on the current system";
    let expected = [
        (
            "configuration",
            "invalid automation: name or identifier is too long",
            "edit",
            None,
        ),
        ("application.started", "denied", "settings", None),
        ("session.confirm", feature, "edit", None),
        ("application.started", "denied", "settings", None),
        ("presence.ownerPresent", feature, "edit", None),
        ("notification.mobile", feature, "edit", Some(1)),
        ("wifi", unsupported, "edit", Some(2)),
        ("session.confirm", unsupported, "edit", Some(2)),
        ("action.missing", "gone", "actions", Some(3)),
        ("application.missing", "not installed", "edit", None),
    ];
    assert_eq!(issues.len(), expected.len());
    for (found, wanted) in issues.iter().zip(expected) {
        assert_eq!(found.0, wanted.0);
        assert_eq!(found.1, wanted.1);
        assert_eq!(found.2, wanted.2);
        assert_eq!(found.3, wanted.3);
    }
}

#[test]
fn actions_that_need_a_session_cannot_run_without() {
    let mut d = definition(AutomationTrigger::System {
        event: SessionEvent::Sleeping,
    });
    d.steps = vec![AutomationStep::QuickAction {
        action_id: "x".to_string(),
    }];
    let action = ActionSnapshot {
        name: "Erase".to_string(),
        definition: serde_json::Value::Null,
        requires_confirmation: false,
        requires_unlocked_session: true,
        requirements: vec![],
    };
    let capabilities = [Capability {
        id: "system.sleeping".to_string(),
        available: true,
        reason: None,
        remedy: None,
    }];
    let issues = preflight(&d, Ok(100), &capabilities, &[Some(Ok(action))], &[]);
    assert_eq!(issues.len(), 1);
    assert_eq!(issues[0].code, "session.locked");
    assert_eq!(
        issues[0].message,
        "cannot run \"Erase\" while the system is locked or asleep"
    );
    assert_eq!(issues[0].remedy, "changeTrigger");
}

#[test]
fn saving_keeps_limits() {
    let hotkey = |id: &str, shortcut: &str| {
        let mut d = definition(AutomationTrigger::Hotkey {
            shortcut: shortcut.to_string(),
        });
        d.id = id.to_string();
        d
    };
    let mut d = hotkey("a", "Ctrl+K");
    assert!(check_capacity(&d, 255).is_ok());
    assert_eq!(
        check_capacity(&d, 256).unwrap_err().message(),
        "invalid automation: no more than 256 automations can be saved"
    );
    d.revision = 1;
    assert!(check_capacity(&d, 256).is_ok());
    assert!(check_enabling(&d, &[], &[hotkey("a", "Ctrl+K"), hotkey("b", "Ctrl+J")]).is_ok());
    assert_eq!(
        check_enabling(&d, &[], &[hotkey("b", "Ctrl+K")])
            .unwrap_err()
            .message(),
        "invalid automation: the shortcut is already used by another automation"
    );
    let issue = |message: &str| AutomationIssue {
        code: "c".to_string(),
        message: message.to_string(),
        remedy: "edit".to_string(),
        step_index: None,
    };
    assert_eq!(
        check_enabling(&d, &[issue("one"), issue("two")], &[])
            .unwrap_err()
            .message(),
        "invalid automation: one；two"
    );
    d.enabled = false;
    assert!(check_enabling(&d, &[issue("one")], &[hotkey("b", "Ctrl+K")]).is_ok());
}

#[test]
fn submissions_are_checked_in_order() {
    let mut d = definition(AutomationTrigger::Hotkey {
        shortcut: "Ctrl+K".to_string(),
    });
    let mut other = d.clone();
    other.id = "other".to_string();
    let full: Vec<AutomationDefinition> = (0..256).map(|_| other.clone()).collect();
    let issue = AutomationIssue {
        code: "c".to_string(),
        message: "one".to_string(),
        remedy: "edit".to_string(),
        step_index: None,
    };
    let message = |d: &AutomationDefinition,
                   issues: &[AutomationIssue],
                   stored: &[AutomationDefinition]| {
        check_submission(d, Ok(1024), issues, stored)
            .unwrap_err()
            .message()
    };
    let issues = [issue];
    assert!(check_submission(&d, Ok(1024), &[], &[]).is_ok());
    d.steps.clear();
    assert_eq!(
        message(&d, &issues, &full),
        "invalid automation: no more than 256 automations can be saved"
    );
    assert_eq!(message(&d, &issues, &full[..1]), "invalid automation: one");
    assert_eq!(
        message(&d, &[], &full[..1]),
        "invalid automation: the shortcut is already used by another automation"
    );
    d.enabled = false;
    assert_eq!(
        message(&d, &issues, &full[..1]),
        "invalid automation: add 1–64 actions and no more than 16 conditions"
    );
    assert!(matches!(
        check_submission(
            &definition(schedule("12:30", &[1], "UTC")),
            Err(AutomationError::Json("broken".to_string())),
            &[],
            &[]
        ),
        Err(AutomationError::Json(_))
    ));
}

#[test]
fn last_revision_conflicts_with_an_earlier_one() {
    let at = utc(2026, 9, 7, 12, 0, 0);
    let stored = definition(schedule("12:30", &[1], "UTC"));
    let mut d = stored.clone();
    d.revision = u64::MAX;
    assert!(matches!(
        revise(d.clone(), Some(&stored), at),
        Err(AutomationError::Conflict)
    ));
    assert!(matches!(
        revise(d, None, at),
        Err(AutomationError::Conflict)
    ));
}

#[test]
fn disabled_schedules_are_saved_at_any_time() {
    let mut d = definition(schedule("12:30", &[1], "UTC"));
    d.enabled = false;
    let end = Timestamp::new(chrono::DateTime::<Utc>::MAX_UTC.timestamp(), 0).unwrap();
    assert!(!end.is_interior());
    let revision = revise(d, None, end).unwrap();
    assert_eq!(revision.definition.revision, 1);
    assert_eq!(revision.next_slot, None);
}

#[test]
fn revisions() {
    let at = utc(2026, 9, 7, 12, 0, 0);
    let later = utc(2026, 9, 8, 12, 0, 0);
    let mut d = definition(schedule("12:30", &[1, 2, 3, 4, 5, 6, 7], "UTC"));
    d.legacy_id = Some("old".to_string());
    let first = revise(d.clone(), None, at).unwrap();
    assert_eq!(first.definition.revision, 1);
    assert_eq!(first.definition.created_at, at);
    assert_eq!(first.definition.updated_at, at);
    assert_eq!(first.next_slot, Some(utc(2026, 9, 7, 12, 30, 0).seconds));
    let mut edited = first.definition.clone();
    edited.legacy_id = None;
    edited.created_at = later;
    edited.enabled = false;
    let second = revise(edited.clone(), Some(&first.definition), later).unwrap();
    assert_eq!(second.definition.revision, 2);
    assert_eq!(second.definition.created_at, at);
    assert_eq!(second.definition.updated_at, later);
    assert_eq!(second.definition.legacy_id.as_deref(), Some("old"));
    assert_eq!(second.next_slot, None);
    assert!(matches!(
        revise(edited.clone(), Some(&second.definition), later),
        Err(AutomationError::Conflict)
    ));
    assert!(matches!(
        revise(edited, None, later),
        Err(AutomationError::Conflict)
    ));
}
