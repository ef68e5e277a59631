use arcrelay_automation::admission::{consider, consider_since, record, record_step, Admission};
use arcrelay_automation::execution::{Answer, Directive, Execution, Task, MAX_EXECUTING};
use arcrelay_automation::history::{expired, page_size, HistoryRow};
use arcrelay_automation::lifecycle;
use arcrelay_automation::registry::Registry;
use arcrelay_automation::shell::{
    conclude_shell, fail_shell, finish_shell, keep_output, plan_shell, Platform, ShellEnd,
};
use arcrelay_automation::ticks::{decide, miss, still_runs, Tick};
use arcrelay_automation::{
    ActionSnapshot, ActivityStatus, AutomationActivity, AutomationDefinition, AutomationError,
    AutomationEvent, AutomationStep, AutomationTrigger, RunMode, ShellKind, StepResult, TextMap,
    Timestamp,
};

fn at(seconds: i64) -> Timestamp {
    Timestamp::new(seconds, 0).unwrap()
}

fn definition(steps: Vec<AutomationStep>) -> AutomationDefinition {
    let mut d = AutomationDefinition::with_identity(
        "one".to_string(),
        AutomationTrigger::Manual,
        at(0),
        at(0),
    );
    d.steps = steps;
    d
}

fn action(name: &str) -> ActionSnapshot {
    ActionSnapshot {
        name: name.to_string(),
        definition: serde_json::Value::Bool(true),
        requires_confirmation: false,
        requires_unlocked_session: false,
        requirements: vec![],
    }
}

fn quick() -> AutomationStep {
    AutomationStep::QuickAction {
        action_id: "x".to_string(),
    }
}

fn notification(title: &str) -> AutomationStep {
    AutomationStep::Notification {
        title: title.to_string(),
        body: "{{ who }}".to_string(),
        send_to_connected_devices: true,
    }
}

fn event() -> AutomationEvent {
    let mut e = AutomationEvent::with_identity("e".to_string(), "manual", at(0));
    e.variables.insert("who".to_string(), "me".to_string());
    e
}

/// A queued activity; quick actions get the snapshot.
fn queued(steps: Vec<AutomationStep>, snapshot: &ActionSnapshot) -> AutomationActivity {
    let mut activity = record("r".to_string(), definition(steps), event(), None, at(0), at(0));
    for i in 0..activity.definition.steps.len() {
        let reply = match &activity.definition.steps[i] {
            AutomationStep::QuickAction { .. } => Some(Ok(snapshot.clone())),
            _ => None,
        };
        assert!(record_step(&mut activity, reply, at(0)));
    }
    activity
}

fn result(error: Option<&str>) -> Answer {
    Answer::Result(StepResult {
        error: error.map(|t| t.to_string()),
        ..StepResult::default()
    })
}

fn reason_of(admission: Admission) -> String {
    match admission {
        Admission::Refuse(reason) => reason,
        _ => panic!("accepted"),
    }
}

#[test]
fn reasons_not_to_run() {
    let d = definition(vec![]);
    let mut e = event();
    assert!(matches!(
        consider_since(&d, &e, false, &[], None),
        Admission::CheckConditions
    ));
    assert!(matches!(
        consider_since(&d, &e, true, &[], Some(0)),
        Admission::Accept
    ));
    assert!(matches!(
        consider_since(&d, &e, false, &[], Some(1500)),
        Admission::CheckConditions
    ));
    assert_eq!(
        reason_of(consider_since(&d, &e, false, &[], Some(1499))),
        "duplicate events received within a short interval were merged"
    );
    let mut other = queued(vec![], &action("a"));
    assert_eq!(
        reason_of(consider_since(&d, &e, true, &[other.clone()], None)),
        "the previous run has not finished"
    );
    other.automation_id = "other".to_string();
    let crowd = vec![other; 128];
    assert!(matches!(
        consider_since(&d, &e, true, &crowd[..127], None),
        Admission::Accept
    ));
    assert_eq!(
        reason_of(consider_since(&d, &e, true, &crowd, None)),
        "the pending automation limit has been reached; handle existing activities and try again"
    );
    e.origin_automation_id = Some("other".to_string());
    assert_eq!(
        reason_of(consider_since(&d, &e, true, &[], None)),
        "a chained trigger caused by an automation action was blocked"
    );
}

#[test]
fn cooldown_counts_milliseconds() {
    let d = definition(vec![]);
    let recent = queued(vec![], &action("a"));
    let e = event();
    let now = |seconds: i64, nanos: u32| Timestamp::new(seconds, nanos).unwrap();
    assert_eq!(
        reason_of(consider(&d, &e, false, &[], Some(&recent), now(1, 499_999_999))),
        "duplicate events received within a short interval were merged"
    );
    assert!(matches!(
        consider(&d, &e, false, &[], Some(&recent), now(1, 500_000_000)),
        Admission::CheckConditions
    ));
}

#[test]
fn steps_run_one_after_the_other() {
    let activity = queued(
        vec![
            quick(),
            AutomationStep::Delay {
                duration_seconds: 7,
            },
            notification("Hello {{ who }}"),
        ],
        &action("First"),
    );
    let mut execution = Execution::begin(activity);
    assert!(matches!(execution.directive(), Directive::AwaitPermit));
    assert!(!execution.accepts(&Answer::Done));
    execution = execution.advance(Answer::Permit(true), at(1));
    assert!(matches!(execution.directive(), Directive::CheckCanceled));
    execution = execution.advance(Answer::Canceled(false), at(2));
    assert!(matches!(execution.directive(), Directive::StoreStart));
    assert_eq!(execution.activity().status, ActivityStatus::Running);
    assert_eq!(execution.activity().steps[0].started_at, Some(at(2)));
    execution = execution.advance(Answer::Canceled(false), at(3));
    assert!(matches!(execution.directive(), Directive::RecordOrigin));
    execution = execution.advance(Answer::Done, at(4));
    match execution.directive() {
        Directive::Perform(Task::Action(snapshot)) => assert_eq!(snapshot.name, "First"),
        other => panic!("{other:?}"),
    }
    execution = execution.advance(result(None), at(5));
    assert!(matches!(execution.directive(), Directive::CheckCanceled));
    execution = execution.advance(Answer::Canceled(false), at(6));
    assert!(matches!(execution.directive(), Directive::StoreProgress));
    assert_eq!(execution.activity().steps[0].status, ActivityStatus::Succeeded);
    assert_eq!(execution.activity().steps[0].finished_at, Some(at(6)));
    execution = execution.advance(Answer::Done, at(7));
    assert_eq!(execution.index(), 1);
    execution = execution.advance(Answer::Canceled(false), at(8));
    execution = execution.advance(Answer::Canceled(false), at(8));
    assert!(matches!(
        execution.directive(),
        Directive::Perform(Task::Delay {
            duration_seconds: 7
        })
    ));
    execution = execution.advance(result(None), at(9));
    execution = execution.advance(Answer::Canceled(false), at(9));
    execution = execution.advance(Answer::Done, at(9));
    execution = execution.advance(Answer::Canceled(false), at(9));
    execution = execution.advance(Answer::Canceled(false), at(9));
    match execution.directive() {
        Directive::Perform(Task::Notify {
            title,
            body,
            send_to_connected_devices,
        }) => {
            assert_eq!(title, "Hello me");
            assert_eq!(body, "me");
            assert!(send_to_connected_devices);
        }
        other => panic!("{other:?}"),
    }
    execution = execution.advance(result(None), at(10));
    execution = execution.advance(Answer::Canceled(false), at(10));
    execution = execution.advance(Answer::Done, at(11));
    assert!(matches!(execution.directive(), Directive::Finish));
    assert_eq!(execution.activity().status, ActivityStatus::Succeeded);
    assert_eq!(execution.activity().finished_at, Some(at(11)));
}

#[test]
fn activities_wait_for_a_place() {
    assert_eq!(MAX_EXECUTING, 16);
    let activity = queued(vec![notification("A")], &action("A"));
    let mut executions: Vec<Execution> = (0..20)
        .map(|_| Execution::begin(activity.clone()))
        .collect();
    for execution in executions.iter_mut().take(MAX_EXECUTING) {
        let waiting = Execution::begin(activity.clone());
        *execution = std::mem::replace(execution, waiting).advance(Answer::Permit(true), at(1));
    }
    let waiting = executions
        .iter()
        .filter(|e| matches!(e.directive(), Directive::AwaitPermit))
        .count();
    assert_eq!(waiting, 4);
}

#[test]
fn failures_skip_what_follows() {
    let activity = queued(vec![notification("{{ nobody }}"), quick()], &action("A"));
    let mut execution = Execution::begin(activity);
    execution = execution.advance(Answer::Permit(true), at(1));
    execution = execution.advance(Answer::Canceled(false), at(2));
    execution = execution.advance(Answer::Canceled(false), at(3));
    assert!(matches!(execution.directive(), Directive::CheckCanceled));
    execution = execution.advance(Answer::Canceled(false), at(4));
    assert!(matches!(execution.directive(), Directive::Finish));
    let activity = execution.activity();
    assert_eq!(activity.status, ActivityStatus::Failed);
    assert_eq!(
        activity.reason.as_deref(),
        Some(
            "invalid automation: the event does not provide variable nobody; test with a real \
             event"
        )
    );
    assert_eq!(activity.steps[0].status, ActivityStatus::Failed);
    assert_eq!(activity.reason, activity.steps[0].result.error);
    assert_eq!(activity.steps[1].status, ActivityStatus::Skipped);
    assert_eq!(
        activity.steps[1].result.error.as_deref(),
        Some("subsequent actions were not run because the previous action did not succeed")
    );
}

#[test]
fn locked_sessions_fail_the_step() {
    let mut needs_session = action("A");
    needs_session.requires_unlocked_session = true;
    for locked in [true, false] {
        let mut execution = Execution::begin(queued(vec![quick()], &needs_session));
        execution = execution.advance(Answer::Permit(true), at(1));
        execution = execution.advance(Answer::Canceled(false), at(2));
        execution = execution.advance(Answer::Canceled(false), at(3));
        execution = execution.advance(Answer::Done, at(4));
        assert!(matches!(execution.directive(), Directive::ReadSession));
        execution = execution.advance(Answer::Locked(locked), at(5));
        if locked {
            execution = execution.advance(Answer::Canceled(false), at(6));
            assert_eq!(
                execution.activity().reason.as_deref(),
                Some("the system is locked; this action requires an unlocked graphical session")
            );
        } else {
            assert!(matches!(execution.directive(), Directive::Perform(_)));
        }
    }
}

#[test]
fn cancellation_ends_a_run_at_any_point() {
    let mut dangerous = action("Erase");
    dangerous.requires_confirmation = true;
    let activity = queued(vec![quick(), quick()], &dangerous);

    let refused = Execution::begin(activity.clone()).advance(Answer::Permit(false), at(9));
    assert!(matches!(refused.directive(), Directive::Finish));
    assert_eq!(refused.activity().status, ActivityStatus::Canceled);
    assert_eq!(refused.activity().steps[0].status, ActivityStatus::Queued);

    let turn = Execution::begin(activity.clone()).advance(Answer::Permit(true), at(1));
    let gate = turn.advance(Answer::Canceled(false), at(2));
    assert!(matches!(gate.directive(), Directive::HoldGate));
    let canceled = gate.advance(Answer::Canceled(true), at(3));
    assert!(matches!(canceled.directive(), Directive::Finish));
    assert_eq!(canceled.activity().status, ActivityStatus::Canceled);
    assert_eq!(canceled.activity().steps[1].status, ActivityStatus::Canceled);
    assert_eq!(
        canceled.activity().steps[1].result.error.as_deref(),
        Some("run canceled")
    );

    let mut execution = Execution::begin(queued(vec![quick()], &action("A")));
    execution = execution.advance(Answer::Permit(true), at(1));
    execution = execution.advance(Answer::Canceled(false), at(2));
    execution = execution.advance(Answer::Canceled(false), at(3));
    execution = execution.advance(Answer::Done, at(4));
    execution = execution.advance(result(Some("broken")), at(5));
    execution = execution.advance(Answer::Canceled(true), at(6));
    assert_eq!(execution.activity().status, ActivityStatus::Canceled);
    assert_eq!(execution.activity().steps[0].status, ActivityStatus::Canceled);
    assert_eq!(execution.activity().reason.as_deref(), Some("broken"));
}

#[test]
fn dangerous_steps_wait_and_go_on() {
    let mut dangerous = action("Erase");
    dangerous.requires_confirmation = true;
    let mut execution = Execution::begin(queued(vec![quick()], &dangerous));
    execution = execution.advance(Answer::Permit(true), at(1));
    execution = execution.advance(Answer::Canceled(false), at(2));
    execution = execution.advance(Answer::Canceled(false), at(3));
    assert!(matches!(execution.directive(), Directive::Suspend));
    let mut activity = execution.activity().clone();
    assert_eq!(activity.reason.as_deref(), Some("confirm action 1: Erase"));
    assert_eq!(activity.status, ActivityStatus::AwaitingConfirmation);
    lifecycle::confirm(&mut activity, false).unwrap();
    assert_eq!(activity.confirmed_steps, vec![0]);
    assert_eq!(activity.reason, None);
    let mut execution = Execution::begin(activity);
    execution = execution.advance(Answer::Permit(true), at(4));
    execution = execution.advance(Answer::Canceled(false), at(5));
    assert!(matches!(execution.directive(), Directive::StoreStart));
}

#[test]
fn lost_snapshots_abort() {
    let mut activity = queued(vec![quick()], &action("A"));
    activity.steps[0].action = None;
    let mut execution = Execution::begin(activity);
    execution = execution.advance(Answer::Permit(true), at(1));
    execution = execution.advance(Answer::Canceled(false), at(2));
    execution = execution.advance(Answer::Canceled(false), at(3));
    execution = execution.advance(Answer::Done, at(4));
    let error = match execution.directive() {
        Directive::Abort(error) => error,
        other => panic!("{other:?}"),
    };
    assert_eq!(
        error.message(),
        "invalid automation: quick action snapshot is missing"
    );
    let mut activity = execution.activity().clone();
    lifecycle::break_off(&mut activity, &error, at(5));
    assert_eq!(activity.status, ActivityStatus::Failed);
    assert_eq!(
        activity.reason.as_deref(),
        Some("invalid automation: quick action snapshot is missing")
    );
}

#[test]
fn confirmations_are_refused() {
    let mut activity = queued(vec![], &action("A"));
    assert_eq!(
        lifecycle::confirm(&mut activity, false)
            .unwrap_err()
            .message(),
        "invalid automation: this activity has already been handled"
    );
    activity.status = ActivityStatus::AwaitingConfirmation;
    assert_eq!(
        lifecycle::confirm(&mut activity, true).unwrap_err().message(),
        "invalid automation: unlock this computer before confirming the run"
    );
    activity.definition.run_mode = RunMode::AskBeforeRun;
    lifecycle::confirm(&mut activity, false).unwrap();
    assert!(activity.run_confirmed);
    assert_eq!(activity.status, ActivityStatus::Queued);
}

#[test]
fn cancellation_outside_an_execution() {
    let mut activity = queued(vec![], &action("A"));
    let outcome = lifecycle::cancel(&mut activity, true, at(5));
    assert!(outcome.signal && !outcome.store);
    assert_eq!(activity.status, ActivityStatus::Queued);
    let outcome = lifecycle::cancel(&mut activity, false, at(5));
    assert!(!outcome.signal && outcome.store);
    assert_eq!(activity.status, ActivityStatus::Canceled);
    assert_eq!(activity.reason.as_deref(), Some("the user skipped this run"));
    assert_eq!(activity.finished_at, Some(at(5)));
    let outcome = lifecycle::cancel(&mut activity, true, at(6));
    assert!(!outcome.signal && !outcome.store);
    assert_eq!(activity.finished_at, Some(at(5)));
}

#[test]
fn interruption_marks_running_steps() {
    let mut activity = queued(vec![quick(), quick()], &action("A"));
    activity.status = ActivityStatus::Running;
    activity.steps[0].status = ActivityStatus::Running;
    assert!(lifecycle::interrupt(&mut activity, at(9)));
    assert_eq!(activity.status, ActivityStatus::Interrupted);
    assert_eq!(activity.steps[0].status, ActivityStatus::Interrupted);
    assert_eq!(activity.steps[0].finished_at, Some(at(9)));
    assert_eq!(activity.steps[1].status, ActivityStatus::Queued);
    assert_eq!(
        activity.reason.as_deref(),
        Some(
            "ArcRelay restarted and interrupted the previous run; completed actions will not run \
             again automatically"
        )
    );
}

#[test]
fn slots_become_events() {
    let mut d = definition(vec![]);
    d.revision = 3;
    d.trigger = AutomationTrigger::Schedule {
        time: "09:00".to_string(),
        weekdays: vec![1],
        timezone: "UTC".to_string(),
        catch_up: false,
    };
    let slot = 1_700_000_000;
    let on_time = Timestamp::new(slot + 90, 999_999_999).unwrap();
    let event = match decide(&d, "one", slot, on_time) {
        Tick::Run(event) => event,
        _ => panic!("missed"),
    };
    assert_eq!(event.id, "schedule:one:3:1700000000");
    assert_eq!(event.kind, "schedule");
    assert_eq!(
        event.variables.get("event.schedule.plannedAt").unwrap(),
        "2023-11-14T22:13:20+00:00"
    );
    assert_eq!(
        event.variables.get("event.schedule.actualAt").unwrap(),
        "2023-11-14T22:14:50.999999999+00:00"
    );
    let event = match decide(&d, "one", slot, at(slot + 91)) {
        Tick::Miss(event) => event,
        _ => panic!("ran"),
    };
    let activity = miss("r".to_string(), d.clone(), event, at(slot + 91));
    assert_eq!(activity.status, ActivityStatus::Skipped);
    assert_eq!(
        activity.reason.as_deref(),
        Some("the scheduled time was missed while the computer was asleep or offline")
    );
    assert!(matches!(
        decide(&d, "one", i64::MAX, at(slot)),
        Tick::Ignore
    ));
    let early = match decide(&d, "one", -5, at(-5)) {
        Tick::Run(event) => event,
        _ => panic!("missed"),
    };
    assert_eq!(early.id, "schedule:one:3:-5");
    d.enabled = false;
    assert!(matches!(decide(&d, "one", slot, at(slot)), Tick::Ignore));
    assert!(still_runs(&d.trigger, 90_999));
    assert!(!still_runs(&d.trigger, 91_000));
}

#[test]
fn history_is_pruned() {
    let now = at(10_000_000);
    let oldest = (10_000_000 - 30 * 86_400) * 1000;
    let row = |completed: bool, created_at: i64| HistoryRow {
        completed,
        created_at,
    };
    let rows = [
        row(true, oldest),
        row(false, 0),
        row(true, oldest - 1),
        row(false, oldest - 1),
    ];
    assert_eq!(expired(&rows, false, now), vec![2]);
    assert_eq!(expired(&rows, true, now), vec![0, 2]);
    let mut many = vec![row(true, oldest); 102];
    many[101].completed = false;
    assert_eq!(expired(&many, false, now), vec![100]);
    assert_eq!(page_size(0), 1);
    assert_eq!(page_size(57), 57);
    assert_eq!(page_size(1000), 100);
}

#[test]
fn programs_of_shells() {
    let program = |shell, platform, user| {
        plan_shell(shell, "x", None, 1, None, platform, user)
            .unwrap()
            .program
    };
    assert_eq!(
        program(ShellKind::Powershell, Platform::Windows, None),
        "powershell.exe"
    );
    assert_eq!(program(ShellKind::Powershell, Platform::MacOs, None), "pwsh");
    assert_eq!(
        program(ShellKind::System, Platform::Windows, Some("fish")),
        "powershell.exe"
    );
    assert_eq!(
        program(ShellKind::System, Platform::MacOs, Some("/bin/fish")),
        "/bin/fish"
    );
    assert_eq!(program(ShellKind::System, Platform::MacOs, None), "/bin/zsh");
    assert_eq!(
        program(ShellKind::System, Platform::Other, Some("/bin/fish")),
        "/bin/sh"
    );
    assert_eq!(program(ShellKind::Sh, Platform::Windows, None), "/bin/sh");
    assert_eq!(program(ShellKind::Bash, Platform::Other, None), "/bin/bash");
    assert_eq!(program(ShellKind::Zsh, Platform::Other, None), "/bin/zsh");
}

#[test]
fn plans_of_scripts() {
    let plan = plan_shell(
        ShellKind::System,
        "echo {{ who }}",
        Some("/tmp"),
        9999,
        Some(&event()),
        Platform::Windows,
        None,
    )
    .unwrap();
    assert_eq!(
        plan.arguments,
        vec![
            "-NoLogo",
            "-NoProfile",
            "-NonInteractive",
            "-Command",
            "echo $env:ARCRELAY_EVENT_0"
        ]
    );
    assert_eq!(plan.working_directory.as_deref(), Some("/tmp"));
    assert_eq!(plan.timeout_seconds, 3600);
    let plan = plan_shell(
        ShellKind::Sh,
        "x",
        Some(""),
        0,
        None,
        Platform::Other,
        None,
    )
    .unwrap();
    assert_eq!(plan.working_directory, None);
    assert_eq!(plan.timeout_seconds, 1);
    assert!(plan_shell(
        ShellKind::Sh,
        "{{ z }}",
        None,
        1,
        Some(&event()),
        Platform::Other,
        None
    )
    .is_err());
}

#[test]
fn results_of_scripts() {
    let failed = |code: Option<i32>| {
        finish_shell(
            ShellEnd::Exited {
                code,
                success: false,
            },
            Some(b"ok".to_vec()),
            Some(vec![0xff, b'x']),
        )
    };
    assert_eq!(
        failed(Some(-7)).error.as_deref(),
        Some("script failed with exit code -7")
    );
    assert_eq!(
        failed(None).error.as_deref(),
        Some("script failed with exit code terminated by signal")
    );
    assert_eq!(failed(None).stdout, "ok");
    assert_eq!(failed(None).stderr, "\u{fffd}x");
    let end = conclude_shell(ShellEnd::TimedOut, String::new(), String::new());
    assert_eq!(end.error.as_deref(), Some("script timed out"));
    let end = conclude_shell(
        ShellEnd::Lost("no child".to_string()),
        String::new(),
        String::new(),
    );
    assert_eq!(end.error.as_deref(), Some("no child"));
    assert_eq!(
        fail_shell("no shell".to_string()).error.as_deref(),
        Some("no shell")
    );
    let mut kept = vec![0u8; 65530];
    keep_output(&mut kept, b"0123456789");
    assert_eq!(kept.len(), 65536);
    assert_eq!(&kept[65530..], b"012345");
}

#[test]
fn results_are_cut_between_characters() {
    let bounded = StepResult {
        stdout: "中".repeat(65536),
        stderr: "x".repeat(65536),
        error: Some(format!("{}é!", "x".repeat(65535))),
        ..StepResult::default()
    }
    .bounded();
    assert_eq!(bounded.stdout, "中".repeat(21845));
    assert_eq!(bounded.stderr, "x".repeat(65536));
    assert_eq!(bounded.error, Some("x".repeat(65535)));
    let again = bounded.clone().bounded();
    assert_eq!(again.stdout, bounded.stdout);
}

#[test]
fn statuses() {
    let all = [
        (ActivityStatus::AwaitingConfirmation, "awaitingConfirmation", false),
        (ActivityStatus::Skipped, "skipped", true),
        (ActivityStatus::Queued, "queued", false),
        (ActivityStatus::Running, "running", false),
        (ActivityStatus::Succeeded, "succeeded", true),
        (ActivityStatus::Failed, "failed", true),
        (ActivityStatus::Canceled, "canceled", true),
        (ActivityStatus::Interrupted, "interrupted", true),
    ];
    for (status, key, terminal) in all {
        assert_eq!(status.key(), key);
        assert_eq!(status.terminal(), terminal);
    }
}

#[test]
fn errors_have_codes_and_sentences() {
    let errors = [
        (
            AutomationError::Invalid("x".to_string()),
            "automation.invalid_argument",
            "invalid automation: x",
        ),
        (
            AutomationError::Conflict,
            "automation.conflict",
            "the configuration was modified in another window; reopen it before saving",
        ),
        (
            AutomationError::NotFound,
            "automation.not_found",
            "automation or activity not found",
        ),
        (
            AutomationError::Database("x".to_string()),
            "automation.internal",
            "automation database error: x",
        ),
        (
            AutomationError::Json("x".to_string()),
            "automation.internal",
            "automation serialization error: x",
        ),
    ];
    for (error, code, message) in errors {
        assert_eq!(error.code(), code);
        assert_eq!(error.message(), message);
    }
}

#[test]
fn maps_hold_each_key_once() {
    let mut map = TextMap::new();
    assert_eq!(map.len(), 0);
    assert_eq!(map.insert("a".to_string(), "1".to_string()), None);
    assert_eq!(map.insert("b".to_string(), "2".to_string()), None);
    assert_eq!(
        map.insert("a".to_string(), "3".to_string()),
        Some("1".to_string())
    );
    assert_eq!(map.len(), 2);
    assert_eq!(map.get("a").unwrap(), "3");
    assert_eq!(map.get("c"), None);
    let copy = map.clone();
    assert_eq!(
        copy.entry(1),
        Some((&"b".to_string(), &"2".to_string()))
    );
    assert_eq!(copy.entry(2), None);
}

#[test]
fn executions_leave_with_their_own_ticket() {
    let mut registry: Registry<u8> = Registry::new();
    registry.enter("a".to_string(), "1".to_string(), 10);
    registry.enter("b".to_string(), "2".to_string(), 20);
    registry.enter("a".to_string(), "3".to_string(), 30);
    registry.leave("a", "1");
    assert_eq!(registry.get("a"), Some(&30));
    registry.leave("a", "3");
    assert_eq!(registry.get("a"), None);
    assert_eq!(registry.get("b"), Some(&20));
    registry.leave("c", "1");
    assert_eq!(registry.get("b"), Some(&20));
}

#[test]
fn instants() {
    assert_eq!(Timestamp::new(8_210_266_876_799, 0).unwrap().seconds, 8_210_266_876_799);
    assert!(Timestamp::new(8_210_266_876_800, 0).is_none());
    assert!(Timestamp::new(-8_334_601_228_800, 0).is_some());
    assert!(Timestamp::new(-8_334_601_228_801, 0).is_none());
    for (seconds, nanos) in [
        (0, 999_999_999),
        (0, 1_000_000_000),
        (59, 1_999_999_999),
        (-1, 1_500_000_000),
        (59, 2_000_000_000),
        (8_210_266_876_799, 1),
        (8_210_266_876_800, 0),
        (-8_334_601_228_800, 0),
        (-8_334_601_228_801, 0),
    ] {
        assert_eq!(
            Timestamp::new(seconds, nanos).is_some(),
            chrono::DateTime::from_timestamp(seconds, nanos).is_some()
        );
    }
    let instant = Timestamp::new(-1, 500_000_000).unwrap();
    assert_eq!(instant.timestamp_millis(), -500);
    assert!(instant.is_interior());
    assert!(!Timestamp::new(8_210_266_876_799, 0).unwrap().is_interior());
}

#[test]
fn new_events_have_fresh_identifiers() {
    let a = AutomationEvent::new("manual");
    let b = AutomationEvent::new("manual");
    assert_ne!(a.id, b.id);
    assert_eq!(a.id.len(), 36);
    assert_eq!(a.id.matches('-').count(), 4);
    assert_eq!(a.id, a.id.to_lowercase());
    assert_eq!(a.kind, "manual");
    assert!(a.occurred_at.seconds > 1_600_000_000);
    let d = AutomationDefinition::new(AutomationTrigger::Manual);
    assert_eq!(d.id.len(), 36);
    assert!(d.enabled);
    assert_eq!(d.revision, 0);
    assert_eq!(d.run_mode, RunMode::Automatic);
}
