use arcrelay_automation::enqueue::{Enqueue, Request};
use arcrelay_automation::execution::{Answer, Directive, Execution, Task};
use arcrelay_automation::lifecycle;
use arcrelay_automation::preflight;
use arcrelay_automation::saving;
use arcrelay_automation::shell::{self, Platform, ShellEnd};
use arcrelay_automation::ticks::{self, Tick};
use arcrelay_automation::trigger::respondents;
use arcrelay_automation::{
    available_variables, condition_failure, next_schedule, validate, ActionSnapshot,
    ActivityStatus, ApplicationEvent, ApplicationIdentity, AutomationActivity,
    AutomationCondition, AutomationDefinition, AutomationError, AutomationEvent, AutomationIssue,
    AutomationStep, AutomationTrigger, Capability, EnvironmentState, PresenceEvent, RunMode,
    SessionEvent, ShellKind, StepResult, Timestamp,
};
use chrono::{TimeZone, Utc};

fn timestamp(at: chrono::DateTime<Utc>) -> Timestamp {
    Timestamp::new(at.timestamp(), at.timestamp_subsec_nanos()).unwrap()
}

fn now() -> Timestamp {
    timestamp(Utc::now())
}

fn utc(year: i32, month: u32, day: u32, hour: u32, minute: u32, second: u32) -> Timestamp {
    timestamp(Utc.with_ymd_and_hms(year, month, day, hour, minute, second).unwrap())
}

fn json_version(number: i64) -> serde_json::Value {
    let mut object = serde_json::Map::new();
    object.insert("version".to_string(), serde_json::Value::from(number));
    serde_json::Value::Object(object)
}

/// A desktop with its database, in memory.
struct Desk {
    action: Option<ActionSnapshot>,
    executions: Vec<String>,
    locked: bool,
    definitions: Vec<AutomationDefinition>,
    schedule: Vec<(String, i64)>,
    migrations: Vec<String>,
    activities: Vec<AutomationActivity>,
    counter: u32,
}

fn desk() -> Desk {
    Desk {
        action: Some(ActionSnapshot {
            name: "original".to_string(),
            definition: json_version(1),
            requires_confirmation: false,
            requires_unlocked_session: false,
            requirements: vec![],
        }),
        executions: vec![],
        locked: false,
        definitions: vec![],
        schedule: vec![],
        migrations: vec![],
        activities: vec![],
        counter: 0,
    }
}

fn capabilities() -> Vec<Capability> {
    [
        "manual",
        "session.confirm",
        "system.locked",
        "system.started",
        "schedule",
        "shell.system",
        "shell.sh",
        "notification.mobile",
    ]
    .iter()
    .map(|id| Capability {
        id: id.to_string(),
        available: true,
        reason: None,
        remedy: None,
    })
    .collect()
}

impl Desk {
    fn fresh(&mut self) -> String {
        self.counter += 1;
        format!("run-{}", self.counter)
    }

    fn reply(&self) -> Result<ActionSnapshot, String> {
        match &self.action {
            Some(action) => Ok(action.clone()),
            None => Err("quick action was deleted".to_string()),
        }
    }

    fn environment(&self) -> EnvironmentState {
        EnvironmentState {
            locked: self.locked,
            ..EnvironmentState::default()
        }
    }

    fn preflight(&self, definition: &AutomationDefinition) -> Vec<AutomationIssue> {
        let snapshots: Vec<Option<Result<ActionSnapshot, String>>> = definition
            .steps
            .iter()
            .map(|step| match step {
                AutomationStep::QuickAction { .. } => Some(self.reply()),
                _ => None,
            })
            .collect();
        let available: Vec<Result<(), String>> = preflight::applications(definition)
            .iter()
            .map(|_| Ok(()))
            .collect();
        preflight::preflight(definition, Ok(1024), &capabilities(), &snapshots, &available)
    }

    fn save(
        &mut self,
        definition: AutomationDefinition,
    ) -> Result<AutomationDefinition, AutomationError> {
        saving::check_capacity(&definition, self.definitions.len())?;
        let issues = if definition.enabled {
            self.preflight(&definition)
        } else {
            vec![]
        };
        saving::check_submission(&definition, Ok(1024), &issues, &self.definitions)?;
        let previous = self.definitions.iter().find(|d| d.id == definition.id);
        let revision = saving::revise(definition, previous, now())?;
        let saved = revision.definition;
        self.schedule.retain(|(id, _)| *id != saved.id);
        if let Some(next) = revision.next_slot {
            self.schedule.push((saved.id.clone(), next));
        }
        if let Some(legacy) = &saved.legacy_id {
            if !self.migrations.contains(legacy) {
                self.migrations.push(legacy.clone());
            }
        }
        self.definitions.retain(|d| d.id != saved.id);
        self.definitions.push(saved.clone());
        Ok(saved)
    }

    fn delete(&mut self, id: &str) {
        self.definitions.retain(|d| d.id != id);
        self.schedule.retain(|(owner, _)| owner != id);
    }

    fn get(&self, id: &str) -> AutomationDefinition {
        self.definitions.iter().find(|d| d.id == id).unwrap().clone()
    }

    fn activity(&self, id: &str) -> AutomationActivity {
        self.activities.iter().find(|a| a.id == id).unwrap().clone()
    }

    /// The newest first.
    fn activities_of(&self, automation: &str) -> Vec<AutomationActivity> {
        self.activities
            .iter()
            .rev()
            .filter(|a| a.automation_id == automation)
            .cloned()
            .collect()
    }

    fn insert(&mut self, activity: &AutomationActivity) -> bool {
        let known = self.activities.iter().any(|a| {
            a.id == activity.id
                || a.automation_id == activity.automation_id && a.event.id == activity.event.id
        });
        if !known {
            self.activities.push(activity.clone());
        }
        !known
    }

    fn store(&mut self, activity: &AutomationActivity) {
        if let Some(stored) = self.activities.iter_mut().find(|a| a.id == activity.id) {
            *stored = activity.clone();
        }
    }

    /// Queues an event; an activity that is to be executed is left queued.
    fn enqueue(
        &mut self,
        definition: AutomationDefinition,
        event: AutomationEvent,
        manual: bool,
    ) -> String {
        let id = self.fresh();
        let automation = definition.id.clone();
        let mut pending = Enqueue::begin(id, definition, event, manual, now());
        loop {
            pending = match pending.request() {
                Request::Survey => {
                    let active: Vec<AutomationActivity> = self
                        .activities
                        .iter()
                        .filter(|a| !a.status.terminal())
                        .cloned()
                        .collect();
                    let recent = self.activities_of(&automation);
                    pending.survey(&active, recent.first(), now())
                }
                Request::Environment => {
                    let environment = self.environment();
                    pending.environment(&environment, now())
                }
                Request::Insert => {
                    let inserted = self.insert(pending.activity());
                    pending.inserted(inserted)
                }
                Request::Existing => {
                    let rows = self.activities_of(&automation);
                    pending.existing(&rows)
                }
                Request::Snapshot(action_id) => {
                    assert_eq!(action_id, "action");
                    let reply = self.reply();
                    pending.snapshot(reply, now())
                }
                Request::Store => {
                    self.store(pending.activity());
                    pending.stored()
                }
                Request::Done { .. } | Request::Merged => return pending.id().clone(),
            };
        }
    }

    /// Executes a queued activity; `canceled` answers whether the run was canceled.
    fn execute(&mut self, id: &str, canceled: bool) {
        if self.activity(id).status != ActivityStatus::Queued {
            return;
        }
        let mut execution = Execution::begin(self.activity(id));
        loop {
            let answer = match execution.directive() {
                Directive::AwaitPermit => Answer::Permit(true),
                Directive::CheckCanceled | Directive::HoldGate => Answer::Canceled(canceled),
                Directive::StoreStart => {
                    self.store(execution.activity());
                    Answer::Canceled(canceled)
                }
                Directive::RecordOrigin => Answer::Done,
                Directive::ReadSession => Answer::Locked(self.locked),
                Directive::Perform(Task::Action(action)) => {
                    self.executions.push(action.name.clone());
                    Answer::Result(StepResult::default())
                }
                Directive::Perform(Task::Notify { title, .. }) => {
                    self.executions.push(title);
                    Answer::Result(StepResult::default())
                }
                Directive::Perform(Task::Delay { .. }) => Answer::Result(StepResult::default()),
                Directive::Perform(Task::Shell { script, .. }) => {
                    let code: i32 = script.strip_prefix("exit ").unwrap().parse().unwrap();
                    let end = ShellEnd::Exited {
                        code: Some(code),
                        success: code == 0,
                    };
                    Answer::Result(shell::finish_shell(end, Some(vec![]), Some(vec![])))
                }
                Directive::StoreProgress => {
                    self.store(execution.activity());
                    Answer::Done
                }
                Directive::Suspend | Directive::Finish => {
                    self.store(execution.activity());
                    return;
                }
                Directive::Abort(error) => {
                    let mut activity = self.activity(id);
                    lifecycle::break_off(&mut activity, &error, now());
                    self.store(&activity);
                    return;
                }
            };
            assert!(execution.accepts(&answer));
            execution = execution.advance(answer, now());
        }
    }

    fn dispatch(&mut self, event: AutomationEvent) -> Vec<String> {
        let mut ids = vec![];
        for i in respondents(&self.definitions, &event) {
            let definition = self.definitions[i].clone();
            let id = self.enqueue(definition, event.clone(), false);
            self.execute(&id, false);
            ids.push(id);
        }
        ids
    }

    fn run(&mut self, id: &str) -> String {
        let definition = self.get(id);
        let run = self.enqueue(definition, AutomationEvent::new("manual"), true);
        self.execute(&run, false);
        run
    }

    fn test(
        &mut self,
        definition: AutomationDefinition,
        event: Option<AutomationEvent>,
    ) -> Result<String, AutomationError> {
        validate(&definition, Ok(1024))?;
        let event = event.unwrap_or_else(|| AutomationEvent::new("test"));
        let run = self.enqueue(definition, event, true);
        self.execute(&run, false);
        Ok(run)
    }

    fn confirm(&mut self, id: &str) -> Result<(), AutomationError> {
        let mut activity = self.activity(id);
        lifecycle::confirm(&mut activity, self.locked)?;
        self.store(&activity);
        Ok(())
    }

    fn cancel(&mut self, id: &str, executing: bool) -> bool {
        let mut activity = self.activity(id);
        let outcome = lifecycle::cancel(&mut activity, executing, now());
        if outcome.store {
            self.store(&activity);
        }
        outcome.signal
    }

    fn recover(&mut self) -> usize {
        let mut active: Vec<AutomationActivity> = self
            .activities
            .iter()
            .filter(|a| !a.status.terminal())
            .cloned()
            .collect();
        let changed = lifecycle::recover(&mut active, now());
        for &i in &changed {
            self.store(&active[i]);
        }
        changed.len()
    }

    fn tick(&mut self) {
        let at = now();
        let due: Vec<(String, i64)> = self
            .schedule
            .iter()
            .filter(|(_, next)| *next <= at.seconds)
            .cloned()
            .collect();
        for (id, slot) in due {
            let definition = self.get(&id);
            match ticks::decide(&definition, &id, slot, at) {
                Tick::Ignore => continue,
                Tick::Run(event) => {
                    let run = self.enqueue(definition.clone(), event, false);
                    self.execute(&run, false);
                }
                Tick::Miss(event) => {
                    let run = self.fresh();
                    let activity = ticks::miss(run, definition.clone(), event, at);
                    self.insert(&activity);
                }
            }
            if let Some(next) = next_schedule(&definition.trigger, at) {
                for row in self.schedule.iter_mut() {
                    if row.0 == id {
                        row.1 = next.seconds;
                    }
                }
            }
        }
    }
}

fn definition() -> AutomationDefinition {
    let mut d = AutomationDefinition::new(AutomationTrigger::Manual);
    d.name = "test".to_string();
    d.steps.push(AutomationStep::QuickAction {
        action_id: "action".to_string(),
    });
    d
}

#[test]
fn missed_schedule_skips_or_catches_up_exactly_once() {
    for catch_up in [false, true] {
        let mut desk = desk();
        let mut d = definition();
        d.enabled = true;
        d.trigger = AutomationTrigger::Schedule {
            time: "09:00".to_string(),
            weekdays: vec![1, 2, 3, 4, 5, 6, 7],
            timezone: "UTC".to_string(),
            catch_up,
        };
        let d = desk.save(d).unwrap();
        desk.schedule = vec![(
            d.id.clone(),
            (Utc::now() - chrono::Duration::days(2)).timestamp(),
        )];
        desk.tick();
        let rows = desk.activities_of(&d.id);
        assert_eq!(rows.len(), 1);
        assert_eq!(
            rows[0].status,
            if catch_up {
                ActivityStatus::Succeeded
            } else {
                ActivityStatus::Skipped
            }
        );
        assert_eq!(desk.executions.len(), usize::from(catch_up));
        desk.tick();
        assert_eq!(desk.activities_of(&d.id).len(), 1);
    }
}

#[test]
fn failed_step_stops_sequence_and_literal_scripts_keep_braces() {
    let mut desk = desk();
    let mut d = definition();
    d.steps.insert(
        0,
        AutomationStep::Shell {
            shell: ShellKind::Sh,
            script: "exit 17".to_string(),
            working_directory: None,
            timeout_seconds: 5,
        },
    );
    let id = desk.test(d, None).unwrap();
    let activity = desk.activity(&id);
    assert_eq!(activity.status, ActivityStatus::Failed);
    assert_eq!(activity.steps[0].result.exit_code, Some(17));
    assert!(desk.executions.is_empty());
    let plan = shell::plan_shell(
        ShellKind::Sh,
        "printf '%s' '{{ literal }}'",
        None,
        5,
        None,
        Platform::Other,
        None,
    )
    .unwrap();
    assert_eq!(plan.program, "/bin/sh");
    assert_eq!(plan.arguments, vec!["-c", "printf '%s' '{{ literal }}'"]);
    let output = shell::finish_shell(
        ShellEnd::Exited {
            code: Some(0),
            success: true,
        },
        Some(b"{{ literal }}".to_vec()),
        Some(vec![]),
    );
    assert_eq!(output.stdout, "{{ literal }}");
    assert!(output.error.is_none());
}

#[test]
fn byte_bounded_results_and_direction_specific_variables() {
    let output = StepResult {
        stdout: "中".repeat(65536),
        stderr: String::from_utf8_lossy(&[0xff; 65536]).into(),
        ..Default::default()
    }
    .bounded();
    assert!(output.stdout.len() <= 65536 && output.stderr.len() <= 65536);
    let mut d = definition();
    d.trigger = AutomationTrigger::Transfer {
        received: false,
        device_ids: vec![],
        file_kinds: vec![],
    };
    d.steps = vec![AutomationStep::Notification {
        title: "Sent".to_string(),
        body: "{{ event.file.directory }}".to_string(),
        send_to_connected_devices: false,
    }];
    assert!(validate(&d, Ok(1024)).is_err());
    if let AutomationTrigger::Transfer { received, .. } = &mut d.trigger {
        *received = true;
    }
    assert!(validate(&d, Ok(1024)).is_ok());
}

#[test]
fn immutable_action_and_definition_snapshots() {
    let mut desk = desk();
    let mut d = definition();
    d.run_mode = RunMode::AskBeforeRun;
    let d = desk.save(d).unwrap();
    let id = desk.run(&d.id);
    assert_eq!(
        desk.activity(&id).status,
        ActivityStatus::AwaitingConfirmation
    );
    desk.action.as_mut().unwrap().name = "edited".to_string();
    let mut changed = d.clone();
    changed.steps = vec![AutomationStep::Notification {
        title: "replacement".to_string(),
        body: "".to_string(),
        send_to_connected_devices: false,
    }];
    desk.save(changed).unwrap();
    desk.confirm(&id).unwrap();
    desk.execute(&id, false);
    let a = desk.activity(&id);
    assert_eq!(a.status, ActivityStatus::Succeeded);
    assert_eq!(a.definition.revision, d.revision);
    assert_eq!(desk.executions, vec!["original"]);
}

#[test]
fn dangerous_actions_always_wait_and_cannot_confirm_while_locked() {
    let mut desk = desk();
    desk.action.as_mut().unwrap().requires_confirmation = true;
    let mut d = definition();
    d.steps.push(AutomationStep::Notification {
        title: "later".to_string(),
        body: "".to_string(),
        send_to_connected_devices: false,
    });
    let d = desk.save(d).unwrap();
    let id = desk.run(&d.id);
    assert_eq!(
        desk.activity(&id).status,
        ActivityStatus::AwaitingConfirmation
    );
    assert!(desk.executions.is_empty());
    desk.locked = true;
    assert!(desk.confirm(&id).is_err());
    desk.locked = false;
    desk.confirm(&id).unwrap();
    assert!(desk.confirm(&id).is_err());
    desk.execute(&id, false);
    assert_eq!(desk.activity(&id).status, ActivityStatus::Succeeded);
    assert_eq!(desk.executions, vec!["original", "later"]);
}

#[test]
fn duplicate_events_are_one_activity() {
    let mut desk = desk();
    let mut d = definition();
    d.trigger = AutomationTrigger::System {
        event: SessionEvent::Started,
    };
    d.run_mode = RunMode::AskBeforeRun;
    let d = desk.save(d).unwrap();
    let event = AutomationEvent::new("system.started");
    let first = desk.dispatch(event.clone());
    let second = desk.dispatch(event);
    assert_eq!(first, second);
    assert_eq!(desk.activities_of(&d.id).len(), 1);
}

#[test]
fn overlapping_runs_skip_and_conditions_have_reasons() {
    let mut desk = desk();
    let mut d = definition();
    d.run_mode = RunMode::AskBeforeRun;
    let d = desk.save(d).unwrap();
    desk.run(&d.id);
    let id = desk.run(&d.id);
    assert_eq!(
        desk.activity(&id).reason.as_deref(),
        Some("the previous run has not finished")
    );
    let condition = AutomationCondition::DeviceConnected {
        device_id: "phone".to_string(),
        connected: true,
    };
    assert!(condition_failure(&[condition], &EnvironmentState::default(), now()).is_some());
}

#[test]
fn deleted_action_fails_instead_of_skipping() {
    let mut desk = desk();
    let d = desk.save(definition()).unwrap();
    desk.action = None;
    assert_eq!(desk.preflight(&d)[0].code, "action.missing");
    let id = desk.run(&d.id);
    assert_eq!(desk.activity(&id).status, ActivityStatus::Failed);
}

#[test]
fn optimistic_revisions_prevent_lost_updates() {
    let mut desk = desk();
    let d = desk.save(definition()).unwrap();
    desk.save(d.clone()).unwrap();
    assert!(matches!(desk.save(d), Err(AutomationError::Conflict)));
}

#[test]
fn recovery_interrupts_runs_but_retains_confirmations() {
    let mut desk = desk();
    let mut d = definition();
    d.run_mode = RunMode::AskBeforeRun;
    let d = desk.save(d).unwrap();
    let id = desk.run(&d.id);
    let mut pending = desk.activity(&id);
    pending.id = "interrupted".to_string();
    pending.event.id = "other".to_string();
    pending.status = ActivityStatus::Running;
    desk.insert(&pending);
    assert_eq!(desk.recover(), 1);
    assert_eq!(
        desk.activity("interrupted").status,
        ActivityStatus::Interrupted
    );
    assert_eq!(
        desk.activity(&id).status,
        ActivityStatus::AwaitingConfirmation
    );
    assert_eq!(desk.recover(), 0);
}

#[test]
fn cancel_waiting_is_durable_and_never_runs() {
    let mut desk = desk();
    let mut d = definition();
    d.run_mode = RunMode::AskBeforeRun;
    let d = desk.save(d).unwrap();
    let id = desk.run(&d.id);
    desk.cancel(&id, false);
    assert_eq!(desk.activity(&id).status, ActivityStatus::Canceled);
    assert!(desk.confirm(&id).is_err());
    assert!(desk.executions.is_empty());
}

#[test]
fn cancellation_cannot_resurrect_a_confirmation_request() {
    let mut desk = desk();
    desk.action.as_mut().unwrap().requires_confirmation = true;
    for _ in 0..32 {
        let d = desk.save(definition()).unwrap();
        let definition = desk.get(&d.id);
        let id = desk.enqueue(definition, AutomationEvent::new("manual"), true);
        assert!(desk.cancel(&id, true));
        desk.execute(&id, true);
        assert_eq!(desk.activity(&id).status, ActivityStatus::Canceled);
        assert!(desk.confirm(&id).is_err());
    }
    assert!(desk.executions.is_empty());
}

#[test]
fn lock_incompatible_actions_fail_preflight() {
    let mut desk = desk();
    desk.action.as_mut().unwrap().requires_unlocked_session = true;
    let mut d = definition();
    d.trigger = AutomationTrigger::System {
        event: SessionEvent::Locked,
    };
    assert_eq!(desk.preflight(&d)[0].code, "session.locked");
    assert!(desk.save(d).is_err());
}

#[test]
fn stable_application_identity_and_multiple_targets() {
    let app = ApplicationIdentity {
        id: "us.zoom.xos".to_string(),
        name: "Zoom".to_string(),
        path: "/Applications/zoom.us.app".to_string(),
    };
    let trigger = AutomationTrigger::Application {
        event: ApplicationEvent::Foreground,
        apps: vec![app],
    };
    let mut event = AutomationEvent::new("application.foreground");
    event
        .variables
        .insert("event.app.id".to_string(), "us.zoom.xos".to_string());
    event.variables.insert(
        "event.app.name".to_string(),
        "different display name".to_string(),
    );
    assert!(trigger.matches(&event));
    event
        .variables
        .insert("event.app.id".to_string(), "helper".to_string());
    assert!(!trigger.matches(&event));
}

#[test]
fn overnight_conditions_belong_to_starting_weekday() {
    let c = AutomationCondition::TimeRange {
        weekdays: vec![1],
        start: "22:00".to_string(),
        end: "02:00".to_string(),
        timezone: "UTC".to_string(),
    };
    let t = Utc.with_ymd_and_hms(2026, 9, 8, 1, 0, 0).unwrap();
    assert!(condition_failure(
        std::slice::from_ref(&c),
        &EnvironmentState::default(),
        timestamp(t)
    )
    .is_none());
    assert!(condition_failure(
        &[c],
        &EnvironmentState::default(),
        timestamp(t + chrono::Duration::days(1))
    )
    .is_some());
}

#[test]
fn scheduler_skips_nonexistent_dst_time() {
    let t = AutomationTrigger::Schedule {
        time: "02:30".to_string(),
        weekdays: vec![7],
        timezone: "America/New_York".to_string(),
        catch_up: false,
    };
    let next = next_schedule(&t, utc(2026, 3, 8, 0, 0, 0)).unwrap();
    assert_eq!(next, utc(2026, 3, 15, 6, 30, 0));
}

#[test]
fn deleting_a_migrated_automation_does_not_remove_migration_tombstone() {
    let mut desk = desk();
    let mut d = definition();
    d.legacy_id = Some("old".to_string());
    let d = desk.save(d).unwrap();
    desk.delete(&d.id);
    assert!(desk.migrations.contains(&"old".to_string()));
    assert!(desk.definitions.is_empty());
}

#[test]
fn self_generated_events_are_recorded_as_skipped() {
    let mut desk = desk();
    let mut d = definition();
    d.trigger = AutomationTrigger::System {
        event: SessionEvent::Started,
    };
    let d = desk.save(d).unwrap();
    let mut event = AutomationEvent::new("system.started");
    event.origin_automation_id = Some(d.id);
    let ids = desk.dispatch(event);
    assert_eq!(desk.activity(&ids[0]).status, ActivityStatus::Skipped);
}

#[test]
fn presence_trigger_and_condition_are_stable_and_matchable() {
    let trigger = AutomationTrigger::Presence {
        state: PresenceEvent::UnknownPresent,
    };
    let mut event = AutomationEvent::new("presence.unknownPresent");
    event.variables.insert(
        "event.presence.state".to_string(),
        "unknownPresent".to_string(),
    );
    event
        .variables
        .insert("event.presence.faceCount".to_string(), "1".to_string());
    event.variables.insert(
        "event.presence.ownerSimilarity".to_string(),
        "0.42".to_string(),
    );
    assert_eq!(trigger.capability(), "presence.unknownPresent");
    assert!(trigger.matches(&event));
    assert!(available_variables(&trigger).contains(&"event.presence.ownerSimilarity"));

    let condition = AutomationCondition::Presence {
        state: PresenceEvent::OwnerPresent,
    };
    let matching = EnvironmentState {
        presence_state: Some(PresenceEvent::OwnerPresent),
        ..Default::default()
    };
    assert!(condition_failure(&[condition.clone()], &matching, now()).is_none());
    assert!(condition_failure(&[condition], &EnvironmentState::default(), now()).is_some());
}

#[test]
fn event_data_reaches_a_script_through_the_environment() {
    let mut event = AutomationEvent::new("application.foreground");
    event.variables.insert(
        "event.app.name".to_string(),
        "$(printf INJECTED); data".to_string(),
    );
    let plan = shell::plan_shell(
        ShellKind::Sh,
        "printf '%s' \"{{ event.app.name }}\"; exit 7",
        None,
        10,
        Some(&event),
        Platform::Other,
        None,
    )
    .unwrap();
    assert_eq!(
        plan.arguments,
        vec!["-c", "printf '%s' \"${ARCRELAY_EVENT_0}\"; exit 7"]
    );
    assert_eq!(
        plan.environment.get("ARCRELAY_EVENT_0").unwrap(),
        "$(printf INJECTED); data"
    );
    let result = shell::finish_shell(
        ShellEnd::Exited {
            code: Some(7),
            success: false,
        },
        Some(b"$(printf INJECTED); data".to_vec()),
        Some(vec![]),
    );
    assert_eq!(result.exit_code, Some(7));
    assert_eq!(result.stdout, "$(printf INJECTED); data");
    assert!(result.error.is_some());
    let mut kept = vec![];
    for _ in 0..10 {
        shell::keep_output(&mut kept, &[0u8; 10000]);
    }
    let result = shell::finish_shell(
        ShellEnd::Exited {
            code: Some(0),
            success: true,
        },
        Some(kept),
        Some(vec![]),
    );
    assert_eq!(result.stdout.len(), 65536);
}

#[test]
fn canceled_scripts_say_so() {
    let result = shell::finish_shell(ShellEnd::Canceled, Some(vec![]), None);
    assert_eq!(result.error.as_deref(), Some("run canceled"));
    assert_eq!(result.exit_code, None);
    assert_eq!(result.stderr, "[output capture ended]");
}
