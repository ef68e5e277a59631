//! The data of automations: definitions, events, activities and what a run leaves behind.

use crate::text;
use crate::text_map::TextMap;
use crate::time::Timestamp;
use vstd::prelude::*;

verus! {

/// How many bytes of each text of a result are stored.
pub const OUTPUT_LIMIT: usize = 65536;

/// A JSON value, carried and never looked into.
#[verifier::external_type_specification]
#[verifier::external_body]
pub struct ExJsonValue(serde_json::Value);

/// `Value::clone`: the copy is the same JSON value.
pub assume_specification[ <serde_json::Value as Clone>::clone ](value: &serde_json::Value) -> (r:
    serde_json::Value)
    ensures
        r == *value,
;

/// An installed application. The identifier is stable; the name and path are for display.
#[derive(Debug, Clone, PartialEq, Eq)]
pub struct ApplicationIdentity {
    pub id: String,
    pub name: String,
    pub path: String,
}

#[verifier::ext_equal]
pub struct ApplicationModel {
    pub id: Seq<char>,
    pub name: Seq<char>,
    pub path: Seq<char>,
}

impl View for ApplicationIdentity {
    type V = ApplicationModel;

    open spec fn view(&self) -> ApplicationModel {
        ApplicationModel { id: self.id@, name: self.name@, path: self.path@ }
    }
}

#[derive(Debug, Clone, Copy, PartialEq, Eq, Structural)]
pub enum ApplicationEvent {
    Started,
    Exited,
    Foreground,
    Background,
}

#[derive(Debug, Clone, Copy, PartialEq, Eq, Structural)]
pub enum SessionEvent {
    Locked,
    Unlocked,
    Sleeping,
    Resumed,
    Started,
}

/// Who sits in front of the computer, as far as the camera can tell.
#[derive(Debug, Clone, Copy, PartialEq, Eq, Structural)]
pub enum PresenceEvent {
    UnknownPresent,
    OwnerPresent,
}

#[derive(Debug, Clone, Copy, PartialEq, Eq, Structural)]
pub enum RunMode {
    Automatic,
    AskBeforeRun,
}

#[derive(Debug, Clone, Copy, PartialEq, Eq, Structural)]
pub enum ShellKind {
    System,
    Sh,
    Bash,
    Zsh,
    Powershell,
}

/// What starts an automation.
#[derive(Debug, Clone, PartialEq)]
pub enum AutomationTrigger {
    Manual,
    Schedule { time: String, weekdays: Vec<u8>, timezone: String, catch_up: bool },
    Application { event: ApplicationEvent, apps: Vec<ApplicationIdentity> },
    System { event: SessionEvent },
    Device { connected: bool, device_ids: Vec<String> },
    Transfer { received: bool, device_ids: Vec<String>, file_kinds: Vec<String> },
    Hotkey { shortcut: String },
    Presence { state: PresenceEvent },
}

#[verifier::ext_equal]
pub enum TriggerModel {
    Manual,
    Schedule { time: Seq<char>, weekdays: Seq<u8>, timezone: Seq<char>, catch_up: bool },
    Application { event: ApplicationEvent, apps: Seq<ApplicationModel> },
    System { event: SessionEvent },
    Device { connected: bool, device_ids: Seq<Seq<char>> },
    Transfer { received: bool, device_ids: Seq<Seq<char>>, file_kinds: Seq<Seq<char>> },
    Hotkey { shortcut: Seq<char> },
    Presence { state: PresenceEvent },
}

impl View for AutomationTrigger {
    type V = TriggerModel;

    open spec fn view(&self) -> TriggerModel {
        match *self {
            AutomationTrigger::Manual => TriggerModel::Manual,
            AutomationTrigger::Schedule { time, weekdays, timezone, catch_up } =>
                TriggerModel::Schedule {
                time: time@,
                weekdays: weekdays@,
                timezone: timezone@,
                catch_up,
            },
            AutomationTrigger::Application { event, apps } => TriggerModel::Application {
                event,
                apps: text::views(apps@),
            },
            AutomationTrigger::System { event } => TriggerModel::System { event },
            AutomationTrigger::Device { connected, device_ids } => TriggerModel::Device {
                connected,
                device_ids: text::views(device_ids@),
            },
            AutomationTrigger::Transfer { received, device_ids, file_kinds } =>
                TriggerModel::Transfer {
                received,
                device_ids: text::views(device_ids@),
                file_kinds: text::views(file_kinds@),
            },
            AutomationTrigger::Hotkey { shortcut } => TriggerModel::Hotkey { shortcut: shortcut@ },
            AutomationTrigger::Presence { state } => TriggerModel::Presence { state },
        }
    }
}

/// What has to hold for an event to run an automation.
#[derive(Debug, Clone, PartialEq)]
pub enum AutomationCondition {
    TimeRange { weekdays: Vec<u8>, start: String, end: String, timezone: String },
    ApplicationRunning { app: ApplicationIdentity, running: bool },
    DeviceConnected { device_id: String, connected: bool },
    Presence { state: PresenceEvent },
}

#[verifier::ext_equal]
pub enum ConditionModel {
    TimeRange { weekdays: Seq<u8>, start: Seq<char>, end: Seq<char>, timezone: Seq<char> },
    ApplicationRunning { app: ApplicationModel, running: bool },
    DeviceConnected { device_id: Seq<char>, connected: bool },
    Presence { state: PresenceEvent },
}

impl View for AutomationCondition {
    type V = ConditionModel;

    open spec fn view(&self) -> ConditionModel {
        match *self {
            AutomationCondition::TimeRange { weekdays, start, end, timezone } =>
                ConditionModel::TimeRange {
                weekdays: weekdays@,
                start: start@,
                end: end@,
                timezone: timezone@,
            },
            AutomationCondition::ApplicationRunning { app, running } =>
                ConditionModel::ApplicationRunning { app: app@, running },
            AutomationCondition::DeviceConnected { device_id, connected } =>
                ConditionModel::DeviceConnected { device_id: device_id@, connected },
            AutomationCondition::Presence { state } => ConditionModel::Presence { state },
        }
    }
}

/// One thing that an automation does.
#[derive(Debug, PartialEq)]
pub enum AutomationStep {
    QuickAction { action_id: String },
    Shell {
        shell: ShellKind,
        script: String,
        working_directory: Option<String>,
        timeout_seconds: u32,
    },
    Delay { duration_seconds: u64 },
    Notification { title: String, body: String, send_to_connected_devices: bool },
}

#[verifier::ext_equal]
pub enum StepModel {
    QuickAction { action_id: Seq<char> },
    Shell {
        shell: ShellKind,
        script: Seq<char>,
        working_directory: Option<Seq<char>>,
        timeout_seconds: nat,
    },
    Delay { duration_seconds: nat },
    Notification { title: Seq<char>, body: Seq<char>, send_to_connected_devices: bool },
}

impl View for AutomationStep {
    type V = StepModel;

    open spec fn view(&self) -> StepModel {
        match *self {
            AutomationStep::QuickAction { action_id } => StepModel::QuickAction {
                action_id: action_id@,
            },
            AutomationStep::Shell { shell, script, working_directory, timeout_seconds } =>
                StepModel::Shell {
                shell,
                script: script@,
                working_directory: text::opt_view(working_directory),
                timeout_seconds: timeout_seconds as nat,
            },
            AutomationStep::Delay { duration_seconds } => StepModel::Delay {
                duration_seconds: duration_seconds as nat,
            },
            AutomationStep::Notification { title, body, send_to_connected_devices } =>
                StepModel::Notification { title: title@, body: body@, send_to_connected_devices },
        }
    }
}

impl Clone for AutomationStep {
    fn clone(&self) -> (r: Self)
        ensures
            r == *self,
    {
        match self {
            AutomationStep::QuickAction { action_id } => AutomationStep::QuickAction {
                action_id: action_id.clone(),
            },
            AutomationStep::Shell { shell, script, working_directory, timeout_seconds } =>
                AutomationStep::Shell {
                shell: *shell,
                script: script.clone(),
                working_directory: match working_directory {
                    Some(directory) => Some(directory.clone()),
                    None => None,
                },
                timeout_seconds: *timeout_seconds,
            },
            AutomationStep::Delay { duration_seconds } => AutomationStep::Delay {
                duration_seconds: *duration_seconds,
            },
            AutomationStep::Notification { title, body, send_to_connected_devices } =>
                AutomationStep::Notification {
                title: title.clone(),
                body: body.clone(),
                send_to_connected_devices: *send_to_connected_devices,
            },
        }
    }
}

/// One trigger, any number of conditions, and the steps to take.
#[derive(Debug, Clone, PartialEq)]
pub struct AutomationDefinition {
    pub id: String,
    pub name: String,
    pub enabled: bool,
    pub trigger: AutomationTrigger,
    pub conditions: Vec<AutomationCondition>,
    pub steps: Vec<AutomationStep>,
    pub run_mode: RunMode,
    pub revision: u64,
    pub created_at: Timestamp,
    pub updated_at: Timestamp,
    pub legacy_id: Option<String>,
}

#[verifier::ext_equal]
pub struct DefinitionModel {
    pub id: Seq<char>,
    pub name: Seq<char>,
    pub enabled: bool,
    pub trigger: TriggerModel,
    pub conditions: Seq<ConditionModel>,
    pub steps: Seq<StepModel>,
    pub run_mode: RunMode,
    pub revision: nat,
    pub created_at: Timestamp,
    pub updated_at: Timestamp,
    pub legacy_id: Option<Seq<char>>,
}

impl View for AutomationDefinition {
    type V = DefinitionModel;

    open spec fn view(&self) -> DefinitionModel {
        DefinitionModel {
            id: self.id@,
            name: self.name@,
            enabled: self.enabled,
            trigger: self.trigger@,
            conditions: text::views(self.conditions@),
            steps: text::views(self.steps@),
            run_mode: self.run_mode,
            revision: self.revision as nat,
            created_at: self.created_at,
            updated_at: self.updated_at,
            legacy_id: text::opt_view(self.legacy_id),
        }
    }
}

/// Something that happened, with what is known of it under the names of variables.
#[derive(Debug, Clone)]
pub struct AutomationEvent {
    pub id: String,
    pub kind: String,
    pub occurred_at: Timestamp,
    pub variables: TextMap,
    pub origin_automation_id: Option<String>,
}

#[verifier::ext_equal]
pub struct EventModel {
    pub id: Seq<char>,
    pub kind: Seq<char>,
    pub occurred_at: Timestamp,
    pub variables: Map<Seq<char>, Seq<char>>,
    pub origin_automation_id: Option<Seq<char>>,
}

impl View for AutomationEvent {
    type V = EventModel;

    open spec fn view(&self) -> EventModel {
        EventModel {
            id: self.id@,
            kind: self.kind@,
            occurred_at: self.occurred_at,
            variables: self.variables@,
            origin_automation_id: text::opt_view(self.origin_automation_id),
        }
    }
}

/// Where an activity, or one of its steps, stands.
#[derive(Debug, Clone, Copy, PartialEq, Eq, Structural)]
pub enum ActivityStatus {
    AwaitingConfirmation,
    Skipped,
    Queued,
    Running,
    Succeeded,
    Failed,
    Canceled,
    Interrupted,
}

impl ActivityStatus {
    /// Nothing more will happen.
    pub open spec fn is_terminal(self) -> bool {
        self != ActivityStatus::AwaitingConfirmation && self != ActivityStatus::Queued && self
            != ActivityStatus::Running
    }

    /// The word under which the status is stored.
    pub open spec fn key_text(self) -> Seq<char> {
        match self {
            ActivityStatus::AwaitingConfirmation => "awaitingConfirmation"@,
            ActivityStatus::Skipped => "skipped"@,
            ActivityStatus::Queued => "queued"@,
            ActivityStatus::Running => "running"@,
            ActivityStatus::Succeeded => "succeeded"@,
            ActivityStatus::Failed => "failed"@,
            ActivityStatus::Canceled => "canceled"@,
            ActivityStatus::Interrupted => "interrupted"@,
        }
    }

    /// Whether nothing more will happen.
    pub fn terminal(self) -> (r: bool)
        ensures
            r == self.is_terminal(),
    {
        matches!(
            self,
            ActivityStatus::Skipped | ActivityStatus::Succeeded | ActivityStatus::Failed
                | ActivityStatus::Canceled | ActivityStatus::Interrupted
        )
    }

    /// The word under which the status is stored.
    pub fn key(self) -> (r: &'static str)
        ensures
            r@ == self.key_text(),
    {
        match self {
            ActivityStatus::AwaitingConfirmation => "awaitingConfirmation",
            ActivityStatus::Skipped => "skipped",
            ActivityStatus::Queued => "queued",
            ActivityStatus::Running => "running",
            ActivityStatus::Succeeded => "succeeded",
            ActivityStatus::Failed => "failed",
            ActivityStatus::Canceled => "canceled",
            ActivityStatus::Interrupted => "interrupted",
        }
    }
}

/// Different statuses are stored under different words.
pub proof fn law_status_keys_are_distinct(a: ActivityStatus, b: ActivityStatus)
    requires
        a.key_text() == b.key_text(),
    ensures
        a == b,
{
    reveal_strlit("awaitingConfirmation");
    reveal_strlit("skipped");
    reveal_strlit("queued");
    reveal_strlit("running");
    reveal_strlit("succeeded");
    reveal_strlit("failed");
    reveal_strlit("canceled");
    reveal_strlit("interrupted");
    let x = a.key_text();
    let y = b.key_text();
    assert(x.len() == y.len());
    assert(x[0] == y[0]);
}

/// A quick action as it was when the activity was recorded.
#[derive(Debug)]
pub struct ActionSnapshot {
    pub name: String,
    pub definition: serde_json::Value,
    pub requires_confirmation: bool,
    pub requires_unlocked_session: bool,
    pub requirements: Vec<String>,
}

#[verifier::ext_equal]
pub struct SnapshotModel {
    pub name: Seq<char>,
    pub definition: serde_json::Value,
    pub requires_confirmation: bool,
    pub requires_unlocked_session: bool,
    pub requirements: Seq<Seq<char>>,
}

impl View for ActionSnapshot {
    type V = SnapshotModel;

    open spec fn view(&self) -> SnapshotModel {
        SnapshotModel {
            name: self.name@,
            definition: self.definition,
            requires_confirmation: self.requires_confirmation,
            requires_unlocked_session: self.requires_unlocked_session,
            requirements: text::views(self.requirements@),
        }
    }
}

impl Clone for ActionSnapshot {
    fn clone(&self) -> (r: Self)
        ensures
            r@ == self@,
    {
        ActionSnapshot {
            name: self.name.clone(),
            definition: self.definition.clone(),
            requires_confirmation: self.requires_confirmation,
            requires_unlocked_session: self.requires_unlocked_session,
            requirements: text::clone_texts(&self.requirements),
        }
    }
}

/// What a step left behind.
#[derive(Debug, Clone)]
pub struct StepResult {
    pub exit_code: Option<i32>,
    pub stdout: String,
    pub stderr: String,
    pub error: Option<String>,
}

#[verifier::ext_equal]
pub struct ResultModel {
    pub exit_code: Option<i32>,
    pub stdout: Seq<char>,
    pub stderr: Seq<char>,
    pub error: Option<Seq<char>>,
}

impl View for StepResult {
    type V = ResultModel;

    open spec fn view(&self) -> ResultModel {
        ResultModel {
            exit_code: self.exit_code,
            stdout: self.stdout@,
            stderr: self.stderr@,
            error: text::opt_view(self.error),
        }
    }
}

impl ResultModel {
    /// No exit code, no output and no error.
    pub open spec fn nothing() -> ResultModel {
        ResultModel { exit_code: None, stdout: Seq::empty(), stderr: Seq::empty(), error: None }
    }

    /// The same result with each text cut to the output limit.
    pub open spec fn cut(self) -> ResultModel {
        ResultModel {
            exit_code: self.exit_code,
            stdout: text::fitting(self.stdout, OUTPUT_LIMIT as nat),
            stderr: text::fitting(self.stderr, OUTPUT_LIMIT as nat),
            error: match self.error {
                Some(error) => Some(text::fitting(error, OUTPUT_LIMIT as nat)),
                None => None,
            },
        }
    }

    /// Each text keeps within the output limit.
    pub open spec fn is_bounded(self) -> bool {
        &&& text::byte_len(self.stdout) <= OUTPUT_LIMIT
        &&& text::byte_len(self.stderr) <= OUTPUT_LIMIT
        &&& self.error matches Some(error) ==> text::byte_len(error) <= OUTPUT_LIMIT
    }

    /// Only an error.
    pub open spec fn failure(error: Seq<char>) -> ResultModel {
        ResultModel { error: Some(error), ..ResultModel::nothing() }
    }
}

impl Default for StepResult {
    fn default() -> (r: Self)
        ensures
            r@ == ResultModel::nothing(),
    {
        StepResult { exit_code: None, stdout: String::new(), stderr: String::new(), error: None }
    }
}

impl StepResult {
    /// Bounds what is stored to the output limit, in bytes and for each text.
    pub fn bounded(self) -> (r: Self)
        ensures
            r@ == self@.cut(),
            r@.is_bounded(),
    {
        proof {
            text::law_fitting(self.stdout@, OUTPUT_LIMIT as nat);
            text::law_fitting(self.stderr@, OUTPUT_LIMIT as nat);
            if self.error is Some {
                text::law_fitting(self.error->0@, OUTPUT_LIMIT as nat);
            }
        }
        StepResult {
            exit_code: self.exit_code,
            stdout: text::fit(self.stdout.as_str(), OUTPUT_LIMIT),
            stderr: text::fit(self.stderr.as_str(), OUTPUT_LIMIT),
            error: match self.error {
                Some(error) => Some(text::fit(error.as_str(), OUTPUT_LIMIT)),
                None => None,
            },
        }
    }

    /// A result that holds nothing but an error.
    pub(crate) fn failure(error: String) -> (r: Self)
        ensures
            r@ == ResultModel::failure(error@),
    {
        StepResult {
            exit_code: None,
            stdout: String::new(),
            stderr: String::new(),
            error: Some(error),
        }
    }
}

/// A result that keeps within the output limit is stored as it is, so bounding twice changes
/// nothing more.
pub proof fn law_bounded_results_stay(result: ResultModel)
    ensures
        result.is_bounded() ==> result.cut() == result,
        result.cut().cut() == result.cut(),
{
    text::law_fitting(result.stdout, OUTPUT_LIMIT as nat);
    text::law_fitting(result.stderr, OUTPUT_LIMIT as nat);
    if let Some(error) = result.error {
        text::law_fitting(error, OUTPUT_LIMIT as nat);
    }
}

/// A step of an activity.
#[derive(Debug, Clone)]
pub struct StepRun {
    pub index: usize,
    pub step: AutomationStep,
    pub action: Option<ActionSnapshot>,
    pub status: ActivityStatus,
    pub started_at: Option<Timestamp>,
    pub finished_at: Option<Timestamp>,
    pub result: StepResult,
}

#[verifier::ext_equal]
pub struct StepRunModel {
    pub index: int,
    pub step: StepModel,
    pub action: Option<SnapshotModel>,
    pub status: ActivityStatus,
    pub started_at: Option<Timestamp>,
    pub finished_at: Option<Timestamp>,
    pub result: ResultModel,
}

impl View for StepRun {
    type V = StepRunModel;

    open spec fn view(&self) -> StepRunModel {
        StepRunModel {
            index: self.index as int,
            step: self.step@,
            action: text::opt_view(self.action),
            status: self.status,
            started_at: self.started_at,
            finished_at: self.finished_at,
            result: self.result@,
        }
    }
}

/// One run, or one refusal to run, of an automation. The definition, the event and the action
/// snapshots are those of the moment at which the activity was recorded.
#[derive(Debug, Clone)]
pub struct AutomationActivity {
    pub id: String,
    pub automation_id: String,
    pub definition: AutomationDefinition,
    pub event: AutomationEvent,
    pub status: ActivityStatus,
    pub reason: Option<String>,
    pub created_at: Timestamp,
    pub finished_at: Option<Timestamp>,
    pub steps: Vec<StepRun>,
    pub confirmed_steps: Vec<usize>,
    pub run_confirmed: bool,
}

#[verifier::ext_equal]
pub struct ActivityModel {
    pub id: Seq<char>,
    pub automation_id: Seq<char>,
    pub definition: DefinitionModel,
    pub event: EventModel,
    pub status: ActivityStatus,
    pub reason: Option<Seq<char>>,
    pub created_at: Timestamp,
    pub finished_at: Option<Timestamp>,
    pub steps: Seq<StepRunModel>,
    pub confirmed_steps: Seq<usize>,
    pub run_confirmed: bool,
}

impl View for AutomationActivity {
    type V = ActivityModel;

    open spec fn view(&self) -> ActivityModel {
        ActivityModel {
            id: self.id@,
            automation_id: self.automation_id@,
            definition: self.definition@,
            event: self.event@,
            status: self.status,
            reason: text::opt_view(self.reason),
            created_at: self.created_at,
            finished_at: self.finished_at,
            steps: text::views(self.steps@),
            confirmed_steps: self.confirmed_steps@,
            run_confirmed: self.run_confirmed,
        }
    }
}

impl ActivityModel {
    /// Step `i` is recorded under index `i`.
    pub open spec fn indexed(self) -> bool {
        forall|i: int| 0 <= i < self.steps.len() ==> (#[trigger] self.steps[i]).index == i
    }

    /// The step at `index` was confirmed by a person.
    pub open spec fn is_confirmed(self, index: int) -> bool {
        exists|k: int|
            0 <= k < self.confirmed_steps.len() && self.confirmed_steps[k] as int == index
    }
}

/// A feature of the system, whether it can be used, and if not why and what to do.
#[derive(Debug, Clone)]
pub struct Capability {
    pub id: String,
    pub available: bool,
    pub reason: Option<String>,
    pub remedy: Option<String>,
}

#[verifier::ext_equal]
pub struct CapabilityModel {
    pub id: Seq<char>,
    pub available: bool,
    pub reason: Option<Seq<char>>,
    pub remedy: Option<Seq<char>>,
}

impl View for Capability {
    type V = CapabilityModel;

    open spec fn view(&self) -> CapabilityModel {
        CapabilityModel {
            id: self.id@,
            available: self.available,
            reason: text::opt_view(self.reason),
            remedy: text::opt_view(self.remedy),
        }
    }
}

/// Something that keeps an automation from being enabled.
#[derive(Debug, Clone)]
pub struct AutomationIssue {
    pub code: String,
    pub message: String,
    pub remedy: String,
    pub step_index: Option<usize>,
}

#[verifier::ext_equal]
pub struct IssueModel {
    pub code: Seq<char>,
    pub message: Seq<char>,
    pub remedy: Seq<char>,
    pub step_index: Option<usize>,
}

impl View for AutomationIssue {
    type V = IssueModel;

    open spec fn view(&self) -> IssueModel {
        IssueModel {
            code: self.code@,
            message: self.message@,
            remedy: self.remedy@,
            step_index: self.step_index,
        }
    }
}

/// What conditions are held against.
#[derive(Debug, Clone)]
pub struct EnvironmentState {
    pub running_app_ids: Vec<String>,
    pub connected_device_ids: Vec<String>,
    pub locked: bool,
    pub presence_state: Option<PresenceEvent>,
}

#[verifier::ext_equal]
pub struct EnvironmentModel {
    pub running_app_ids: Seq<Seq<char>>,
    pub connected_device_ids: Seq<Seq<char>>,
    pub locked: bool,
    pub presence_state: Option<PresenceEvent>,
}

impl View for EnvironmentState {
    type V = EnvironmentModel;

    open spec fn view(&self) -> EnvironmentModel {
        EnvironmentModel {
            running_app_ids: text::views(self.running_app_ids@),
            connected_device_ids: text::views(self.connected_device_ids@),
            locked: self.locked,
            presence_state: self.presence_state,
        }
    }
}

impl Default for EnvironmentState {
    fn default() -> (r: Self)
        ensures
            r@ == (EnvironmentModel {
                running_app_ids: Seq::empty(),
                connected_device_ids: Seq::empty(),
                locked: false,
                presence_state: None,
            }),
    {
        EnvironmentState {
            running_app_ids: Vec::new(),
            connected_device_ids: Vec::new(),
            locked: false,
            presence_state: None,
        }
    }
}

/// The model of a trigger tells every field of it.
pub proof fn law_trigger_models(trigger: AutomationTrigger)
    ensures
        trigger is Manual <==> trigger@ is Manual,
        trigger matches AutomationTrigger::Schedule { time, weekdays, timezone, catch_up } ==> {
            &&& trigger@ is Schedule
            &&& trigger@->Schedule_time == time@
            &&& trigger@->Schedule_weekdays == weekdays@
            &&& trigger@->Schedule_timezone == timezone@
            &&& trigger@->Schedule_catch_up == catch_up
        },
        trigger matches AutomationTrigger::Application { event, apps } ==> {
            &&& trigger@ is Application
            &&& trigger@->Application_event == event
            &&& trigger@->Application_apps.len() == apps@.len()
            &&& forall|i: int|
                0 <= i < apps@.len() ==> {
                    let app = #[trigger] trigger@->Application_apps[i];
                    app.id == apps@[i].id@ && app.name == apps@[i].name@ && app.path
                        == apps@[i].path@
                }
        },
        trigger matches AutomationTrigger::System { event } ==> trigger@ is System
            && trigger@->System_event == event,
        trigger matches AutomationTrigger::Device { connected, device_ids } ==> {
            &&& trigger@ is Device
            &&& trigger@->Device_connected == connected
            &&& trigger@->Device_device_ids.len() == device_ids@.len()
            &&& forall|i: int|
                0 <= i < device_ids@.len() ==> #[trigger] trigger@->Device_device_ids[i]
                    == device_ids@[i]@
        },
        trigger matches AutomationTrigger::Transfer { received, device_ids, file_kinds } ==> {
            &&& trigger@ is Transfer
            &&& trigger@->Transfer_received == received
            &&& trigger@->Transfer_device_ids.len() == device_ids@.len()
            &&& trigger@->Transfer_file_kinds.len() == file_kinds@.len()
            &&& forall|i: int|
                0 <= i < device_ids@.len() ==> #[trigger] trigger@->Transfer_device_ids[i]
                    == device_ids@[i]@
            &&& forall|i: int|
                0 <= i < file_kinds@.len() ==> #[trigger] trigger@->Transfer_file_kinds[i]
                    == file_kinds@[i]@
        },
        trigger matches AutomationTrigger::Hotkey { shortcut } ==> trigger@ is Hotkey
            && trigger@->Hotkey_shortcut == shortcut@,
        trigger matches AutomationTrigger::Presence { state } ==> trigger@ is Presence
            && trigger@->Presence_state == state,
{
}

/// The model of a condition tells every field of it.
pub proof fn law_condition_models(condition: AutomationCondition)
    ensures
        condition matches AutomationCondition::TimeRange { weekdays, start, end, timezone } ==> {
            &&& condition@ is TimeRange
            &&& condition@->TimeRange_weekdays == weekdays@
            &&& condition@->TimeRange_start == start@
            &&& condition@->TimeRange_end == end@
            &&& condition@->TimeRange_timezone == timezone@
        },
        condition matches AutomationCondition::ApplicationRunning { app, running } ==> {
            &&& condition@ is ApplicationRunning
            &&& condition@->ApplicationRunning_app.id == app.id@
            &&& condition@->ApplicationRunning_app.name == app.name@
            &&& condition@->ApplicationRunning_app.path == app.path@
            &&& condition@->ApplicationRunning_running == running
        },
        condition matches AutomationCondition::DeviceConnected { device_id, connected } ==> {
            &&& condition@ is DeviceConnected
            &&& condition@->DeviceConnected_device_id == device_id@
            &&& condition@->DeviceConnected_connected == connected
        },
        condition matches AutomationCondition::Presence { state } ==> condition@ is Presence
            && condition@->Presence_state == state,
{
}

/// The model of a step tells every field of it.
pub proof fn law_step_models(step: AutomationStep)
    ensures
        step matches AutomationStep::QuickAction { action_id } ==> step@ is QuickAction
            && step@->QuickAction_action_id == action_id@,
        step matches AutomationStep::Shell { shell, script, working_directory, timeout_seconds }
            ==> {
            &&& step@ is Shell
            &&& step@->Shell_shell == shell
            &&& step@->Shell_script == script@
            &&& working_directory is Some <==> step@->Shell_working_directory is Some
            &&& working_directory is Some ==> step@->Shell_working_directory->0
                == working_directory->0@
            &&& step@->Shell_timeout_seconds == timeout_seconds
        },
        step matches AutomationStep::Delay { duration_seconds } ==> step@ is Delay
            && step@->Delay_duration_seconds == duration_seconds,
        step matches AutomationStep::Notification { title, body, send_to_connected_devices } ==> {
            &&& step@ is Notification
            &&& step@->Notification_title == title@
            &&& step@->Notification_body == body@
            &&& step@->Notification_send_to_connected_devices == send_to_connected_devices
        },
{
}

/// The model of a definition tells every field of it.
pub proof fn law_definition_models(definition: AutomationDefinition)
    ensures
        definition@.id == definition.id@,
        definition@.name == definition.name@,
        definition@.enabled == definition.enabled,
        definition@.trigger == definition.trigger@,
        definition@.conditions.len() == definition.conditions@.len(),
        forall|i: int|
            0 <= i < definition.conditions@.len() ==> #[trigger] definition@.conditions[i]
                == definition.conditions@[i]@,
        definition@.steps.len() == definition.steps@.len(),
        forall|i: int|
            0 <= i < definition.steps@.len() ==> #[trigger] definition@.steps[i]
                == definition.steps@[i]@,
        definition@.run_mode == definition.run_mode,
        definition@.revision == definition.revision,
        definition@.created_at == definition.created_at,
        definition@.updated_at == definition.updated_at,
        definition.legacy_id is Some <==> definition@.legacy_id is Some,
        definition.legacy_id is Some ==> definition@.legacy_id->0 == definition.legacy_id->0@,
{
}

/// The models of an event, of the environment and of a result tell every field of them.
pub proof fn law_event_models(
    event: AutomationEvent,
    state: EnvironmentState,
    result: StepResult,
)
    ensures
        event@.id == event.id@,
        event@.kind == event.kind@,
        event@.occurred_at == event.occurred_at,
        event@.variables == event.variables@,
        event.origin_automation_id is Some <==> event@.origin_automation_id is Some,
        event.origin_automation_id is Some ==> event@.origin_automation_id->0
            == event.origin_automation_id->0@,
        state@.running_app_ids.len() == state.running_app_ids@.len(),
        forall|i: int|
            0 <= i < state.running_app_ids@.len() ==> #[trigger] state@.running_app_ids[i]
                == state.running_app_ids@[i]@,
        state@.connected_device_ids.len() == state.connected_device_ids@.len(),
        forall|i: int|
            0 <= i < state.connected_device_ids@.len() ==> #[trigger] state@.connected_device_ids[i]
                == state.connected_device_ids@[i]@,
        state@.locked == state.locked,
        state@.presence_state == state.presence_state,
        result@.exit_code == result.exit_code,
        result@.stdout == result.stdout@,
        result@.stderr == result.stderr@,
        result.error is Some <==> result@.error is Some,
        result.error is Some ==> result@.error->0 == result.error->0@,
{
}

/// The model of an activity tells every field of it and of its steps.
pub proof fn law_activity_models(activity: AutomationActivity)
    ensures
        activity@.id == activity.id@,
        activity@.automation_id == activity.automation_id@,
        activity@.definition == activity.definition@,
        activity@.event == activity.event@,
        activity@.status == activity.status,
        activity.reason is Some <==> activity@.reason is Some,
        activity.reason is Some ==> activity@.reason->0 == activity.reason->0@,
        activity@.created_at == activity.created_at,
        activity@.finished_at == activity.finished_at,
        activity@.confirmed_steps == activity.confirmed_steps@,
        activity@.run_confirmed == activity.run_confirmed,
        activity@.steps.len() == activity.steps@.len(),
        forall|i: int|
            0 <= i < activity.steps@.len() ==> {
                let model = #[trigger] activity@.steps[i];
                let run = activity.steps@[i];
                &&& model.index == run.index
                &&& model.step == run.step@
                &&& run.action is Some <==> model.action is Some
                &&& run.action is Some ==> model.action->0 == run.action->0@
                &&& model.status == run.status
                &&& model.started_at == run.started_at
                &&& model.finished_at == run.finished_at
                &&& model.result == run.result@
            },
{
}

/// The models of a snapshot, of a capability and of an issue tell every field of them.
pub proof fn law_snapshot_models(
    snapshot: ActionSnapshot,
    capability: Capability,
    issue: AutomationIssue,
)
    ensures
        snapshot@.name == snapshot.name@,
        snapshot@.definition == snapshot.definition,
        snapshot@.requires_confirmation == snapshot.requires_confirmation,
        snapshot@.requires_unlocked_session == snapshot.requires_unlocked_session,
        snapshot@.requirements.len() == snapshot.requirements@.len(),
        forall|i: int|
            0 <= i < snapshot.requirements@.len() ==> #[trigger] snapshot@.requirements[i]
                == snapshot.requirements@[i]@,
        capability@.id == capability.id@,
        capability@.available == capability.available,
        capability.reason is Some <==> capability@.reason is Some,
        capability.reason is Some ==> capability@.reason->0 == capability.reason->0@,
        capability.remedy is Some <==> capability@.remedy is Some,
        capability.remedy is Some ==> capability@.remedy->0 == capability.remedy->0@,
        issue@.code == issue.code@,
        issue@.message == issue.message@,
        issue@.remedy == issue.remedy@,
        issue@.step_index == issue.step_index,
{
}

/// Nothing more happens to what was skipped, has succeeded or failed, was canceled or interrupted;
/// what is queued, runs or waits for a confirmation is outstanding.
pub proof fn law_terminal_statuses()
    ensures
        ActivityStatus::Skipped.is_terminal(),
        ActivityStatus::Succeeded.is_terminal(),
        ActivityStatus::Failed.is_terminal(),
        ActivityStatus::Canceled.is_terminal(),
        ActivityStatus::Interrupted.is_terminal(),
        !ActivityStatus::Queued.is_terminal(),
        !ActivityStatus::Running.is_terminal(),
        !ActivityStatus::AwaitingConfirmation.is_terminal(),
{
}

/// A result is stored with its exit code and with the longest beginning of each of its texts that
/// takes at most 65536 bytes; an error stays an error, and none becomes none.
pub proof fn law_stored_results(result: ResultModel)
    ensures
        ({
            let kept = result.cut();
            let begins = |whole: Seq<char>, part: Seq<char>|
                {
                    &&& part.len() <= whole.len()
                    &&& part == whole.take(part.len() as int)
                    &&& text::byte_len(part) <= 65536
                    &&& part.len() < whole.len() ==> text::byte_len(
                        whole.take(part.len() as int + 1),
                    ) > 65536
                };
            &&& kept.exit_code == result.exit_code
            &&& begins(result.stdout, kept.stdout)
            &&& begins(result.stderr, kept.stderr)
            &&& kept.error is Some <==> result.error is Some
            &&& result.error is Some ==> begins(result.error->0, kept.error->0)
        }),
{
    text::law_fitting(result.stdout, 65536);
    text::law_fitting_is_longest(result.stdout, 65536);
    text::law_fitting(result.stderr, 65536);
    text::law_fitting_is_longest(result.stderr, 65536);
    if let Some(error) = result.error {
        text::law_fitting(error, 65536);
        text::law_fitting_is_longest(error, 65536);
    }
}

/// The words under which statuses are stored.
pub proof fn law_words_of_statuses()
    ensures
        ActivityStatus::AwaitingConfirmation.key_text() == "awaitingConfirmation"@,
        ActivityStatus::Skipped.key_text() == "skipped"@,
        ActivityStatus::Queued.key_text() == "queued"@,
        ActivityStatus::Running.key_text() == "running"@,
        ActivityStatus::Succeeded.key_text() == "succeeded"@,
        ActivityStatus::Failed.key_text() == "failed"@,
        ActivityStatus::Canceled.key_text() == "canceled"@,
        ActivityStatus::Interrupted.key_text() == "interrupted"@,
{
}

} // verus!
