//! What keeps a definition from being enabled on the system at hand.

use crate::error::{AutomationError, ErrorModel};
use crate::model::{
    ActionSnapshot, ApplicationIdentity, ApplicationModel, AutomationCondition,
    AutomationDefinition, AutomationIssue, AutomationStep, AutomationTrigger, Capability,
    CapabilityModel, ConditionModel, DefinitionModel, IssueModel, RunMode, SessionEvent, ShellKind,
    SnapshotModel, StepModel, TriggerModel,
};
use crate::text;
use crate::validation;
use vstd::prelude::*;

verus! {

/// A capability that is needed, and the step that needs it.
#[verifier::ext_equal]
pub struct NeedModel {
    pub id: Seq<char>,
    pub step_index: Option<usize>,
}

/// The answer to a request for a quick action.
pub open spec fn answer(snapshot: Result<ActionSnapshot, String>) -> Result<
    SnapshotModel,
    Seq<char>,
> {
    match snapshot {
        Ok(action) => Ok(action@),
        Err(message) => Err(message@),
    }
}

/// The answers to requests for quick actions, step by step; `None` for a step that is none.
pub open spec fn answers(snapshots: Seq<Option<Result<ActionSnapshot, String>>>) -> Seq<
    Option<Result<SnapshotModel, Seq<char>>>,
> {
    snapshots.map_values(
        |s: Option<Result<ActionSnapshot, String>>|
            match s {
                Some(snapshot) => Some(answer(snapshot)),
                None => None,
            },
    )
}

/// The answers to the question whether applications are available.
pub open spec fn availability(answers: Seq<Result<(), String>>) -> Seq<Option<Seq<char>>> {
    answers.map_values(
        |a: Result<(), String>|
            match a {
                Ok(()) => None,
                Err(message) => Some(message@),
            },
    )
}

/// The capability `id` is there and can be used.
pub open spec fn usable(capabilities: Seq<CapabilityModel>, id: Seq<char>) -> bool {
    exists|i: int|
        0 <= i < capabilities.len() && (#[trigger] capabilities[i]).id == id
            && capabilities[i].available
}

/// The first capability called `id`.
pub open spec fn named(capabilities: Seq<CapabilityModel>, id: Seq<char>) -> Option<CapabilityModel>
    decreases capabilities.len(),
{
    if capabilities.len() == 0 {
        None
    } else if capabilities[0].id == id {
        Some(capabilities[0])
    } else {
        named(capabilities.drop_first(), id)
    }
}

/// `text`, or `otherwise` where there is none.
pub open spec fn or_else(text: Option<Seq<char>>, otherwise: Seq<char>) -> Seq<char> {
    match text {
        Some(t) => t,
        None => otherwise,
    }
}

/// The issue of a capability that is needed and cannot be used. The system says why and what to
/// do; where it does not, `fallback` and a hint to edit the definition stand in.
pub open spec fn need_issue(
    need: NeedModel,
    fallback: Seq<char>,
    capabilities: Seq<CapabilityModel>,
) -> IssueModel {
    let capability = named(capabilities, need.id);
    IssueModel {
        code: need.id,
        message: or_else(
            match capability {
                Some(c) => c.reason,
                None => None,
            },
            fallback,
        ),
        remedy: or_else(
            match capability {
                Some(c) => c.remedy,
                None => None,
            },
            "edit"@,
        ),
        step_index: need.step_index,
    }
}

/// The issues of those needs that cannot be met, in order.
pub open spec fn unmet(
    needs: Seq<NeedModel>,
    fallback: Seq<char>,
    capabilities: Seq<CapabilityModel>,
) -> Seq<IssueModel>
    decreases needs.len(),
{
    if needs.len() == 0 {
        Seq::empty()
    } else {
        let rest = unmet(needs.drop_last(), fallback, capabilities);
        if usable(capabilities, needs.last().id) {
            rest
        } else {
            rest.push(need_issue(needs.last(), fallback, capabilities))
        }
    }
}

pub open spec fn feature_fallback() -> Seq<char> {
    "this feature is not supported on the current system"@
}

pub open spec fn action_fallback() -> Seq<char> {
    "this action is not supported on the current system"@
}

/// What a condition needs of the system.
pub open spec fn condition_needs(condition: ConditionModel) -> Seq<NeedModel> {
    match condition {
        ConditionModel::ApplicationRunning { .. } => seq![
            NeedModel { id: "application.started"@, step_index: None },
        ],
        ConditionModel::Presence { state } => seq![
            NeedModel { id: "presence."@ + state.token_text(), step_index: None },
        ],
        _ => Seq::empty(),
    }
}

/// What the first `n` conditions need of the system.
pub open spec fn conditions_needs(conditions: Seq<ConditionModel>, n: nat) -> Seq<NeedModel>
    decreases n,
{
    if n == 0 {
        Seq::empty()
    } else {
        conditions_needs(conditions, (n - 1) as nat) + condition_needs(conditions[n - 1])
    }
}

pub open spec fn shell_word(shell: ShellKind) -> Seq<char> {
    match shell {
        ShellKind::System => "system"@,
        ShellKind::Sh => "sh"@,
        ShellKind::Bash => "bash"@,
        ShellKind::Zsh => "zsh"@,
        ShellKind::Powershell => "powershell"@,
    }
}

/// What a step needs of the system, apart from what its quick action asks for.
pub open spec fn step_needs(step: StepModel, index: usize) -> Seq<NeedModel> {
    match step {
        StepModel::Shell { shell, .. } => seq![
            NeedModel { id: "shell."@ + shell_word(shell), step_index: Some(index) },
        ],
        StepModel::Notification { send_to_connected_devices, .. } => if send_to_connected_devices {
            seq![NeedModel { id: "notification.mobile"@, step_index: Some(index) }]
        } else {
            Seq::empty()
        },
        _ => Seq::empty(),
    }
}

/// What the first `n` steps need of the system.
pub open spec fn steps_needs(steps: Seq<StepModel>, n: nat) -> Seq<NeedModel>
    decreases n,
{
    if n == 0 {
        Seq::empty()
    } else {
        steps_needs(steps, (n - 1) as nat) + step_needs(steps[n - 1], (n - 1) as usize)
    }
}

/// What a definition needs of the system: for its trigger, for asking before a run, for its
/// conditions and for its steps.
pub open spec fn needs(definition: DefinitionModel) -> Seq<NeedModel> {
    seq![NeedModel { id: definition.trigger.capability_text(), step_index: None }] + (
    if definition.run_mode == RunMode::AskBeforeRun {
        seq![NeedModel { id: "session.confirm"@, step_index: None }]
    } else {
        Seq::empty()
    }) + conditions_needs(definition.conditions, definition.conditions.len()) + steps_needs(
        definition.steps,
        definition.steps.len(),
    )
}

/// What a quick action needs of the system.
pub open spec fn action_needs(action: SnapshotModel, index: usize) -> Seq<NeedModel> {
    action.requirements.map_values(
        |id: Seq<char>| NeedModel { id, step_index: Some(index) },
    ) + if action.requires_confirmation {
        seq![NeedModel { id: "session.confirm"@, step_index: Some(index) }]
    } else {
        Seq::empty()
    }
}

/// The trigger fires when nobody can use the session.
pub open spec fn fires_while_locked(trigger: TriggerModel) -> bool {
    trigger matches TriggerModel::System { event } && (event == SessionEvent::Locked || event
        == SessionEvent::Sleeping)
}

/// The issues of the quick action of a step.
pub open spec fn action_issues(
    reply: Option<Result<SnapshotModel, Seq<char>>>,
    index: usize,
    trigger: TriggerModel,
    capabilities: Seq<CapabilityModel>,
) -> Seq<IssueModel> {
    match reply {
        None => Seq::empty(),
        Some(Err(message)) => seq![
            IssueModel {
                code: "action.missing"@,
                message,
                remedy: "actions"@,
                step_index: Some(index),
            },
        ],
        Some(Ok(action)) => if action.requires_unlocked_session && fires_while_locked(trigger) {
            seq![
                IssueModel {
                    code: "session.locked"@,
                    message: "cannot run \""@ + action.name
                        + "\" while the system is locked or asleep"@,
                    remedy: "changeTrigger"@,
                    step_index: Some(index),
                },
            ]
        } else {
            unmet(action_needs(action, index), action_fallback(), capabilities)
        },
    }
}

/// The issues of the quick actions of the first `n` steps.
pub open spec fn actions_issues(
    replies: Seq<Option<Result<SnapshotModel, Seq<char>>>>,
    n: nat,
    trigger: TriggerModel,
    capabilities: Seq<CapabilityModel>,
) -> Seq<IssueModel>
    decreases n,
{
    if n == 0 {
        Seq::empty()
    } else {
        actions_issues(replies, (n - 1) as nat, trigger, capabilities) + action_issues(
            replies[n - 1],
            (n - 1) as usize,
            trigger,
            capabilities,
        )
    }
}

/// The applications of the first `n` conditions.
pub open spec fn condition_applications(conditions: Seq<ConditionModel>, n: nat) -> Seq<
    ApplicationModel,
>
    decreases n,
{
    if n == 0 {
        Seq::empty()
    } else {
        let rest = condition_applications(conditions, (n - 1) as nat);
        match conditions[n - 1] {
            ConditionModel::ApplicationRunning { app, .. } => rest.push(app),
            _ => rest,
        }
    }
}

/// The applications that a definition names: those of its trigger, then those of its conditions.
pub open spec fn applications_of(definition: DefinitionModel) -> Seq<ApplicationModel> {
    (match definition.trigger {
        TriggerModel::Application { apps, .. } => apps,
        _ => Seq::empty(),
    }) + condition_applications(definition.conditions, definition.conditions.len())
}

/// The issues of the first `n` applications, each of which is missing where there is a message.
pub open spec fn application_issues(missing: Seq<Option<Seq<char>>>, n: nat) -> Seq<IssueModel>
    decreases n,
{
    if n == 0 {
        Seq::empty()
    } else {
        let rest = application_issues(missing, (n - 1) as nat);
        match missing[n - 1] {
            Some(message) => rest.push(
                IssueModel {
                    code: "application.missing"@,
                    message,
                    remedy: "edit"@,
                    step_index: None,
                },
            ),
            None => rest,
        }
    }
}

/// The issue of a definition that breaks a rule.
pub open spec fn configuration_issues(outcome: Result<(), ErrorModel>) -> Seq<IssueModel> {
    match outcome {
        Ok(()) => Seq::empty(),
        Err(e) => seq![
            IssueModel {
                code: "configuration"@,
                message: e.message(),
                remedy: "edit"@,
                step_index: None,
            },
        ],
    }
}

/// Everything that keeps a definition from being enabled.
pub open spec fn issues(
    definition: DefinitionModel,
    encoded: Result<nat, ErrorModel>,
    capabilities: Seq<CapabilityModel>,
    replies: Seq<Option<Result<SnapshotModel, Seq<char>>>>,
    missing: Seq<Option<Seq<char>>>,
) -> Seq<IssueModel> {
    configuration_issues(validation::validation(definition, encoded)) + unmet(
        needs(definition),
        feature_fallback(),
        capabilities,
    ) + actions_issues(replies, replies.len(), definition.trigger, capabilities)
        + application_issues(missing, missing.len())
}

/// A capability that is needed, and the step that needs it.
struct Need {
    id: String,
    step_index: Option<usize>,
}

impl View for Need {
    type V = NeedModel;

    closed spec fn view(&self) -> NeedModel {
        NeedModel { id: self.id@, step_index: self.step_index }
    }
}

fn is_usable(capabilities: &[Capability], id: &str) -> (r: bool)
    ensures
        r == usable(text::views(capabilities@), id@),
{
    let ghost models = text::views(capabilities@);
    let mut i: usize = 0;
    while i < capabilities.len()
        invariant
            i <= capabilities@.len(),
            models == text::views(capabilities@),
            forall|k: int|
                0 <= k < i ==> (#[trigger] models[k]).id != id@ || !models[k].available,
        decreases capabilities@.len() - i,
    {
        assert(models[i as int] == capabilities@[i as int]@);
        if text::same_text(capabilities[i].id.as_str(), id) && capabilities[i].available {
            return true;
        }
        i = i + 1;
    }
    false
}

fn find_named<'a>(capabilities: &'a [Capability], id: &str) -> (r: Option<&'a Capability>)
    ensures
        match r {
            Some(c) => named(text::views(capabilities@), id@) == Some(c@),
            None => named(text::views(capabilities@), id@) is None,
        },
{
    let ghost models = text::views(capabilities@);
    let mut i: usize = 0;
    assert(models.skip(0) =~= models);
    while i < capabilities.len()
        invariant
            i <= capabilities@.len(),
            models == text::views(capabilities@),
            named(models, id@) == named(models.skip(i as int), id@),
        decreases capabilities@.len() - i,
    {
        assert(models.skip(i as int)[0] == capabilities@[i as int]@);
        assert(models.skip(i as int).drop_first() =~= models.skip(i + 1));
        if text::same_text(capabilities[i].id.as_str(), id) {
            return Some(&capabilities[i]);
        }
        i = i + 1;
    }
    None
}

fn text_or(text: Option<&String>, otherwise: &str) -> (r: String)
    ensures
        r@ == or_else(
            match text {
                Some(t) => Some(t@),
                None => None,
            },
            otherwise@,
        ),
{
    match text {
        Some(t) => t.clone(),
        None => otherwise.to_owned(),
    }
}

/// Adds the issue of a need that cannot be met.
fn require(
    issues: &mut Vec<AutomationIssue>,
    need: &Need,
    fallback: &str,
    capabilities: &[Capability],
)
    ensures
        text::views(final(issues)@) == (if usable(text::views(capabilities@), need@.id) {
            text::views(old(issues)@)
        } else {
            text::views(old(issues)@).push(
                need_issue(need@, fallback@, text::views(capabilities@)),
            )
        }),
{
    if !is_usable(capabilities, need.id.as_str()) {
        let (reason, remedy) = match find_named(capabilities, need.id.as_str()) {
            Some(c) => (c.reason.as_ref(), c.remedy.as_ref()),
            None => (None, None),
        };
        let ghost before = text::views(issues@);
        let issue = AutomationIssue {
            code: need.id.clone(),
            message: text_or(reason, fallback),
            remedy: text_or(remedy, "edit"),
            step_index: need.step_index,
        };
        let ghost model = issue@;
        issues.push(issue);
        assert(text::views(issues@) =~= before.push(model));
    }
}

/// Adds the issues of those needs that cannot be met.
fn require_all(
    issues: &mut Vec<AutomationIssue>,
    wanted: &Vec<Need>,
    fallback: &str,
    capabilities: &[Capability],
)
    ensures
        text::views(final(issues)@) == text::views(old(issues)@) + unmet(
            text::views(wanted@),
            fallback@,
            text::views(capabilities@),
        ),
{
    let ghost before = text::views(issues@);
    let ghost models = text::views(wanted@);
    let ghost caps = text::views(capabilities@);
    let mut i: usize = 0;
    assert(models.take(0) =~= Seq::<NeedModel>::empty());
    assert(before + Seq::<IssueModel>::empty() =~= before);
    while i < wanted.len()
        invariant
            i <= wanted@.len(),
            models == text::views(wanted@),
            caps == text::views(capabilities@),
            text::views(issues@) == before + unmet(models.take(i as int), fallback@, caps),
        decreases wanted@.len() - i,
    {
        assert(models.take(i + 1).drop_last() =~= models.take(i as int));
        assert(models.take(i + 1).last() == wanted@[i as int]@);
        require(issues, &wanted[i], fallback, capabilities);
        assert(text::views(issues@) =~= before + unmet(models.take(i + 1), fallback@, caps));
        i = i + 1;
    }
    assert(models.take(i as int) =~= models);
}

fn push_need(wanted: &mut Vec<Need>, id: String, step_index: Option<usize>)
    ensures
        text::views(final(wanted)@) == text::views(old(wanted)@).push(
            NeedModel { id: id@, step_index },
        ),
{
    let ghost before = text::views(wanted@);
    let need = Need { id, step_index };
    let ghost model = need@;
    wanted.push(need);
    assert(text::views(wanted@) =~= before.push(model));
}

fn shell_text(shell: ShellKind) -> (r: &'static str)
    ensures
        r@ == shell_word(shell),
{
    match shell {
        ShellKind::System => "system",
        ShellKind::Sh => "sh",
        ShellKind::Bash => "bash",
        ShellKind::Zsh => "zsh",
        ShellKind::Powershell => "powershell",
    }
}

/// What a definition needs of the system.
fn collect_needs(definition: &AutomationDefinition) -> (r: Vec<Need>)
    ensures
        text::views(r@) == needs(definition@),
{
    let ghost conditions = text::views(definition.conditions@);
    let ghost steps = text::views(definition.steps@);
    let mut wanted: Vec<Need> = Vec::new();
    push_need(&mut wanted, definition.trigger.capability(), None);
    if definition.run_mode == RunMode::AskBeforeRun {
        push_need(&mut wanted, "session.confirm".to_owned(), None);
    }
    let ghost first = text::views(wanted@);
    assert(first =~= seq![
        NeedModel { id: definition@.trigger.capability_text(), step_index: None },
    ] + if definition@.run_mode == RunMode::AskBeforeRun {
        seq![NeedModel { id: "session.confirm"@, step_index: None }]
    } else {
        Seq::empty()
    });
    let mut i: usize = 0;
    while i < definition.conditions.len()
        invariant
            i <= definition.conditions@.len(),
            conditions == text::views(definition.conditions@),
            text::views(wanted@) == first + conditions_needs(conditions, i as nat),
        decreases definition.conditions@.len() - i,
    {
        let ghost before = text::views(wanted@);
        assert(conditions[i as int] == definition.conditions@[i as int]@);
        match &definition.conditions[i] {
            AutomationCondition::ApplicationRunning { .. } => {
                push_need(&mut wanted, "application.started".to_owned(), None);
            },
            AutomationCondition::Presence { state } => {
                push_need(&mut wanted, text::joined_pair("presence.", state.token()), None);
            },
            _ => {},
        }
        assert(text::views(wanted@) =~= before + condition_needs(conditions[i as int]));
        assert(text::views(wanted@) =~= first + conditions_needs(conditions, (i + 1) as nat));
        i = i + 1;
    }
    let ghost second = text::views(wanted@);
    let mut j: usize = 0;
    assert(second + steps_needs(steps, 0) =~= second);
    while j < definition.steps.len()
        invariant
            j <= definition.steps@.len(),
            steps == text::views(definition.steps@),
            text::views(wanted@) == second + steps_needs(steps, j as nat),
        decreases definition.steps@.len() - j,
    {
        let ghost before = text::views(wanted@);
        assert(steps[j as int] == definition.steps@[j as int]@);
        match &definition.steps[j] {
            AutomationStep::Shell { shell, .. } => {
                push_need(&mut wanted, text::joined_pair("shell.", shell_text(*shell)), Some(j));
            },
            AutomationStep::Notification { send_to_connected_devices, .. } => {
                if *send_to_connected_devices {
                    push_need(&mut wanted, "notification.mobile".to_owned(), Some(j));
                }
            },
            _ => {},
        }
        assert(text::views(wanted@) =~= before + step_needs(steps[j as int], j));
        assert(text::views(wanted@) =~= second + steps_needs(steps, (j + 1) as nat));
        j = j + 1;
    }
    assert(text::views(wanted@) =~= needs(definition@));
    wanted
}

/// What a quick action needs of the system.
fn collect_action_needs(action: &ActionSnapshot, index: usize) -> (r: Vec<Need>)
    ensures
        text::views(r@) == action_needs(action@, index),
{
    let ghost all = action@.requirements.map_values(
        |id: Seq<char>| NeedModel { id, step_index: Some(index) },
    );
    let mut wanted: Vec<Need> = Vec::new();
    let mut i: usize = 0;
    while i < action.requirements.len()
        invariant
            i <= action.requirements@.len(),
            all == action@.requirements.map_values(
                |id: Seq<char>| NeedModel { id, step_index: Some(index) },
            ),
            text::views(wanted@) == all.take(i as int),
        decreases action.requirements@.len() - i,
    {
        push_need(&mut wanted, action.requirements[i].clone(), Some(index));
        assert(all.take(i + 1) =~= all.take(i as int).push(all[i as int]));
        i = i + 1;
    }
    assert(all.take(i as int) =~= all);
    if action.requires_confirmation {
        push_need(&mut wanted, "session.confirm".to_owned(), Some(index));
    }
    assert(text::views(wanted@) =~= action_needs(action@, index));
    wanted
}

fn push_issue(issues: &mut Vec<AutomationIssue>, issue: AutomationIssue)
    ensures
        text::views(final(issues)@) == text::views(old(issues)@).push(issue@),
{
    let ghost before = text::views(issues@);
    let ghost model = issue@;
    issues.push(issue);
    assert(text::views(issues@) =~= before.push(model));
}

/// Adds the issues of the quick action of one step.
fn check_action(
    issues: &mut Vec<AutomationIssue>,
    reply: &Option<Result<ActionSnapshot, String>>,
    index: usize,
    trigger: &AutomationTrigger,
    capabilities: &[Capability],
)
    ensures
        text::views(final(issues)@) == text::views(old(issues)@) + action_issues(
            match *reply {
                Some(snapshot) => Some(answer(snapshot)),
                None => None,
            },
            index,
            trigger@,
            text::views(capabilities@),
        ),
{
    let ghost before = text::views(issues@);
    match reply {
        None => {
            assert(before + Seq::<IssueModel>::empty() =~= before);
        },
        Some(Err(message)) => {
            let issue = AutomationIssue {
                code: "action.missing".to_owned(),
                message: message.clone(),
                remedy: "actions".to_owned(),
                step_index: Some(index),
            };
            let ghost model = issue@;
            push_issue(issues, issue);
            assert(text::views(issues@) =~= before + seq![model]);
        },
        Some(Ok(action)) => {
            let locked = match trigger {
                AutomationTrigger::System { event } => *event == SessionEvent::Locked || *event
                    == SessionEvent::Sleeping,
                _ => false,
            };
            if action.requires_unlocked_session && locked {
                let mut message = "cannot run \"".to_owned();
                message.append(action.name.as_str());
                message.append("\" while the system is locked or asleep");
                let issue = AutomationIssue {
                    code: "session.locked".to_owned(),
                    message,
                    remedy: "changeTrigger".to_owned(),
                    step_index: Some(index),
                };
                let ghost model = issue@;
                push_issue(issues, issue);
                assert(text::views(issues@) =~= before + seq![model]);
            } else {
                let wanted = collect_action_needs(action, index);
                require_all(
                    issues,
                    &wanted,
                    "this action is not supported on the current system",
                    capabilities,
                );
            }
        },
    }
}

/// The applications that a definition names, in the order in which they are looked for.
pub fn applications(definition: &AutomationDefinition) -> (r: Vec<&ApplicationIdentity>)
    ensures
        text::views(r@) == applications_of(definition@),
{
    let ghost conditions = text::views(definition.conditions@);
    let mut found: Vec<&ApplicationIdentity> = Vec::new();
    if let AutomationTrigger::Application { apps, .. } = &definition.trigger {
        let ghost models = text::views(apps@);
        let mut i: usize = 0;
        while i < apps.len()
            invariant
                i <= apps@.len(),
                models == text::views(apps@),
                text::views(found@) == models.take(i as int),
            decreases apps@.len() - i,
        {
            let ghost before = text::views(found@);
            found.push(&apps[i]);
            assert(text::views(found@) =~= before.push(models[i as int]));
            assert(models.take(i + 1) =~= models.take(i as int).push(models[i as int]));
            i = i + 1;
        }
        assert(models.take(i as int) =~= models);
    }
    let ghost first = text::views(found@);
    assert(first =~= match definition@.trigger {
        TriggerModel::Application { apps, .. } => apps,
        _ => Seq::empty(),
    });
    let mut j: usize = 0;
    assert(first + condition_applications(conditions, 0) =~= first);
    while j < definition.conditions.len()
        invariant
            j <= definition.conditions@.len(),
            conditions == text::views(definition.conditions@),
            text::views(found@) == first + condition_applications(conditions, j as nat),
        decreases definition.conditions@.len() - j,
    {
        let ghost before = text::views(found@);
        assert(conditions[j as int] == definition.conditions@[j as int]@);
        if let AutomationCondition::ApplicationRunning { app, .. } = &definition.conditions[j] {
            found.push(app);
            assert(text::views(found@) =~= before.push(app@));
        }
        assert(text::views(found@) =~= first + condition_applications(conditions, (j + 1) as nat));
        j = j + 1;
    }
    found
}

/// Everything that keeps a definition from being enabled. `encoded` is the size of the stored
/// definition, `snapshots` answers for the quick action of each step, and `available` for each of
/// the definition's [`applications`].
pub fn preflight(
    definition: &AutomationDefinition,
    encoded: Result<usize, AutomationError>,
    capabilities: &[Capability],
    snapshots: &[Option<Result<ActionSnapshot, String>>],
    available: &[Result<(), String>],
) -> (r: Vec<AutomationIssue>)
    requires
        snapshots@.len() == definition@.steps.len(),
        forall|i: int|
            0 <= i < snapshots@.len() ==> ((#[trigger] snapshots@[i]) is Some
                <==> definition@.steps[i] is QuickAction),
        available@.len() == applications_of(definition@).len(),
    ensures
        text::views(r@) == issues(
            definition@,
            validation::encoded_size(encoded),
            text::views(capabilities@),
            answers(snapshots@),
            availability(available@),
        ),
{
    let ghost caps = text::views(capabilities@);
    let ghost replies = answers(snapshots@);
    let ghost missing = availability(available@);
    let ghost trigger = definition@.trigger;
    let mut found: Vec<AutomationIssue> = Vec::new();
    let ghost checked = validation::validation(definition@, validation::encoded_size(encoded));
    if let Err(error) = validation::validate(definition, encoded) {
        push_issue(
            &mut found,
            AutomationIssue {
                code: "configuration".to_owned(),
                message: error.message(),
                remedy: "edit".to_owned(),
                step_index: None,
            },
        );
    }
    assert(text::views(found@) =~= configuration_issues(checked));
    let wanted = collect_needs(definition);
    require_all(
        &mut found,
        &wanted,
        "this feature is not supported on the current system",
        capabilities,
    );
    let ghost general = text::views(found@);
    let mut i: usize = 0;
    assert(general + actions_issues(replies, 0, trigger, caps) =~= general);
    while i < snapshots.len()
        invariant
            i <= snapshots@.len(),
            caps == text::views(capabilities@),
            replies == answers(snapshots@),
            trigger == definition.trigger@,
            text::views(found@) == general + actions_issues(replies, i as nat, trigger, caps),
        decreases snapshots@.len() - i,
    {
        check_action(&mut found, &snapshots[i], i, &definition.trigger, capabilities);
        assert(text::views(found@) =~= general + actions_issues(
            replies,
            (i + 1) as nat,
            trigger,
            caps,
        ));
        i = i + 1;
    }
    let ghost with_actions = text::views(found@);
    let mut j: usize = 0;
    assert(with_actions + application_issues(missing, 0) =~= with_actions);
    while j < available.len()
        invariant
            j <= available@.len(),
            missing == availability(available@),
            text::views(found@) == with_actions + application_issues(missing, j as nat),
        decreases available@.len() - j,
    {
        if let Err(message) = &available[j] {
            push_issue(
                &mut found,
                AutomationIssue {
                    code: "application.missing".to_owned(),
                    message: message.clone(),
                    remedy: "edit".to_owned(),
                    step_index: None,
                },
            );
        }
        assert(text::views(found@) =~= with_actions + application_issues(missing, (j + 1) as nat));
        j = j + 1;
    }
    found
}

proof fn lemma_unmet_empty(
    wanted: Seq<NeedModel>,
    fallback: Seq<char>,
    capabilities: Seq<CapabilityModel>,
)
    ensures
        unmet(wanted, fallback, capabilities).len() == 0 <==> forall|i: int|
            0 <= i < wanted.len() ==> usable(capabilities, (#[trigger] wanted[i]).id),
    decreases wanted.len(),
{
    if wanted.len() > 0 {
        let front = wanted.drop_last();
        lemma_unmet_empty(front, fallback, capabilities);
        if unmet(wanted, fallback, capabilities).len() == 0 {
            assert forall|i: int| 0 <= i < wanted.len() implies usable(
                capabilities,
                (#[trigger] wanted[i]).id,
            ) by {
                if i < front.len() {
                    assert(front[i] == wanted[i]);
                }
            }
        } else if usable(capabilities, wanted.last().id) {
            let i = choose|i: int|
                0 <= i < front.len() && !usable(capabilities, (#[trigger] front[i]).id);
            assert(wanted[i] == front[i]);
        }
    }
}

proof fn lemma_actions_empty(
    replies: Seq<Option<Result<SnapshotModel, Seq<char>>>>,
    n: nat,
    trigger: TriggerModel,
    capabilities: Seq<CapabilityModel>,
)
    requires
        n <= replies.len(),
    ensures
        actions_issues(replies, n, trigger, capabilities).len() == 0 <==> forall|i: int|
            0 <= i < n ==> action_issues(
                #[trigger] replies[i],
                i as usize,
                trigger,
                capabilities,
            ).len() == 0,
    decreases n,
{
    if n > 0 {
        lemma_actions_empty(replies, (n - 1) as nat, trigger, capabilities);
        let last = action_issues(replies[n - 1], (n - 1) as usize, trigger, capabilities);
        if actions_issues(replies, n, trigger, capabilities).len() == 0 {
            assert(last.len() == 0);
        } else if last.len() == 0 {
            let i = choose|i: int|
                0 <= i < n - 1 && action_issues(
                    #[trigger] replies[i],
                    i as usize,
                    trigger,
                    capabilities,
                ).len() != 0;
            assert(action_issues(replies[i], i as usize, trigger, capabilities).len() != 0);
        }
    }
}

proof fn lemma_applications_empty(missing: Seq<Option<Seq<char>>>, n: nat)
    requires
        n <= missing.len(),
    ensures
        application_issues(missing, n).len() == 0 <==> forall|i: int|
            0 <= i < n ==> (#[trigger] missing[i]) is None,
    decreases n,
{
    if n > 0 {
        lemma_applications_empty(missing, (n - 1) as nat);
    }
}

/// A definition has no issue exactly where it is valid, everything that it needs can be used, its
/// quick actions have no issue, and none of its applications is missing.
pub proof fn law_no_issue(
    definition: DefinitionModel,
    encoded: Result<nat, ErrorModel>,
    capabilities: Seq<CapabilityModel>,
    replies: Seq<Option<Result<SnapshotModel, Seq<char>>>>,
    missing: Seq<Option<Seq<char>>>,
)
    ensures
        issues(definition, encoded, capabilities, replies, missing).len() == 0 <==> {
            &&& validation::validation(definition, encoded) is Ok
            &&& forall|i: int|
                0 <= i < needs(definition).len() ==> usable(
                    capabilities,
                    (#[trigger] needs(definition)[i]).id,
                )
            &&& forall|i: int|
                0 <= i < replies.len() ==> action_issues(
                    #[trigger] replies[i],
                    i as usize,
                    definition.trigger,
                    capabilities,
                ).len() == 0
            &&& forall|i: int| 0 <= i < missing.len() ==> (#[trigger] missing[i]) is None
        },
{
    lemma_unmet_empty(needs(definition), feature_fallback(), capabilities);
    lemma_actions_empty(replies, replies.len(), definition.trigger, capabilities);
    lemma_applications_empty(missing, missing.len());
}

/// A dangerous quick action can be enabled only where the desktop can ask for confirmation.
pub proof fn law_dangerous_actions_need_confirmation(
    definition: DefinitionModel,
    encoded: Result<nat, ErrorModel>,
    capabilities: Seq<CapabilityModel>,
    replies: Seq<Option<Result<SnapshotModel, Seq<char>>>>,
    missing: Seq<Option<Seq<char>>>,
    action: SnapshotModel,
    i: int,
)
    requires
        0 <= i < replies.len(),
        replies[i] == Some(Ok::<SnapshotModel, Seq<char>>(action)),
        action.requires_confirmation,
        issues(definition, encoded, capabilities, replies, missing).len() == 0,
    ensures
        usable(capabilities, "session.confirm"@),
{
    law_no_issue(definition, encoded, capabilities, replies, missing);
    let wanted = action_needs(action, i as usize);
    assert(action_issues(replies[i], i as usize, definition.trigger, capabilities).len() == 0);
    lemma_unmet_empty(wanted, action_fallback(), capabilities);
    assert(wanted[wanted.len() - 1].id == "session.confirm"@);
}

/// An action that needs an unlocked session cannot be enabled for the moment at which the session
/// is locked, and neither can an action that is gone.
pub proof fn law_unusable_actions_are_issues(
    definition: DefinitionModel,
    encoded: Result<nat, ErrorModel>,
    capabilities: Seq<CapabilityModel>,
    replies: Seq<Option<Result<SnapshotModel, Seq<char>>>>,
    missing: Seq<Option<Seq<char>>>,
    i: int,
)
    requires
        0 <= i < replies.len(),
        replies[i] is Some,
        replies[i]->0 is Err || replies[i]->0->Ok_0.requires_unlocked_session && fires_while_locked(
            definition.trigger,
        ),
    ensures
        issues(definition, encoded, capabilities, replies, missing).len() > 0,
{
    law_no_issue(definition, encoded, capabilities, replies, missing);
    assert(action_issues(replies[i], i as usize, definition.trigger, capabilities).len() == 1);
}

proof fn lemma_conditions_needs(conditions: Seq<ConditionModel>, n: nat, need: NeedModel)
    requires
        n <= conditions.len(),
    ensures
        conditions_needs(conditions, n).contains(need) <==> exists|i: int|
            0 <= i < n && condition_needs(#[trigger] conditions[i]).contains(need),
    decreases n,
{
    if n > 0 {
        lemma_conditions_needs(conditions, (n - 1) as nat, need);
        let front = conditions_needs(conditions, (n - 1) as nat);
        let back = condition_needs(conditions[n - 1]);
        lemma_in_sum(front, back, need);
        if exists|i: int| 0 <= i < n - 1 && condition_needs(#[trigger] conditions[i]).contains(need) {
            let i = choose|i: int|
                0 <= i < n - 1 && condition_needs(#[trigger] conditions[i]).contains(need);
            assert(condition_needs(conditions[i]).contains(need));
        }
    }
}

proof fn lemma_steps_needs(steps: Seq<StepModel>, n: nat, need: NeedModel)
    requires
        n <= steps.len(),
    ensures
        steps_needs(steps, n).contains(need) <==> exists|i: int|
            0 <= i < n && step_needs(#[trigger] steps[i], i as usize).contains(need),
    decreases n,
{
    if n > 0 {
        lemma_steps_needs(steps, (n - 1) as nat, need);
        let front = steps_needs(steps, (n - 1) as nat);
        let back = step_needs(steps[n - 1], (n - 1) as usize);
        lemma_in_sum(front, back, need);
        if exists|i: int| 0 <= i < n - 1 && step_needs(#[trigger] steps[i], i as usize).contains(need) {
            let i = choose|i: int|
                0 <= i < n - 1 && step_needs(#[trigger] steps[i], i as usize).contains(need);
            assert(step_needs(steps[i], i as usize).contains(need));
        }
    }
}

proof fn lemma_in_sum<T>(front: Seq<T>, back: Seq<T>, item: T)
    ensures
        (front + back).contains(item) <==> front.contains(item) || back.contains(item),
{
    let all = front + back;
    if front.contains(item) {
        let k = choose|k: int| 0 <= k < front.len() && front[k] == item;
        assert(all[k] == item);
    }
    if back.contains(item) {
        let k = choose|k: int| 0 <= k < back.len() && back[k] == item;
        assert(all[front.len() + k] == item);
    }
    if all.contains(item) {
        let k = choose|k: int| 0 <= k < all.len() && all[k] == item;
        if k < front.len() {
            assert(front[k] == item);
        } else {
            assert(back[k - front.len()] == item);
        }
    }
}

/// What each shell is called as a capability.
pub proof fn law_shells_as_capabilities(shell: ShellKind)
    ensures
        shell == ShellKind::System ==> "shell."@ + shell_word(shell) == "shell.system"@,
        shell == ShellKind::Sh ==> "shell."@ + shell_word(shell) == "shell.sh"@,
        shell == ShellKind::Bash ==> "shell."@ + shell_word(shell) == "shell.bash"@,
        shell == ShellKind::Zsh ==> "shell."@ + shell_word(shell) == "shell.zsh"@,
        shell == ShellKind::Powershell ==> "shell."@ + shell_word(shell) == "shell.powershell"@,
{
    reveal_strlit("shell.");
    reveal_strlit("system");
    reveal_strlit("sh");
    reveal_strlit("bash");
    reveal_strlit("zsh");
    reveal_strlit("powershell");
    reveal_strlit("shell.system");
    reveal_strlit("shell.sh");
    reveal_strlit("shell.bash");
    reveal_strlit("shell.zsh");
    reveal_strlit("shell.powershell");
    match shell {
        ShellKind::System => {
            assert("shell."@ + shell_word(shell) =~= "shell.system"@);
        },
        ShellKind::Sh => {
            assert("shell."@ + shell_word(shell) =~= "shell.sh"@);
        },
        ShellKind::Bash => {
            assert("shell."@ + shell_word(shell) =~= "shell.bash"@);
        },
        ShellKind::Zsh => {
            assert("shell."@ + shell_word(shell) =~= "shell.zsh"@);
        },
        ShellKind::Powershell => {
            assert("shell."@ + shell_word(shell) =~= "shell.powershell"@);
        },
    }
}

/// What a definition needs of the system, and nothing else: what its trigger asks for; asking, where
/// it asks before a run; knowing the running applications, or who is present, where a condition speaks
/// of them; the shell of each script; and other devices for each notification that goes there. What a
/// step needs is marked with the step.
pub proof fn law_needs_of_definitions(definition: DefinitionModel, need: NeedModel)
    requires
        definition.steps.len() <= usize::MAX,
    ensures
        needs(definition).contains(need) <==> {
            ||| need.step_index is None && need.id == definition.trigger.capability_text()
            ||| need.step_index is None && definition.run_mode == RunMode::AskBeforeRun && need.id
                == "session.confirm"@
            ||| need.step_index is None && exists|i: int|
                0 <= i < definition.conditions.len() && match #[trigger] definition.conditions[i] {
                    ConditionModel::ApplicationRunning { .. } => need.id == "application.started"@,
                    ConditionModel::Presence { state } => need.id == (TriggerModel::Presence {
                        state,
                    }).capability_text(),
                    ConditionModel::DeviceConnected { .. } => false,
                    ConditionModel::TimeRange { .. } => false,
                }
            ||| need.step_index is Some && need.step_index->0 < definition.steps.len() && match definition.steps[need.step_index->0 as int] {
                StepModel::Shell { shell, .. } => need.id == "shell."@ + shell_word(shell),
                StepModel::Notification { send_to_connected_devices, .. } =>
                    send_to_connected_devices && need.id == "notification.mobile"@,
                StepModel::QuickAction { .. } => false,
                StepModel::Delay { .. } => false,
            }
        },
{
    let conditions = definition.conditions;
    let steps = definition.steps;
    let first = seq![NeedModel { id: definition.trigger.capability_text(), step_index: None }];
    let asking = if definition.run_mode == RunMode::AskBeforeRun {
        seq![NeedModel { id: "session.confirm"@, step_index: None }]
    } else {
        Seq::empty()
    };
    let third = conditions_needs(conditions, conditions.len());
    let fourth = steps_needs(steps, steps.len());
    lemma_in_sum(first + asking + third, fourth, need);
    lemma_in_sum(first + asking, third, need);
    lemma_in_sum(first, asking, need);
    lemma_conditions_needs(conditions, conditions.len(), need);
    lemma_steps_needs(steps, steps.len(), need);
    assert(first.contains(need) <==> need == first[0]);
    if asking.len() > 0 {
        assert(asking.contains(need) <==> need == asking[0]);
    }
    assert forall|i: int| 0 <= i < conditions.len() implies (condition_needs(
        #[trigger] conditions[i],
    ).contains(need) <==> need.step_index is None && match conditions[i] {
        ConditionModel::ApplicationRunning { .. } => need.id == "application.started"@,
        ConditionModel::Presence { state } => need.id == (TriggerModel::Presence {
            state,
        }).capability_text(),
        ConditionModel::DeviceConnected { .. } => false,
        ConditionModel::TimeRange { .. } => false,
    }) by {
        let wanted = condition_needs(conditions[i]);
        if wanted.len() > 0 {
            assert(wanted.contains(need) <==> need == wanted[0]);
        }
    }
    assert forall|i: int| 0 <= i < steps.len() implies (step_needs(
        #[trigger] steps[i],
        i as usize,
    ).contains(need) <==> need.step_index == Some(i as usize) && match steps[i] {
        StepModel::Shell { shell, .. } => need.id == "shell."@ + shell_word(shell),
        StepModel::Notification { send_to_connected_devices, .. } => send_to_connected_devices
            && need.id == "notification.mobile"@,
        StepModel::QuickAction { .. } => false,
        StepModel::Delay { .. } => false,
    }) by {
        let wanted = step_needs(steps[i], i as usize);
        if wanted.len() > 0 {
            assert(wanted.contains(need) <==> need == wanted[0]);
        }
    }
    if need.step_index is Some && need.step_index->0 < steps.len() {
        assert(steps[need.step_index->0 as int] == steps[need.step_index->0 as int]);
    }
}

/// What a quick action needs of the system, and nothing else: each of its requirements and, where it
/// is dangerous, asking; all of it marked with the step.
pub proof fn law_needs_of_actions(action: SnapshotModel, index: usize, need: NeedModel)
    ensures
        action_needs(action, index).contains(need) <==> need.step_index == Some(index) && (
        action.requirements.contains(need.id) || action.requires_confirmation && need.id
            == "session.confirm"@),
{
    let wanted = action.requirements.map_values(
        |id: Seq<char>| NeedModel { id, step_index: Some(index) },
    );
    let asking = if action.requires_confirmation {
        seq![NeedModel { id: "session.confirm"@, step_index: Some(index) }]
    } else {
        Seq::empty()
    };
    lemma_in_sum(wanted, asking, need);
    if asking.len() > 0 {
        assert(asking.contains(need) <==> need == asking[0]);
    }
    if wanted.contains(need) {
        let k = choose|k: int| 0 <= k < wanted.len() && wanted[k] == need;
        assert(action.requirements[k] == need.id);
    }
    if need.step_index == Some(index) && action.requirements.contains(need.id) {
        let k = choose|k: int| 0 <= k < action.requirements.len() && action.requirements[k] == need.id;
        assert(wanted[k] == need);
    }
}

/// A need is an issue exactly where no capability of that name is available: it carries the name and
/// the step, and says why and what to do in the words of the first capability of that name, or else
/// in the library's own. Needs that are met are no issue, and the issues come in the order of the
/// needs.
pub proof fn law_unmet_needs_are_issues(
    wanted: Seq<NeedModel>,
    fallback: Seq<char>,
    capabilities: Seq<CapabilityModel>,
    need: NeedModel,
)
    ensures
        ({
            let before = unmet(wanted, fallback, capabilities);
            let after = unmet(wanted.push(need), fallback, capabilities);
            let met = exists|i: int|
                0 <= i < capabilities.len() && (#[trigger] capabilities[i]).id == need.id
                    && capabilities[i].available;
            &&& met ==> after == before
            &&& !met ==> {
                &&& after.len() == before.len() + 1
                &&& after.drop_last() == before
                &&& after.last().code == need.id
                &&& after.last().step_index == need.step_index
                &&& forall|k: int|
                    0 <= k < capabilities.len() && (#[trigger] capabilities[k]).id == need.id && (
                    forall|i: int|
                        0 <= i < k ==> (#[trigger] capabilities[i]).id != need.id) ==> {
                        &&& capabilities[k].reason is Some ==> after.last().message
                            == capabilities[k].reason->0
                        &&& capabilities[k].reason is None ==> after.last().message == fallback
                        &&& capabilities[k].remedy is Some ==> after.last().remedy
                            == capabilities[k].remedy->0
                        &&& capabilities[k].remedy is None ==> after.last().remedy == "edit"@
                    }
                &&& (forall|i: int|
                    0 <= i < capabilities.len() ==> (#[trigger] capabilities[i]).id != need.id)
                    ==> after.last().message == fallback && after.last().remedy == "edit"@
            }
        }),
        unmet(Seq::empty(), fallback, capabilities).len() == 0,
{
    let all = wanted.push(need);
    assert(all.drop_last() =~= wanted);
    assert(all.last() == need);
    let before = unmet(wanted, fallback, capabilities);
    let after = unmet(all, fallback, capabilities);
    if !usable(capabilities, need.id) {
        assert(after.drop_last() =~= before);
    }
    assert forall|k: int|
        0 <= k < capabilities.len() && (#[trigger] capabilities[k]).id == need.id && (forall|i: int|
            0 <= i < k ==> (#[trigger] capabilities[i]).id != need.id) implies named(
        capabilities,
        need.id,
    ) == Some(capabilities[k]) by {
        lemma_named(capabilities, need.id, k);
    }
    if forall|i: int| 0 <= i < capabilities.len() ==> (#[trigger] capabilities[i]).id != need.id {
        lemma_unnamed(capabilities, need.id);
    }
}

proof fn lemma_named(capabilities: Seq<CapabilityModel>, id: Seq<char>, k: int)
    requires
        0 <= k < capabilities.len(),
        capabilities[k].id == id,
        forall|i: int| 0 <= i < k ==> (#[trigger] capabilities[i]).id != id,
    ensures
        named(capabilities, id) == Some(capabilities[k]),
    decreases k,
{
    if k > 0 {
        let rest = capabilities.drop_first();
        assert(capabilities[0].id != id);
        assert forall|i: int| 0 <= i < k - 1 implies (#[trigger] rest[i]).id != id by {
            assert(rest[i] == capabilities[i + 1]);
        }
        lemma_named(rest, id, k - 1);
    }
}

proof fn lemma_unnamed(capabilities: Seq<CapabilityModel>, id: Seq<char>)
    requires
        forall|i: int| 0 <= i < capabilities.len() ==> (#[trigger] capabilities[i]).id != id,
    ensures
        named(capabilities, id) is None,
    decreases capabilities.len(),
{
    if capabilities.len() > 0 {
        let rest = capabilities.drop_first();
        assert forall|i: int| 0 <= i < rest.len() implies (#[trigger] rest[i]).id != id by {
            assert(rest[i] == capabilities[i + 1]);
        }
        assert(capabilities[0].id != id);
        lemma_unnamed(rest, id);
    }
}

/// The issues of quick actions, step by step: one that is gone is an issue of its own; one that needs
/// an unlocked session is, alone, where the trigger fires as the system locks or goes to sleep; any
/// other has the issues of what it needs; and a step without a quick action has none.
pub proof fn law_issues_of_actions(
    replies: Seq<Option<Result<SnapshotModel, Seq<char>>>>,
    reply: Option<Result<SnapshotModel, Seq<char>>>,
    trigger: TriggerModel,
    capabilities: Seq<CapabilityModel>,
)
    requires
        replies.len() < usize::MAX,
    ensures
        ({
            let n = replies.len();
            let before = actions_issues(replies, n, trigger, capabilities);
            let after = actions_issues(replies.push(reply), n + 1, trigger, capabilities);
            let locking = trigger == (TriggerModel::System { event: SessionEvent::Locked })
                || trigger == (TriggerModel::System { event: SessionEvent::Sleeping });
            &&& reply is None ==> after == before
            &&& reply matches Some(Err(message)) ==> {
                &&& after == before.push(after.last())
                &&& after.last().code == "action.missing"@
                &&& after.last().message == message
                &&& after.last().remedy == "actions"@
                &&& after.last().step_index == Some(n as usize)
            }
            &&& reply matches Some(Ok(action)) ==> {
                &&& action.requires_unlocked_session && locking ==> {
                    &&& after == before.push(after.last())
                    &&& after.last().code == "session.locked"@
                    &&& after.last().message == "cannot run \""@ + action.name
                        + "\" while the system is locked or asleep"@
                    &&& after.last().remedy == "changeTrigger"@
                    &&& after.last().step_index == Some(n as usize)
                }
                &&& !(action.requires_unlocked_session && locking) ==> after == before + unmet(
                    action_needs(action, n as usize),
                    "this action is not supported on the current system"@,
                    capabilities,
                )
            }
        }),
        actions_issues(replies, 0, trigger, capabilities).len() == 0,
{
    let n = replies.len();
    let more = replies.push(reply);
    lemma_actions_of_the_first(replies, reply, n, trigger, capabilities);
    let before = actions_issues(replies, n, trigger, capabilities);
    let after = actions_issues(more, n + 1, trigger, capabilities);
    assert(more[n as int] == reply);
    let own = action_issues(reply, n as usize, trigger, capabilities);
    assert(after == before + own);
    if own.len() == 1 {
        assert(after =~= before.push(own[0]));
    }
    if own.len() == 0 {
        assert(after =~= before);
    }
}

proof fn lemma_actions_of_the_first(
    replies: Seq<Option<Result<SnapshotModel, Seq<char>>>>,
    reply: Option<Result<SnapshotModel, Seq<char>>>,
    n: nat,
    trigger: TriggerModel,
    capabilities: Seq<CapabilityModel>,
)
    requires
        n <= replies.len(),
    ensures
        actions_issues(replies.push(reply), n, trigger, capabilities) == actions_issues(
            replies,
            n,
            trigger,
            capabilities,
        ),
    decreases n,
{
    if n > 0 {
        lemma_actions_of_the_first(replies, reply, (n - 1) as nat, trigger, capabilities);
        assert(replies.push(reply)[n - 1] == replies[n - 1]);
    }
}

/// Each application that is missing is an issue with the system's message, and one that is there is
/// none.
pub proof fn law_issues_of_applications(missing: Seq<Option<Seq<char>>>, answer: Option<Seq<char>>)
    ensures
        ({
            let n = missing.len();
            let before = application_issues(missing, n);
            let after = application_issues(missing.push(answer), n + 1);
            &&& answer is None ==> after == before
            &&& answer matches Some(message) ==> {
                &&& after == before.push(after.last())
                &&& after.last().code == "application.missing"@
                &&& after.last().message == message
                &&& after.last().remedy == "edit"@
                &&& after.last().step_index is None
            }
        }),
        application_issues(missing, 0).len() == 0,
{
    lemma_applications_of_the_first(missing, answer, missing.len());
    assert(missing.push(answer)[missing.len() as int] == answer);
}

proof fn lemma_applications_of_the_first(
    missing: Seq<Option<Seq<char>>>,
    answer: Option<Seq<char>>,
    n: nat,
)
    requires
        n <= missing.len(),
    ensures
        application_issues(missing.push(answer), n) == application_issues(missing, n),
    decreases n,
{
    if n > 0 {
        lemma_applications_of_the_first(missing, answer, (n - 1) as nat);
        assert(missing.push(answer)[n - 1] == missing[n - 1]);
    }
}

/// A definition that is not valid has an issue in front of all others, which says what is wrong; then
/// come those of its needs, of its quick actions and of its applications.
pub proof fn law_issues_of_definitions(
    definition: DefinitionModel,
    encoded: Result<nat, ErrorModel>,
    capabilities: Seq<CapabilityModel>,
    replies: Seq<Option<Result<SnapshotModel, Seq<char>>>>,
    missing: Seq<Option<Seq<char>>>,
)
    ensures
        ({
            let all = issues(definition, encoded, capabilities, replies, missing);
            let rest = unmet(
                needs(definition),
                "this feature is not supported on the current system"@,
                capabilities,
            ) + actions_issues(replies, replies.len(), definition.trigger, capabilities)
                + application_issues(missing, missing.len());
            &&& validation::validation(definition, encoded) is Ok ==> all == rest
            &&& validation::validation(definition, encoded) matches Err(error) ==> {
                &&& all.len() == rest.len() + 1
                &&& all.drop_first() == rest
                &&& all[0].code == "configuration"@
                &&& all[0].message == error.message()
                &&& all[0].remedy == "edit"@
                &&& all[0].step_index is None
            }
        }),
{
    let all = issues(definition, encoded, capabilities, replies, missing);
    let rest = unmet(
        needs(definition),
        "this feature is not supported on the current system"@,
        capabilities,
    ) + actions_issues(replies, replies.len(), definition.trigger, capabilities)
        + application_issues(missing, missing.len());
    if validation::validation(definition, encoded) is Ok {
        assert(all =~= rest);
    } else {
        assert(all.drop_first() =~= rest);
    }
}

/// The applications that a definition names are those of its trigger, and behind them those of its
/// conditions, in their order.
pub proof fn law_named_applications(
    definition: DefinitionModel,
    condition: ConditionModel,
)
    ensures
        ({
            let more = DefinitionModel {
                conditions: definition.conditions.push(condition),
                ..definition
            };
            &&& definition.conditions.len() == 0 ==> {
                &&& definition.trigger matches TriggerModel::Application { apps, .. }
                    ==> applications_of(definition) == apps
                &&& !(definition.trigger is Application) ==> applications_of(definition).len() == 0
            }
            &&& condition matches ConditionModel::ApplicationRunning { app, .. }
                ==> applications_of(more) == applications_of(definition).push(app)
            &&& !(condition is ApplicationRunning) ==> applications_of(more) == applications_of(
                definition,
            )
        }),
{
    let conditions = definition.conditions;
    let more = conditions.push(condition);
    lemma_applications_of_conditions(conditions, condition, conditions.len());
    assert(more[conditions.len() as int] == condition);
    let changed = DefinitionModel { conditions: more, ..definition };
    if let ConditionModel::ApplicationRunning { app, .. } = condition {
        assert(applications_of(changed) =~= applications_of(definition).push(app));
    }
    if conditions.len() == 0 {
        if let TriggerModel::Application { apps, .. } = definition.trigger {
            assert(applications_of(definition) =~= apps);
        }
    }
}

proof fn lemma_applications_of_conditions(
    conditions: Seq<ConditionModel>,
    condition: ConditionModel,
    n: nat,
)
    requires
        n <= conditions.len(),
    ensures
        condition_applications(conditions.push(condition), n) == condition_applications(
            conditions,
            n,
        ),
    decreases n,
{
    if n > 0 {
        lemma_applications_of_conditions(conditions, condition, (n - 1) as nat);
        assert(conditions.push(condition)[n - 1] == conditions[n - 1]);
    }
}

/// The answers of the system are taken as they come: each snapshot or message at its step, and each
/// message of an application that is missing at its place.
pub proof fn law_answers_are_taken_as_they_come(
    snapshots: Seq<Option<Result<ActionSnapshot, String>>>,
    available: Seq<Result<(), String>>,
    i: int,
)
    ensures
        answers(snapshots).len() == snapshots.len(),
        availability(available).len() == available.len(),
        0 <= i < snapshots.len() ==> {
            &&& snapshots[i] is None ==> answers(snapshots)[i] is None
            &&& snapshots[i] matches Some(Ok(action)) ==> answers(snapshots)[i] == Some(
                Ok::<SnapshotModel, Seq<char>>(action@),
            )
            &&& snapshots[i] matches Some(Err(message)) ==> answers(snapshots)[i] == Some(
                Err::<SnapshotModel, Seq<char>>(message@),
            )
        },
        0 <= i < available.len() ==> {
            &&& available[i] is Ok ==> availability(available)[i] is None
            &&& available[i] matches Err(message) ==> availability(available)[i] == Some(message@)
        },
{
}

} // verus!
