//! Local-first, linear desktop automations: when, only if, do.
//!
//! The library holds the rules: which definitions are valid, which events run them, what an
//! execution does next, what is stored and for how long. It opens no database, starts no process
//! and asks no system; what it needs to know of them it is told.

pub mod admission;
pub mod conditions;
pub mod enqueue;
pub mod error;
pub mod execution;
pub mod guarantees;
pub mod history;
pub mod identity;
pub mod lifecycle;
pub mod model;
pub mod preflight;
pub mod records;
pub mod registry;
pub mod saving;
pub mod schedule;
pub mod shell;
pub mod summary;
pub mod template;
pub mod text;
pub mod text_map;
pub mod ticks;
pub mod time;
pub mod trigger;
pub mod validation;

pub use conditions::condition_failure;
pub use enqueue::{Enqueue, Request};
pub use error::AutomationError;
pub use execution::{Answer, Directive, Execution, Task};
pub use model::{
    ActionSnapshot, ActivityStatus, ApplicationEvent, ApplicationIdentity, AutomationActivity,
    AutomationCondition, AutomationDefinition, AutomationEvent, AutomationIssue, AutomationStep,
    AutomationTrigger, Capability, EnvironmentState, PresenceEvent, RunMode, SessionEvent,
    ShellKind, StepResult, StepRun,
};
pub use preflight::preflight;
pub use schedule::next_schedule;
pub use template::render_text;
pub use text_map::TextMap;
pub use time::Timestamp;
pub use trigger::available_variables;
pub use validation::validate;
