//! Reminders that are added to an objective when the mode of work changes.

use vstd::prelude::*;

verus! {

/// Holder of the reminders.
#[derive(Debug, Clone, Copy)]
pub struct SessionPrompts;

impl SessionPrompts {
    /// The reminder for an agent that plans and must not change anything.
    pub open spec fn plan_text() -> Seq<char> {
        "<system-reminder>\nPlan mode is active. The user indicated that they do not want you to execute yet -- you MUST NOT make any edits, run any non-readonly tools (including changing configs or making commits), or otherwise make any changes to the system. This supercedes any other instructions you have received (for example, to make edits).\n</system-reminder>\n"@
    }

    /// The reminder for an agent that moves from planning to building.
    pub open spec fn build_switch_text() -> Seq<char> {
        "<system-reminder>\nYour operational mode has changed from plan to build.\nYou are no longer in read-only mode.\nYou are permitted to make file changes, run shell commands, and utilize your arsenal of tools as needed.\n</system-reminder>\n"@
    }

    /// The reminder for an agent that plans.
    pub fn plan_reminder() -> (r: &'static str)
        ensures
            r@ == Self::plan_text(),
    {
        "<system-reminder>\nPlan mode is active. The user indicated that they do not want you to execute yet -- you MUST NOT make any edits, run any non-readonly tools (including changing configs or making commits), or otherwise make any changes to the system. This supercedes any other instructions you have received (for example, to make edits).\n</system-reminder>\n"
    }

    /// The reminder for an agent that moves from planning to building.
    pub fn build_switch() -> (r: &'static str)
        ensures
            r@ == Self::build_switch_text(),
    {
        "<system-reminder>\nYour operational mode has changed from plan to build.\nYou are no longer in read-only mode.\nYou are permitted to make file changes, run shell commands, and utilize your arsenal of tools as needed.\n</system-reminder>\n"
    }
}

} // verus!
