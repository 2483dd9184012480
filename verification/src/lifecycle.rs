//! Lifecycle decisions: what installing, removing, updating or
//! running a named tool should do, given the registry. The command
//! runner executes the chosen commands outside this crate; these
//! functions only decide, and their contracts pin the decision to the
//! registry's contents.

use vstd::prelude::*;

use crate::model::Config;
use crate::model::clone_strings;
use crate::model::lookup_tool;

verus! {

/// What a lifecycle operation should do.
pub enum ToolAction {
    /// The tool is not in the registry.
    Missing,
    /// Nothing to do; the operation is already satisfied.
    Skip,
    /// Execute these commands in order.
    Execute(Vec<String>),
}

/// Installing: unknown tools are reported, installed tools are left
/// alone, and otherwise the install commands run.
pub fn plan_install(c: &Config, name: &str) -> (r: ToolAction)
    ensures
        match lookup_tool(c@.tools, name@) {
            None => r is Missing,
            Some(t) => if t.installed {
                r is Skip
            } else {
                (r matches ToolAction::Execute(cmds) && cmds.deep_view() == t.install_commands)
            },
        },
{
    match c.get_tool(name) {
        None => ToolAction::Missing,
        Some(t) => {
            if t.installed {
                ToolAction::Skip
            } else {
                ToolAction::Execute(clone_strings(&t.install_commands))
            }
        },
    }
}

/// Removing: unknown tools are reported, tools not installed are left
/// alone, and otherwise the remove commands run.
pub fn plan_removal(c: &Config, name: &str) -> (r: ToolAction)
    ensures
        match lookup_tool(c@.tools, name@) {
            None => r is Missing,
            Some(t) => if !t.installed {
                r is Skip
            } else {
                (r matches ToolAction::Execute(cmds) && cmds.deep_view() == t.remove_commands)
            },
        },
{
    match c.get_tool(name) {
        None => ToolAction::Missing,
        Some(t) => {
            if !t.installed {
                ToolAction::Skip
            } else {
                ToolAction::Execute(clone_strings(&t.remove_commands))
            }
        },
    }
}

/// Updating: unknown tools are reported, tools not installed are left
/// alone, and otherwise the update commands run. Updating never
/// mutates the registry.
pub fn plan_update(c: &Config, name: &str) -> (r: ToolAction)
    ensures
        match lookup_tool(c@.tools, name@) {
            None => r is Missing,
            Some(t) => if !t.installed {
                r is Skip
            } else {
                (r matches ToolAction::Execute(cmds) && cmds.deep_view() == t.update_commands)
            },
        },
{
    match c.get_tool(name) {
        None => ToolAction::Missing,
        Some(t) => {
            if !t.installed {
                ToolAction::Skip
            } else {
                ToolAction::Execute(clone_strings(&t.update_commands))
            }
        },
    }
}

/// Running: unknown tools are reported, tools without run commands
/// are left alone, and otherwise the run commands run.
pub fn plan_run(c: &Config, name: &str) -> (r: ToolAction)
    ensures
        match lookup_tool(c@.tools, name@) {
            None => r is Missing,
            Some(t) => if t.run_commands.len() == 0 {
                r is Skip
            } else {
                (r matches ToolAction::Execute(cmds) && cmds.deep_view() == t.run_commands)
            },
        },
{
    match c.get_tool(name) {
        None => ToolAction::Missing,
        Some(t) => {
            if t.run_commands.len() == 0 {
                ToolAction::Skip
            } else {
                ToolAction::Execute(clone_strings(&t.run_commands))
            }
        },
    }
}

} // verus!
