//! A custom command from the DEPS file.
use vstd::prelude::*;
use crate::config::ParsedActionItem;
use crate::text::{contains, contains_spec, replace_all, replace_spec, to_owned};

verus! {

/// Runs one action.
pub struct ActionTask {
    pub item: ParsedActionItem,
}

/// The command actually run: every `depsync` in it becomes the path of the
/// running executable (`depctl` when that path is unknown), so that DEPS
/// files written for depsync keep working.
pub open spec fn action_command_spec(command: Seq<char>, exe_path: Option<Seq<char>>) -> Seq<char> {
    if contains_spec(command, "depsync"@) {
        replace_spec(
            command,
            "depsync"@,
            match exe_path {
                Some(p) => p,
                None => "depctl"@,
            },
        )
    } else {
        command
    }
}

impl ActionTask {
    /// A task running `item`.
    pub fn new(item: ParsedActionItem) -> (r: ActionTask)
        ensures
            r.item == item,
    {
        ActionTask { item }
    }

    /// The command to run, given the path of the running executable (`None`
    /// when it cannot be determined).
    pub fn resolved_command(&self, exe_path: Option<String>) -> (r: String)
        ensures
            r@ == action_command_spec(self.item.command@, crate::path::opt_view(exe_path)),
    {
        if contains(self.item.command.as_str(), "depsync") {
            let exe = match exe_path {
                Some(p) => p,
                None => to_owned("depctl"),
            };
            proof {
                reveal_strlit("depsync");
            }
            replace_all(self.item.command.as_str(), "depsync", exe.as_str())
        } else {
            self.item.command.clone()
        }
    }
}

} // verus!
