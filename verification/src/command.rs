//! The commands that a chat may send.

use crate::text::same_text;
use vstd::prelude::*;

verus! {

/// What a chat can ask for.
#[derive(Clone, Copy, Debug, PartialEq, Eq, Structural)]
pub enum Command {
    /// The balances as they are now, sent to the chat that asked.
    DianFei,
}

/// The command that goes by `name`, if one does. Names are told apart
/// letter by letter, capitals included.
pub open spec fn command_of(name: Seq<char>) -> Option<Command> {
    if name == "dianfei"@ {
        Some(Command::DianFei)
    } else {
        None
    }
}

impl Command {
    /// Recognises a command by its name. Any other name is no command and
    /// is to be passed over.
    pub fn recognize(name: &str) -> (command: Option<Command>)
        ensures
            command == command_of(name@),
    {
        if same_text(name, "dianfei") {
            Some(Command::DianFei)
        } else {
            None
        }
    }

    /// The name by which the command is called.
    pub fn name(&self) -> (name: &'static str)
        ensures
            command_of(name@) == Some(*self),
    {
        match self {
            Command::DianFei => "dianfei",
        }
    }

    /// What the command does, in a few words for the chat's menu.
    pub fn description(&self) -> (text: &'static str)
        ensures
            text@ == "Get Electricity."@,
    {
        match self {
            Command::DianFei => "Get Electricity.",
        }
    }
}

} // verus!
