//! The single running daemon, and what other invocations ask of it.
use crate::text::{str_eq, trim, trim_str};
use vstd::prelude::*;

verus! {

/// A request written to the daemon's stop socket.
#[derive(Debug, Clone, Copy, PartialEq, Eq, Structural)]
pub enum InstanceCommand {
    Stop,
    Restart,
}

/// The command a stop-socket message names, ignoring surrounding white
/// space; anything else is no command.
pub open spec fn instance_command_for(buf: Seq<char>) -> Option<InstanceCommand> {
    if trim(buf) == "stop"@ {
        Some(InstanceCommand::Stop)
    } else if trim(buf) == "restart"@ {
        Some(InstanceCommand::Restart)
    } else {
        None
    }
}

pub fn parse_instance_command(buf: &str) -> (r: Option<InstanceCommand>)
    ensures
        r == instance_command_for(buf@),
{
    let t = trim_str(buf);
    if str_eq(t.as_str(), "stop") {
        Some(InstanceCommand::Stop)
    } else if str_eq(t.as_str(), "restart") {
        Some(InstanceCommand::Restart)
    } else {
        None
    }
}

impl InstanceCommand {
    /// The message that asks for this command.
    pub fn message(self) -> (r: &'static str)
        ensures
            r@ == match self {
                InstanceCommand::Stop => "stop\n"@,
                InstanceCommand::Restart => "restart\n"@,
            },
    {
        match self {
            InstanceCommand::Stop => "stop\n",
            InstanceCommand::Restart => "restart\n",
        }
    }
}

/// Every command's message reads back as that command.
pub proof fn law_command_messages_parse_back(c: InstanceCommand)
    ensures
        instance_command_for(
            match c {
                InstanceCommand::Stop => "stop\n"@,
                InstanceCommand::Restart => "restart\n"@,
            },
        ) == Some(c),
{
    reveal_strlit("stop\n");
    reveal_strlit("restart\n");
    reveal_strlit("stop");
    reveal_strlit("restart");
    let m = match c {
        InstanceCommand::Stop => "stop\n"@,
        InstanceCommand::Restart => "restart\n"@,
    };
    crate::text::lemma_trim_drops_a_final_newline(m);
    if c == InstanceCommand::Restart {
        assert(m.drop_last() =~= "restart"@);
        assert(m.drop_last() != "stop"@) by {
            assert(m.drop_last().len() != "stop"@.len());
        }
    } else {
        assert(m.drop_last() =~= "stop"@);
    }
}

/// What an update does to a running daemon.
#[derive(Debug, Clone, Copy, PartialEq, Eq, Structural)]
pub enum AfterInstall {
    Nothing,
    Stop,
    Restart,
}

/// After an update: nothing unless a daemon runs and something was
/// installed; then the tray's installer restarts it and the CLI stops it.
pub fn after_install(from_tray: bool, daemon_running: bool, updated: bool) -> (r: AfterInstall)
    ensures
        r == if !updated || !daemon_running {
            AfterInstall::Nothing
        } else if from_tray {
            AfterInstall::Restart
        } else {
            AfterInstall::Stop
        },
{
    if !updated || !daemon_running {
        AfterInstall::Nothing
    } else if from_tray {
        AfterInstall::Restart
    } else {
        AfterInstall::Stop
    }
}

} // verus!
