//! The commands of the Willow capability system.
//!
//! ```text
//! willow              full access: proves read, write and enumerate
//! |-- willow/read     read-only access
//! |-- willow/write    write-only access
//! `-- willow/enumerate  proof of membership in a namespace
//! ```

use vstd::prelude::*;

use super::ucan::Command;
use crate::proto::meadowcap::AccessMode;

verus! {

#[derive(Clone, Copy, Debug, PartialEq, Eq, Hash, Structural)]
pub enum WillowCommand {
    /// Proves read, write and enumerate.
    Full,
    /// Proves read only.
    Read,
    /// Proves write only.
    Write,
    /// Proves membership in a namespace, and access to none of its data.
    Enumerate,
}

/// The segments of the command.
pub open spec fn command_segments(command: WillowCommand) -> Seq<Seq<char>> {
    match command {
        WillowCommand::Full => seq!["willow"@],
        WillowCommand::Read => seq!["willow"@, "read"@],
        WillowCommand::Write => seq!["willow"@, "write"@],
        WillowCommand::Enumerate => seq!["willow"@, "enumerate"@],
    }
}

/// The command with these segments, if it is one of Willow's.
pub open spec fn willow_command(segments: Seq<Seq<char>>) -> Option<WillowCommand> {
    if segments == command_segments(WillowCommand::Full) {
        Some(WillowCommand::Full)
    } else if segments == command_segments(WillowCommand::Read) {
        Some(WillowCommand::Read)
    } else if segments == command_segments(WillowCommand::Write) {
        Some(WillowCommand::Write)
    } else if segments == command_segments(WillowCommand::Enumerate) {
        Some(WillowCommand::Enumerate)
    } else {
        None
    }
}

impl WillowCommand {
    pub open spec fn spec_proves_read(self) -> bool {
        self is Full || self is Read
    }

    pub open spec fn spec_proves_write(self) -> bool {
        self is Full || self is Write
    }

    pub open spec fn spec_proves_enumerate(self) -> bool {
        self is Full || self is Enumerate
    }

    pub open spec fn spec_access_mode(self) -> AccessMode {
        if self.spec_proves_write() {
            AccessMode::Write
        } else {
            AccessMode::Read
        }
    }

    pub fn as_str(&self) -> (r: &'static str)
        ensures
            r@ == match *self {
                WillowCommand::Full => "willow"@,
                WillowCommand::Read => "willow/read"@,
                WillowCommand::Write => "willow/write"@,
                WillowCommand::Enumerate => "willow/enumerate"@,
            },
    {
        match self {
            WillowCommand::Full => "willow",
            WillowCommand::Read => "willow/read",
            WillowCommand::Write => "willow/write",
            WillowCommand::Enumerate => "willow/enumerate",
        }
    }

    /// The Willow command that a UCAN command is, if it is one.
    pub fn from_ucan_command(cmd: &Command) -> (r: Option<Self>)
        ensures
            r == willow_command(cmd@),
    {
        let segments = cmd.segments();
        proof {
            lemma_command_segments_differ();
        }
        if segments.len() == 0 || !is_text(&segments[0], "willow") {
            assert(segments@.len() > 0 ==> cmd@[0] != "willow"@);
            return None;
        }
        if segments.len() == 1 {
            assert(cmd@ =~= command_segments(WillowCommand::Full));
            return Some(WillowCommand::Full);
        }
        if segments.len() > 2 {
            return None;
        }
        assert(cmd@ =~= seq!["willow"@, cmd@[1]]);
        if is_text(&segments[1], "read") {
            Some(WillowCommand::Read)
        } else if is_text(&segments[1], "write") {
            Some(WillowCommand::Write)
        } else if is_text(&segments[1], "enumerate") {
            Some(WillowCommand::Enumerate)
        } else {
            assert(cmd@[1] != command_segments(WillowCommand::Read)[1]);
            assert(cmd@[1] != command_segments(WillowCommand::Write)[1]);
            assert(cmd@[1] != command_segments(WillowCommand::Enumerate)[1]);
            None
        }
    }

    /// The UCAN command that this command is.
    pub fn to_ucan_command(self) -> (r: Command)
        ensures
            r@ == command_segments(self),
    {
        let mut segments: Vec<String> = Vec::new();
        segments.push("willow".to_owned());
        match self {
            WillowCommand::Full => {},
            WillowCommand::Read => {
                segments.push("read".to_owned());
            },
            WillowCommand::Write => {
                segments.push("write".to_owned());
            },
            WillowCommand::Enumerate => {
                segments.push("enumerate".to_owned());
            },
        }
        let command = Command::new(segments);
        assert(command@ =~= command_segments(self));
        command
    }

    pub fn proves_read(&self) -> (r: bool)
        ensures
            r == self.spec_proves_read(),
    {
        matches!(self, WillowCommand::Full | WillowCommand::Read)
    }

    pub fn proves_write(&self) -> (r: bool)
        ensures
            r == self.spec_proves_write(),
    {
        matches!(self, WillowCommand::Full | WillowCommand::Write)
    }

    pub fn proves_enumerate(&self) -> (r: bool)
        ensures
            r == self.spec_proves_enumerate(),
    {
        matches!(self, WillowCommand::Full | WillowCommand::Enumerate)
    }

    pub fn access_mode(&self) -> (r: AccessMode)
        ensures
            r == self.spec_access_mode(),
    {
        match self {
            WillowCommand::Full | WillowCommand::Write => AccessMode::Write,
            WillowCommand::Read | WillowCommand::Enumerate => AccessMode::Read,
        }
    }
}

fn is_text(s: &String, text: &str) -> (r: bool)
    ensures
        r == (s@ == text@),
{
    *s == text.to_owned()
}

proof fn lemma_command_segments_differ()
    ensures
        forall|a: WillowCommand, b: WillowCommand| a != b ==> #[trigger] command_segments(a) != #[trigger] command_segments(b),
{
    reveal_strlit("read");
    reveal_strlit("write");
    reveal_strlit("enumerate");
    assert("read"@.len() == 4 && "write"@.len() == 5 && "enumerate"@.len() == 9);
    assert forall|a: WillowCommand, b: WillowCommand| a != b implies #[trigger] command_segments(a) != #[trigger] command_segments(b) by {
        let x = command_segments(a);
        let y = command_segments(b);
        if !(a is Full) && !(b is Full) {
            assert(x[1].len() != y[1].len());
        } else {
            assert(x.len() != y.len());
        }
    }
}

/// Reading a Willow command back from its UCAN command gives the command.
pub proof fn law_command_round_trip(command: WillowCommand)
    ensures
        willow_command(command_segments(command)) == Some(command),
{
    lemma_command_segments_differ();
}

/// Only the UCAN command that a Willow command is written as is read as that
/// command.
pub proof fn law_command_reading_is_faithful(segments: Seq<Seq<char>>, command: WillowCommand)
    requires
        willow_command(segments) == Some(command),
    ensures
        segments == command_segments(command),
{
}

/// A command starts with another exactly if the two are the same or the other is
/// full access; so a delegation can only keep a command or narrow full access.
pub proof fn law_command_hierarchy(child: WillowCommand, parent: WillowCommand)
    ensures
        command_segments(parent).is_prefix_of(command_segments(child)) <==> (parent == child
            || parent is Full),
{
    lemma_command_segments_differ();
    let p = command_segments(parent);
    let c = command_segments(child);
    if parent is Full {
        assert(p =~= c.subrange(0, 1));
    } else if p.is_prefix_of(c) {
        assert(c.len() == 2);
        assert(p =~= c);
    } else if parent == child {
        assert(p =~= c.subrange(0, c.len() as int));
    }
}

/// What a command proves is proved by each command that it narrows.
pub proof fn law_narrowed_command_proves_no_more(child: WillowCommand, parent: WillowCommand)
    requires
        command_segments(parent).is_prefix_of(command_segments(child)),
    ensures
        child.spec_proves_read() ==> parent.spec_proves_read(),
        child.spec_proves_write() ==> parent.spec_proves_write(),
        child.spec_proves_enumerate() ==> parent.spec_proves_enumerate(),
{
    law_command_hierarchy(child, parent);
}

/// A command that gives access to no data is the proof of membership, which gives
/// none.
pub proof fn law_enumerate_gives_no_access(command: WillowCommand)
    ensures
        command is Enumerate <==> !command.spec_proves_read() && !command.spec_proves_write(),
        command is Enumerate ==> command.spec_proves_enumerate(),
{
}

/// A command proves an action exactly if the command of the action is the same or lies under
/// it. The access mode is to write exactly for what proves write.
pub proof fn law_what_commands_prove(command: WillowCommand)
    ensures
        command.spec_proves_read() <==> command_segments(command).is_prefix_of(
            command_segments(WillowCommand::Read),
        ),
        command.spec_proves_write() <==> command_segments(command).is_prefix_of(
            command_segments(WillowCommand::Write),
        ),
        command.spec_proves_enumerate() <==> command_segments(command).is_prefix_of(
            command_segments(WillowCommand::Enumerate),
        ),
        command.spec_proves_read() <==> command is Full || command is Read,
        command.spec_proves_write() <==> command is Full || command is Write,
        command.spec_proves_enumerate() <==> command is Full || command is Enumerate,
        command.spec_access_mode() is Write <==> command is Full || command is Write,
{
    law_command_hierarchy(WillowCommand::Read, command);
    law_command_hierarchy(WillowCommand::Write, command);
    law_command_hierarchy(WillowCommand::Enumerate, command);
}

/// All commands lie under `willow`: full access is that, and each action is one word under it.
pub proof fn law_words_of_commands(command: WillowCommand)
    ensures
        command_segments(command)[0] == "willow"@,
        command is Full ==> command_segments(command).len() == 1,
        !(command is Full) ==> command_segments(command).len() == 2 && command_segments(command)[1]
            == match command {
            WillowCommand::Read => "read"@,
            WillowCommand::Write => "write"@,
            _ => "enumerate"@,
        },
{
}

} // verus!
