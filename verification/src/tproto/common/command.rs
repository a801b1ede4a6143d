use vstd::prelude::*;

verus! {

/// Command of a Trojan request: open a TCP stream, or associate a UDP relay.
#[derive(Clone, Copy, Debug, PartialEq, Eq, Structural)]
pub enum Command {
    Connect,
    Udp,
}

/// The CMD byte of a command on the wire.
pub open spec fn spec_command_byte(c: Command) -> u8 {
    match c {
        Command::Connect => 1u8,
        Command::Udp => 3u8,
    }
}

/// The command that a CMD byte names, if any.
pub open spec fn spec_command_from_byte(b: u8) -> Option<Command> {
    if b == 1 {
        Some(Command::Connect)
    } else if b == 3 {
        Some(Command::Udp)
    } else {
        None
    }
}

impl Command {
    /// The CMD byte of this command.
    pub fn to_byte(self) -> (b: u8)
        ensures
            b == spec_command_byte(self),
    {
        match self {
            Command::Connect => 1,
            Command::Udp => 3,
        }
    }

    /// Reads a CMD byte; `None` for a byte that names no command.
    pub fn from_byte(b: u8) -> (r: Option<Command>)
        ensures
            r == spec_command_from_byte(b),
    {
        if b == 1 {
            Some(Command::Connect)
        } else if b == 3 {
            Some(Command::Udp)
        } else {
            None
        }
    }
}

/// Reading back the byte of a command gives that command again.
pub proof fn lemma_command_byte_roundtrip(c: Command)
    ensures
        spec_command_from_byte(spec_command_byte(c)) == Some(c),
{
}

} // verus!
