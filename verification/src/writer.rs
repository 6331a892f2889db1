//! The outgoing command framer: a cursor-based state machine that hands one
//! frame byte per step to the transport.

use vstd::prelude::*;
use crate::command::Command;
use crate::command::command_code;
use crate::command::command_frame;
use crate::frame::START_HEADER_1;
use crate::frame::START_HEADER_2;
use crate::frame::be16;
use crate::frame::lemma_be16_split;
use crate::transport::Step;
use crate::transport::Transport;

verus! {

/// Serializes one outgoing command into its fixed 7-byte frame, one byte per
/// non-blocking step. The cursor counts how many frame bytes the transport
/// has accepted; 7 means the frame is fully sent.
pub struct CommandWriter {
    command: Command,
    data_high: u8,
    data_low: u8,
    state: u8,
    verify_high: u8,
    verify_low: u8,
}

impl CommandWriter {
    /// The command being framed; `Idle` when no command is in flight.
    pub closed spec fn cmd(self) -> Command {
        self.command
    }

    /// The 16-bit payload being framed.
    pub closed spec fn payload(self) -> u16 {
        be16(self.data_high, self.data_low) as u16
    }

    /// How many of the 7 frame bytes the transport has accepted.
    pub closed spec fn cursor(self) -> int {
        self.state as int
    }

    /// Well-formed: the cursor is within the frame and the stored checksum
    /// bytes really hold the sum of the five bytes before them.
    pub closed spec fn wf(self) -> bool {
        &&& self.state <= 7
        &&& be16(self.verify_high, self.verify_low) == 0x42 + 0x4d + command_code(self.command)
            + self.data_high + self.data_low
    }

    /// The 7 bytes this writer puts on the wire.
    pub open spec fn frame(self) -> Seq<u8> {
        command_frame(self.cmd(), self.payload())
    }

    /// The command being framed; `Idle` when no command is in flight.
    pub fn command(&self) -> (c: Command)
        ensures
            c == self.cmd(),
    {
        self.command
    }

    /// Frame a command with its payload; the cursor starts at the first byte.
    pub fn new(command: Command, data: u16) -> (r: CommandWriter)
        ensures
            r.wf(),
            r.cmd() == command,
            r.payload() == data,
            r.cursor() == 0,
    {
        let data_high = (data / 256) as u8;
        let data_low = (data % 256) as u8;
        let code = command.code();
        let verify: u16 = 0x42 + 0x4d + (code as u16) + (data_high as u16) + (data_low as u16);
        let verify_high = (verify / 256) as u8;
        let verify_low = (verify % 256) as u8;
        proof {
            lemma_be16_split(data as int);
            lemma_be16_split(verify as int);
        }
        CommandWriter { command, data_high, data_low, state: 0, verify_high, verify_low }
    }

    /// The next frame byte owed to the transport.
    pub fn pending_byte(&self) -> (b: u8)
        requires
            self.wf(),
            self.cursor() < 7,
        ensures
            b == self.frame()[self.cursor()],
    {
        proof {
            lemma_be16_split(self.payload() as int);
            lemma_be16_split(be16(self.verify_high, self.verify_low));
        }
        if self.state == 0 {
            START_HEADER_1
        } else if self.state == 1 {
            START_HEADER_2
        } else if self.state == 2 {
            self.command.code()
        } else if self.state == 3 {
            self.data_high
        } else if self.state == 4 {
            self.data_low
        } else if self.state == 5 {
            self.verify_high
        } else {
            self.verify_low
        }
    }

    /// Try to emit the next pending frame byte. The cursor advances exactly
    /// when the transport accepts the byte; a completed frame (cursor 7)
    /// reports `Complete`, an unfinished one `Pending`, and a transport
    /// error leaves the cursor where it was.
    pub fn write<E, S: Transport<E>>(&mut self, serial: &mut S) -> (r: Step<(), E>)
        requires
            old(self).wf(),
        ensures
            final(self).wf(),
            final(self).cmd() == old(self).cmd(),
            final(self).payload() == old(self).payload(),
            r matches Step::Failed(_) ==> final(self).cursor() == old(self).cursor(),
            r matches Step::Complete(_) ==> final(self).cursor() == 7 && old(self).cursor()
                >= 6,
            r matches Step::Pending ==> old(self).cursor() <= final(self).cursor() <= old(
                self,
            ).cursor() + 1 && final(self).cursor() < 7,
    {
        if self.state < 7 {
            let b = self.pending_byte();
            match serial.write(b) {
                Step::Complete(_) => {
                    self.state = self.state + 1;
                }
                Step::Pending => {
                    return Step::Pending;
                }
                Step::Failed(e) => {
                    return Step::Failed(e);
                }
            }
        }
        if self.state == 7 {
            Step::Complete(())
        } else {
            Step::Pending
        }
    }
}

impl Default for CommandWriter {
    /// An idle writer: no command in flight, cursor at the first byte.
    fn default() -> (r: Self)
        ensures
            r.wf(),
            r.cmd() == Command::Idle,
            r.payload() == 0,
            r.cursor() == 0,
    {
        CommandWriter::new(Command::Idle, 0)
    }
}

} // verus!
