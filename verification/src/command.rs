//! The closed command set and the 7-byte wire frame a command is sent in.

use vstd::prelude::*;
use crate::frame::START_HEADER_1;
use crate::frame::START_HEADER_2;
use crate::frame::be16;
use crate::frame::sum_bytes;

verus! {

/// The commands the sensor understands. `Idle` is a sentinel meaning
/// "no command in flight"; it never travels the wire on its own behalf.
#[derive(Debug, Copy, Clone, PartialEq, Eq, Structural)]
pub enum Command {
    /// Sentinel: no command in flight.
    Idle,
    /// Request one measurement while in passive mode.
    ReadPassive,
    /// Switch between active and passive mode.
    SetMode,
    /// Put the sensor to sleep or wake it.
    SetSleep,
}

/// The one-byte wire code of each command.
pub open spec fn command_code(c: Command) -> u8 {
    match c {
        Command::Idle => 0,
        Command::ReadPassive => 0xe2,
        Command::SetMode => 0xe1,
        Command::SetSleep => 0xe4,
    }
}

/// The 7-byte frame that carries a command and its 16-bit payload: both
/// magic bytes, the command code, the payload big-endian, then the 16-bit
/// sum of those five bytes, also big-endian.
pub open spec fn command_frame(c: Command, data: u16) -> Seq<u8> {
    let code = command_code(c);
    let hi = (data / 256) as u8;
    let lo = (data % 256) as u8;
    let chk = 0x42 + 0x4d + code + hi + lo;
    seq![
        START_HEADER_1,
        START_HEADER_2,
        code,
        hi,
        lo,
        (chk / 256) as u8,
        (chk % 256) as u8,
    ]
}

impl Command {
    /// The one-byte wire code of this command.
    pub fn code(&self) -> (r: u8)
        ensures
            r == command_code(*self),
    {
        match self {
            Command::Idle => 0,
            Command::ReadPassive => 0xe2,
            Command::SetMode => 0xe1,
            Command::SetSleep => 0xe4,
        }
    }
}

impl Default for Command {
    /// The sentinel is the resting state of a command slot.
    fn default() -> (r: Self)
        ensures
            r == Command::Idle,
    {
        Command::Idle
    }
}

/// The command frame decodes back to what was framed: the code byte is the
/// command's (and no other command's), the payload bytes read back as the
/// payload, and the trailing two bytes hold the checksum of the first five.
pub proof fn lemma_command_frame_round_trip(c: Command, data: u16)
    ensures
        command_frame(c, data).len() == 7,
        command_frame(c, data)[0] == START_HEADER_1,
        command_frame(c, data)[1] == START_HEADER_2,
        command_frame(c, data)[2] == command_code(c),
        be16(command_frame(c, data)[3], command_frame(c, data)[4]) == data,
        be16(command_frame(c, data)[5], command_frame(c, data)[6]) == sum_bytes(
            command_frame(c, data).subrange(0, 5),
        ),
        forall|c2: Command| command_code(c2) == command_code(c) ==> c2 == c,
{
    let f = command_frame(c, data);
    let code = command_code(c);
    let hi = (data / 256) as u8;
    let lo = (data % 256) as u8;
    let chk = 0x42 + 0x4d + code + hi + lo;
    crate::frame::lemma_be16_split(data as int);
    crate::frame::lemma_be16_split(chk);
    assert(f.subrange(0, 1).drop_last() =~= f.subrange(0, 0));
    assert(f.subrange(0, 2).drop_last() =~= f.subrange(0, 1));
    assert(f.subrange(0, 3).drop_last() =~= f.subrange(0, 2));
    assert(f.subrange(0, 4).drop_last() =~= f.subrange(0, 3));
    assert(f.subrange(0, 5).drop_last() =~= f.subrange(0, 4));
    assert(sum_bytes(f.subrange(0, 0)) == 0);
    assert(sum_bytes(f.subrange(0, 1)) == f[0]);
    assert(sum_bytes(f.subrange(0, 2)) == f[0] + f[1]);
    assert(sum_bytes(f.subrange(0, 3)) == f[0] + f[1] + f[2]);
    assert(sum_bytes(f.subrange(0, 4)) == f[0] + f[1] + f[2] + f[3]);
    assert(sum_bytes(f.subrange(0, 5)) == chk);
}

} // verus!

