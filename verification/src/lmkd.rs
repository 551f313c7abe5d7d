//! Replies of the non-killing low-memory-killer control endpoint.
//!
//! Android's activity manager requires a live control socket even when memory
//! pressure policy is delegated to the enclosing runtime. The endpoint records
//! no process state, never sends a signal, and answers the three synchronous
//! commands with zero.

use vstd::prelude::*;

verus! {

/// Longest control packet.
pub const MAX_CONTROL_PACKET_BYTES: usize = 64;

/// Query of the number of killed processes.
pub const LMK_GETKILLCNT: u32 = 4;

/// Request to read properties again.
pub const LMK_UPDATE_PROPS: u32 = 7;

/// Notification that the system has booted.
pub const LMK_BOOT_COMPLETED: u32 = 10;

/// Command at the start of a packet, in network byte order.
pub open spec fn command_of(packet: Seq<u8>) -> int {
    packet[0] * 0x100_0000 + packet[1] * 0x1_0000 + packet[2] * 0x100 + packet[3]
}

/// Whether a packet is one of the synchronous commands in its exact form.
pub open spec fn synchronous(packet: Seq<u8>) -> bool {
    ||| packet.len() == 12 && command_of(packet) == LMK_GETKILLCNT
    ||| packet.len() == 4 && (command_of(packet) == LMK_UPDATE_PROPS || command_of(packet)
        == LMK_BOOT_COMPLETED)
}

/// Reply to a packet: the same command and a zero.
pub open spec fn zero_reply(packet: Seq<u8>) -> Seq<u8> {
    packet.take(4) + seq![0u8, 0u8, 0u8, 0u8]
}

/// Reply to a control packet, if it asks for one.
pub fn reply_for(packet: &[u8]) -> (reply: Option<[u8; 8]>)
    ensures
        match reply {
            Some(reply) => synchronous(packet@) && reply@ == zero_reply(packet@),
            None => !synchronous(packet@),
        },
{
    if packet.len() < 4 || packet.len() > MAX_CONTROL_PACKET_BYTES || packet.len() % 4 != 0 {
        return None;
    }
    let command: u32 = packet[0] as u32 * 0x100_0000 + packet[1] as u32 * 0x1_0000 + packet[2]
        as u32 * 0x100 + packet[3] as u32;
    let answered: bool = (command == LMK_GETKILLCNT && packet.len() == 12) || ((command
        == LMK_UPDATE_PROPS || command == LMK_BOOT_COMPLETED) && packet.len() == 4);
    if !answered {
        return None;
    }
    let reply: [u8; 8] = [packet[0], packet[1], packet[2], packet[3], 0, 0, 0, 0];
    assert(reply@ =~= zero_reply(packet@));
    Some(reply)
}

/// Law: a packet is answered exactly when it is one of three commands, in
/// network byte order and of its own length: 4 with two more words, 7 or 10
/// alone. The answer repeats the command and says zero.
pub proof fn law_three_commands_are_answered_with_zero(packet: Seq<u8>)
    requires
        packet.len() >= 4,
    ensures
        synchronous(packet) <==> {
            &&& packet[0] == 0
            &&& packet[1] == 0
            &&& packet[2] == 0
            &&& {
                ||| packet[3] == 4 && packet.len() == 12
                ||| packet[3] == 7 && packet.len() == 4
                ||| packet[3] == 10 && packet.len() == 4
            }
        },
        zero_reply(packet) == seq![packet[0], packet[1], packet[2], packet[3], 0u8, 0u8, 0u8, 0u8],
{
}

} // verus!
