use vstd::prelude::*;

verus! {

/// The byte of a MIDI message at position `i`, 0 past its end.
pub open spec fn byte_or_zero(message: Seq<u8>, i: int) -> u32 {
    if 0 <= i < message.len() {
        message[i] as u32
    } else {
        0
    }
}

/// A raw MIDI message packed into one integer: status byte in the low
/// byte, then the two data bytes; missing bytes are 0, bytes after the
/// third are ignored.
pub fn pack_midi_message(message: &[u8]) -> (r: u32)
    ensures
        r == byte_or_zero(message@, 0) + byte_or_zero(message@, 1) * 256 + byte_or_zero(message@, 2) * 65536,
{
    let b0: u32 = if message.len() > 0 {
        message[0] as u32
    } else {
        0
    };
    let b1: u32 = if message.len() > 1 {
        message[1] as u32
    } else {
        0
    };
    let b2: u32 = if message.len() > 2 {
        message[2] as u32
    } else {
        0
    };
    b0 + b1 * 256 + b2 * 65536
}

/// The version of the KDMAPI interface this driver implements: major,
/// minor, build, revision.
pub fn kdmapi_version() -> (r: (u32, u32, u32, u32))
    ensures
        r == (4u32, 1u32, 0u32, 5u32),
{
    (4, 1, 0, 5)
}

} // verus!
