//! Live readback of the fan speeds and the two temperatures.

use vstd::prelude::*;
use crate::control::{low_byte, low_byte_spec};
use crate::register::{
    CPU_TEMP,
    GPU_TEMP,
    LEFT_TACH_HIGH,
    LEFT_TACH_LOW,
    RIGHT_TACH_HIGH,
    RIGHT_TACH_LOW,
    RegisterCommand,
};

verus! {

/// What the front end shows: the speed of each fan and the temperature of
/// each sensor.
#[derive(Clone, Copy, PartialEq, Eq, Structural, Debug)]
pub struct FanSpeeds {
    pub left_fan_speed: i64,
    pub right_fan_speed: i64,
    pub left_temp: i64,
    pub right_temp: i64,
}

/// The registers of a readback in the order in which they are read.
pub open spec fn readback_addresses() -> Seq<u16> {
    seq![LEFT_TACH_HIGH, LEFT_TACH_LOW, RIGHT_TACH_HIGH, RIGHT_TACH_LOW, CPU_TEMP, GPU_TEMP]
}

/// A fan speed out of its two registers: the low byte of the high reply,
/// moved up by eight bits, joined bit by bit with the low reply as it came.
pub open spec fn tach_spec(high: i64, low: i64) -> i64 {
    ((high & 0xFF) << 8) | low
}

/// The left temperature of a readback: the CPU reply as it came.
pub open spec fn left_temp_spec(cpu_reply: i64) -> i64 {
    cpu_reply
}

/// The right temperature of a readback: the low byte of the GPU reply.
pub open spec fn right_temp_spec(gpu_reply: i64) -> int {
    low_byte_spec(gpu_reply as int)
}

/// Where the low reply is a byte, the speed is the two bytes side by side.
pub proof fn lemma_tach_of_bytes(high: i64, low: i64)
    requires
        0 <= low <= 255,
    ensures
        tach_spec(high, low) == 256 * low_byte_spec(high as int) + low,
{
    assert(((high & 0xFF) << 8) | low == 256 * ((high as int) % 256) + low) by (bit_vector)
        requires
            0 <= low <= 255,
    ;
}

/// The six reads of a readback, in the order of `readback_addresses`.
pub fn fan_speed_reads() -> (reads: Vec<RegisterCommand>)
    ensures
        reads@.len() == 6,
        forall|i: int|
            0 <= i < 6 ==> #[trigger] reads@[i] == (RegisterCommand::Read {
                address: readback_addresses()[i],
            }),
{
    let mut reads: Vec<RegisterCommand> = Vec::new();
    reads.push(RegisterCommand::Read { address: LEFT_TACH_HIGH });
    reads.push(RegisterCommand::Read { address: LEFT_TACH_LOW });
    reads.push(RegisterCommand::Read { address: RIGHT_TACH_HIGH });
    reads.push(RegisterCommand::Read { address: RIGHT_TACH_LOW });
    reads.push(RegisterCommand::Read { address: CPU_TEMP });
    reads.push(RegisterCommand::Read { address: GPU_TEMP });
    reads
}

/// Makes a readback out of the six replies. The two sides differ on
/// purpose: the right temperature counts by its low byte, the left one as
/// it came.
pub fn get_fan_speeds(
    left_high: i64,
    left_low: i64,
    right_high: i64,
    right_low: i64,
    cpu_reply: i64,
    gpu_reply: i64,
) -> (speeds: FanSpeeds)
    ensures
        speeds.left_fan_speed == tach_spec(left_high, left_low),
        speeds.right_fan_speed == tach_spec(right_high, right_low),
        speeds.left_temp == left_temp_spec(cpu_reply),
        speeds.right_temp == right_temp_spec(gpu_reply),
{
    FanSpeeds {
        left_fan_speed: ((left_high & 0xFF) << 8) | left_low,
        right_fan_speed: ((right_high & 0xFF) << 8) | right_low,
        left_temp: cpu_reply,
        right_temp: low_byte(gpu_reply),
    }
}

} // verus!
