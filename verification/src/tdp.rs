//! The power-limit interface: five registers, read and written one by one.

use vstd::prelude::*;
use crate::control::{byte_write, byte_write_spec, low_byte, low_byte_spec};
use crate::register::{
    CPU_POWER_1,
    CPU_POWER_2,
    GPU_POWER_1,
    GPU_POWER_2,
    THERMAL_TRIP,
    ProtocolError,
    RegisterCommand,
};

verus! {

/// The five power-limit values: two CPU limits, two GPU limits and the
/// thermal trip point. Each register holds one byte.
#[derive(Clone, Copy, PartialEq, Eq, Structural, Debug)]
pub struct Tdp {
    pub cpu1: i64,
    pub cpu2: i64,
    pub gpu1: i64,
    pub gpu2: i64,
    pub tcc: i64,
}

/// The registers in the order in which they are read and written: first
/// GPU limit, second GPU limit, first CPU limit, second CPU limit, thermal
/// trip point.
pub open spec fn tdp_addresses() -> Seq<u16> {
    seq![GPU_POWER_1, GPU_POWER_2, CPU_POWER_1, CPU_POWER_2, THERMAL_TRIP]
}

/// The values of a setting in the order of `tdp_addresses`.
pub open spec fn tdp_values(t: Tdp) -> Seq<int> {
    seq![t.gpu1 as int, t.gpu2 as int, t.cpu1 as int, t.cpu2 as int, t.tcc as int]
}

/// The five reads that fetch the power limits, in the order of
/// `tdp_addresses`.
pub fn tdp_reads() -> (reads: Vec<RegisterCommand>)
    ensures
        reads@.len() == 5,
        forall|i: int|
            0 <= i < 5 ==> #[trigger] reads@[i] == (RegisterCommand::Read {
                address: tdp_addresses()[i],
            }),
{
    let mut reads: Vec<RegisterCommand> = Vec::new();
    reads.push(RegisterCommand::Read { address: GPU_POWER_1 });
    reads.push(RegisterCommand::Read { address: GPU_POWER_2 });
    reads.push(RegisterCommand::Read { address: CPU_POWER_1 });
    reads.push(RegisterCommand::Read { address: CPU_POWER_2 });
    reads.push(RegisterCommand::Read { address: THERMAL_TRIP });
    reads
}

/// Makes the power limits out of the five replies: the first CPU limit and
/// both GPU limits count by their low byte, the second CPU limit and the
/// trip point as they came. The result is in the order first CPU, second
/// CPU, first GPU, second GPU, trip point.
pub fn get_tdp(replies: &Tdp) -> (limits: (i64, i64, i64, i64, i64))
    ensures
        limits.0 == low_byte_spec(replies.cpu1 as int),
        limits.1 == replies.cpu2,
        limits.2 == low_byte_spec(replies.gpu1 as int),
        limits.3 == low_byte_spec(replies.gpu2 as int),
        limits.4 == replies.tcc,
{
    (
        low_byte(replies.cpu1),
        replies.cpu2,
        low_byte(replies.gpu1),
        low_byte(replies.gpu2),
        replies.tcc,
    )
}

/// The five writes that store a setting, in the order of `tdp_addresses`.
/// Each stands alone: a value that does not fit in a byte fails its own
/// write and no other.
pub fn set_tdp(t: &Tdp) -> (writes: Vec<Result<RegisterCommand, ProtocolError>>)
    ensures
        writes@.len() == 5,
        forall|i: int|
            0 <= i < 5 ==> #[trigger] writes@[i] == byte_write_spec(
                tdp_addresses()[i],
                tdp_values(*t)[i],
            ),
{
    let mut writes: Vec<Result<RegisterCommand, ProtocolError>> = Vec::new();
    writes.push(byte_write(GPU_POWER_1, t.gpu1 as i128));
    writes.push(byte_write(GPU_POWER_2, t.gpu2 as i128));
    writes.push(byte_write(CPU_POWER_1, t.cpu1 as i128));
    writes.push(byte_write(CPU_POWER_2, t.cpu2 as i128));
    writes.push(byte_write(THERMAL_TRIP, t.tcc as i128));
    writes
}

} // verus!
