//! The fan control loop's decisions and the start/stop state machine. The
//! caller owns the hardware and the clock: it performs the transactions and
//! the waits, and hands the replies back to the functions here.

use vstd::prelude::*;
use std::collections::VecDeque;
use crate::curve::{FanData, speed_at, speed_at_spec};
use crate::register::{FAN_MODE, GPU_TEMP, LEFT_PWM, RIGHT_PWM, ProtocolError, RegisterCommand};
use crate::text::{decimal_digits, hex_text_of, parse_hex_spec, transaction_payload};

verus! {

/// Above this reading, in degrees Celsius, on either sensor, the curves are
/// set aside and both fans run at full speed.
pub const OVERHEAT_LIMIT: i64 = 95;

/// Full speed, in percent.
pub const FULL_SPEED: i128 = 100;

/// Seconds from one tick of the control loop to the next.
pub const TICK_PERIOD_SECS: u64 = 1;

/// Seconds between a stop and the write that hands the fans back to
/// automatic control.
pub const RESTORE_DELAY_SECS: u64 = 1;

/// What is taken off a reading of the fan-mode register before it is held
/// against the sentinels.
pub const MODE_BASELINE: i64 = 27728;

/// Fan-mode reading, less the baseline, that reports automatic control.
pub const AUTO_SENTINEL: i64 = -64;

/// Fan-mode reading, less the baseline, that reports an abnormal state.
pub const ABNORMAL_SENTINEL: i64 = -80;

/// Written to the fan-mode register to take manual control.
pub const MANUAL_ENABLE: u8 = 0x40;

/// Written to the fan-mode register to restore automatic control.
pub const RESTORE_AUTOMATIC: u8 = 0xA0;

/// PWM register units per percent of fan speed.
pub const PWM_UNITS_PER_PERCENT: i128 = 2;

/// The low byte of a reply: the reply modulo 256.
pub open spec fn low_byte_spec(reply: int) -> int {
    reply % 256
}

/// Masks a reply to its low byte.
pub fn low_byte(reply: i64) -> (byte: i64)
    ensures
        byte == low_byte_spec(reply as int),
        0 <= byte <= 255,
{
    assert((reply & 0xFF) == (reply as int) % 256) by (bit_vector);
    reply & 0xFF
}

/// The two states of the controller.
#[derive(Clone, Copy, PartialEq, Eq, Structural, Debug)]
pub enum ControlState {
    Stopped,
    Running,
}

/// The running flag that start and stop share with the control loop.
#[derive(Clone, Copy, PartialEq, Eq, Structural, Debug)]
pub struct FanControlState {
    pub is_running: bool,
}

/// The queue of raw command strings that wait for the dedicated worker,
/// oldest first.
#[derive(Debug)]
pub struct ChannelControlState {
    pub tx: VecDeque<Vec<u8>>,
}

/// The queue of replies that the dedicated worker has collected, oldest
/// first.
#[derive(Debug)]
pub struct ChannelControlState64 {
    pub tx: VecDeque<i64>,
}

/// What a start asks of the caller.
#[derive(Clone, Copy, PartialEq, Eq, Structural, Debug)]
pub enum StartAction {
    /// The loop runs already: there is nothing to do.
    AlreadyRunning,
    /// Read the fan-mode register, hand the reply to `fan_init`, then run
    /// the loop.
    Launch { mode_check: RegisterCommand },
}

/// What a stop asks of the caller: wait, then send the write that restores
/// automatic control and tell the user.
#[derive(Clone, Copy, PartialEq, Eq, Structural, Debug)]
pub struct StopAction {
    pub delay_secs: u64,
    pub restore: RegisterCommand,
}

/// What one tick of the loop does to the fans.
#[derive(Clone, Copy, PartialEq, Eq, Structural, Debug)]
pub enum TickAction {
    /// No write: the speed written last stays.
    Hold,
    /// One write of both fans, in percent.
    SetFans { left: i128, right: i128 },
}

/// The two conditions of the fan-mode register that call for recovery.
#[derive(Clone, Copy, PartialEq, Eq, Structural, Debug)]
pub enum FanModeFault {
    /// The register reports automatic control while the loop runs.
    AutomaticControl,
    /// The register reports an abnormal state.
    Abnormal,
}

/// The state after a start, and whether the start launches the loop.
pub open spec fn start_spec(state: ControlState) -> (ControlState, bool) {
    (ControlState::Running, state == ControlState::Stopped)
}

/// The state after a stop.
pub open spec fn stop_spec(state: ControlState) -> ControlState {
    ControlState::Stopped
}

/// The fault, if any, that a reading of the fan-mode register reports.
pub open spec fn fan_mode_fault_spec(mode_reply: int) -> Option<FanModeFault> {
    if mode_reply - MODE_BASELINE == AUTO_SENTINEL {
        Some(FanModeFault::AutomaticControl)
    } else if mode_reply - MODE_BASELINE == ABNORMAL_SENTINEL {
        Some(FanModeFault::Abnormal)
    } else {
        None
    }
}

/// The write that carries `value` to `address`, where the value fits in the
/// data byte.
pub open spec fn byte_write_spec(address: u16, value: int) -> Result<
    RegisterCommand,
    ProtocolError,
> {
    if 0 <= value <= 255 {
        Ok(RegisterCommand::Write { address, data: value as u8 })
    } else {
        Err(ProtocolError::ValueOutOfRange)
    }
}

/// The two writes that set the fans to `left` and `right` percent: each
/// PWM register takes twice the percentage.
pub open spec fn fan_set_spec(left: int, right: int) -> Result<
    (RegisterCommand, RegisterCommand),
    ProtocolError,
> {
    match (
        byte_write_spec(LEFT_PWM, PWM_UNITS_PER_PERCENT * left),
        byte_write_spec(RIGHT_PWM, PWM_UNITS_PER_PERCENT * right),
    ) {
        (Ok(l), Ok(r)) => Ok((l, r)),
        _ => Err(ProtocolError::ValueOutOfRange),
    }
}

/// What a tick decides from the two temperature replies: full speed on both
/// fans where either sensor reads above the limit; else the speeds that the
/// curves give, where both give one; else nothing. The GPU reply counts by
/// its low byte.
pub open spec fn tick_spec(
    cpu_reply: int,
    gpu_reply: int,
    left: Seq<crate::curve::FanPoint>,
    right: Seq<crate::curve::FanPoint>,
) -> Option<(int, int)> {
    let gpu = low_byte_spec(gpu_reply);
    if cpu_reply > OVERHEAT_LIMIT || gpu > OVERHEAT_LIMIT {
        Some((FULL_SPEED as int, FULL_SPEED as int))
    } else {
        match (speed_at_spec(left, cpu_reply), speed_at_spec(right, gpu)) {
            (Some(l), Some(r)) => Some((l, r)),
            _ => None,
        }
    }
}

impl TickAction {
    /// The percentages to write, if any.
    pub open spec fn speeds(&self) -> Option<(int, int)> {
        match *self {
            TickAction::Hold => None,
            TickAction::SetFans { left, right } => Some((left as int, right as int)),
        }
    }
}

impl FanControlState {
    pub open spec fn state(&self) -> ControlState {
        if self.is_running {
            ControlState::Running
        } else {
            ControlState::Stopped
        }
    }

    /// A controller at rest.
    pub fn new() -> (s: FanControlState)
        ensures
            s.state() == ControlState::Stopped,
    {
        FanControlState { is_running: false }
    }

    /// What the loop asks at the top of each tick: whether to go on.
    pub fn running(&self) -> (r: bool)
        ensures
            r == (self.state() == ControlState::Running),
    {
        self.is_running
    }
}

impl ChannelControlState {
    /// The strings that wait, oldest first.
    pub open spec fn pending(&self) -> Seq<Seq<u8>> {
        Seq::new(self.tx@.len(), |i: int| self.tx@[i]@)
    }

    /// An empty queue.
    pub fn new() -> (c: ChannelControlState)
        ensures
            c.pending() == Seq::<Seq<u8>>::empty(),
    {
        let c = ChannelControlState { tx: VecDeque::new() };
        assert(c.pending() =~= Seq::<Seq<u8>>::empty());
        c
    }

    /// Puts a raw command string at the end of the queue.
    pub fn send(&mut self, command: Vec<u8>)
        ensures
            final(self).pending() == old(self).pending().push(command@),
    {
        self.tx.push_back(command);
        assert(self.pending() =~= old(self).pending().push(command@));
    }

    /// Takes the oldest string out of the queue, if there is one.
    pub fn recv(&mut self) -> (command: Option<Vec<u8>>)
        ensures
            old(self).pending().len() == 0 ==> command is None && final(self).pending() == old(self).pending(),
            old(self).pending().len() > 0 ==> command is Some && command->Some_0@ == old(self).pending()[0] && final(self).pending() == old(self).pending().subrange(
                1,
                old(self).pending().len() as int,
            ),
    {
        let command = self.tx.pop_front();
        assert(old(self).pending().len() == 0 ==> self.pending() =~= old(self).pending());
        assert(old(self).pending().len() > 0 ==> self.pending() =~= old(self).pending().subrange(
            1,
            old(self).pending().len() as int,
        ));
        command
    }

    /// One step of the dedicated worker: takes the oldest raw command and
    /// turns it into the decimal payload of its transaction. Gives nothing
    /// where the queue is empty, and the error where the string denotes no
    /// number.
    pub fn serve(&mut self) -> (payload: Option<Result<Vec<u8>, ProtocolError>>)
        ensures
            old(self).pending().len() == 0 ==> payload is None && final(self).pending() == old(self).pending(),
            old(self).pending().len() > 0 ==> payload is Some && final(self).pending() == old(self).pending().subrange(1, old(self).pending().len() as int) && match parse_hex_spec(
                old(self).pending()[0],
            ) {
                Ok(word) => payload->Some_0 is Ok && payload->Some_0->Ok_0@ == decimal_digits(
                    word as nat,
                ),
                Err(e) => payload->Some_0 is Err && payload->Some_0->Err_0 == e,
            },
    {
        match self.recv() {
            Some(command) => Some(transaction_payload(command.as_slice())),
            None => None,
        }
    }
}

impl ChannelControlState64 {
    /// The replies that wait, oldest first.
    pub open spec fn pending(&self) -> Seq<i64> {
        self.tx@
    }

    /// An empty queue.
    pub fn new() -> (c: ChannelControlState64)
        ensures
            c.pending() == Seq::<i64>::empty(),
    {
        ChannelControlState64 { tx: VecDeque::new() }
    }

    /// Puts a reply at the end of the queue.
    pub fn send(&mut self, reply: i64)
        ensures
            final(self).pending() == old(self).pending().push(reply),
    {
        self.tx.push_back(reply);
    }

    /// Takes the oldest reply out of the queue, if there is one.
    pub fn recv(&mut self) -> (reply: Option<i64>)
        ensures
            old(self).pending().len() == 0 ==> reply is None && final(self).pending() == old(self).pending(),
            old(self).pending().len() > 0 ==> reply == Some(old(self).pending()[0])
                && final(self).pending() == old(self).pending().subrange(
                1,
                old(self).pending().len() as int,
            ),
    {
        self.tx.pop_front()
    }
}

/// The read of the fan-mode register that comes before a mode fix and
/// before every write of the fans.
pub fn fan_mode_read() -> (command: RegisterCommand)
    ensures
        command == (RegisterCommand::Read { address: FAN_MODE }),
{
    RegisterCommand::Read { address: FAN_MODE }
}

/// Starts fan control. A start while the loop runs changes nothing and asks
/// nothing. Otherwise the state becomes running, one advisory command, a
/// read of the GPU sensor, joins the dedicated worker's queue, and the
/// caller is asked to read the fan-mode register for `fan_init` and then to
/// run the loop.
pub fn start_fan_control(state: &mut FanControlState, tx: &mut ChannelControlState) -> (action:
    StartAction)
    ensures
        final(state).state() == start_spec(old(state).state()).0,
        start_spec(old(state).state()).1 ==> action == (StartAction::Launch {
            mode_check: RegisterCommand::Read { address: FAN_MODE },
        }) && final(tx).pending() == old(tx).pending().push(
            hex_text_of((RegisterCommand::Read { address: GPU_TEMP }).word()),
        ),
        !start_spec(old(state).state()).1 ==> action == StartAction::AlreadyRunning && final(tx).pending() == old(tx).pending(),
{
    if state.is_running {
        return StartAction::AlreadyRunning;
    }
    state.is_running = true;
    let advisory = RegisterCommand::Read { address: GPU_TEMP };
    tx.send(advisory.to_text());
    StartAction::Launch { mode_check: fan_mode_read() }
}

/// Stops fan control: the state becomes stopped, whatever it was. The loop
/// sees that at the top of its next tick. The caller is asked to wait for
/// the restore delay, which is no shorter than a tick, and then to send the
/// write that restores automatic control.
pub fn stop_fan_control(state: &mut FanControlState) -> (action: StopAction)
    ensures
        final(state).state() == stop_spec(old(state).state()),
        action.delay_secs == RESTORE_DELAY_SECS,
        action.delay_secs >= TICK_PERIOD_SECS,
        action.restore == (RegisterCommand::Write { address: FAN_MODE, data: RESTORE_AUTOMATIC }),
{
    state.is_running = false;
    StopAction { delay_secs: RESTORE_DELAY_SECS, restore: fan_reset() }
}

/// Tells which fault, if any, a reading of the fan-mode register reports.
pub fn fan_mode_fault(mode_reply: i64) -> (fault: Option<FanModeFault>)
    ensures
        fault == fan_mode_fault_spec(mode_reply as int),
{
    if mode_reply == MODE_BASELINE + AUTO_SENTINEL {
        Some(FanModeFault::AutomaticControl)
    } else if mode_reply == MODE_BASELINE + ABNORMAL_SENTINEL {
        Some(FanModeFault::Abnormal)
    } else {
        None
    }
}

/// The mode fix: given the reply to a read of the fan-mode register, the
/// write that takes manual control, where the register reports automatic
/// control, and nothing otherwise.
pub fn fan_init(mode_reply: i64) -> (fix: Option<RegisterCommand>)
    ensures
        mode_reply - MODE_BASELINE == AUTO_SENTINEL ==> fix == Some(
            RegisterCommand::Write { address: FAN_MODE, data: MANUAL_ENABLE },
        ),
        mode_reply - MODE_BASELINE != AUTO_SENTINEL ==> fix is None,
{
    match fan_mode_fault(mode_reply) {
        Some(FanModeFault::AutomaticControl) => Some(
            RegisterCommand::Write { address: FAN_MODE, data: MANUAL_ENABLE },
        ),
        _ => None,
    }
}

/// The write that hands the fans back to automatic control.
pub fn fan_reset() -> (command: RegisterCommand)
    ensures
        command == (RegisterCommand::Write { address: FAN_MODE, data: RESTORE_AUTOMATIC }),
{
    RegisterCommand::Write { address: FAN_MODE, data: RESTORE_AUTOMATIC }
}

/// The write that carries `value` to `address`. Fails exactly where the
/// value does not fit in the data byte.
pub fn byte_write(address: u16, value: i128) -> (r: Result<RegisterCommand, ProtocolError>)
    ensures
        r == byte_write_spec(address, value as int),
{
    if 0 <= value && value <= 255 {
        Ok(RegisterCommand::Write { address, data: value as u8 })
    } else {
        Err(ProtocolError::ValueOutOfRange)
    }
}

/// The two writes that set the fans to `left` and `right` percent, left
/// first. Fails exactly where twice a percentage does not fit in the data
/// byte; nothing is to be written then.
pub fn fan_set(left: i128, right: i128) -> (r: Result<
    (RegisterCommand, RegisterCommand),
    ProtocolError,
>)
    ensures
        r == fan_set_spec(left as int, right as int),
{
    if left < 0 || left > 127 || right < 0 || right > 127 {
        return Err(ProtocolError::ValueOutOfRange);
    }
    let l = byte_write(LEFT_PWM, PWM_UNITS_PER_PERCENT * left);
    let r = byte_write(RIGHT_PWM, PWM_UNITS_PER_PERCENT * right);
    match (l, r) {
        (Ok(l), Ok(r)) => Ok((l, r)),
        _ => Err(ProtocolError::ValueOutOfRange),
    }
}

/// Decides one tick from the replies of the CPU and GPU sensors.
pub fn decide_tick(cpu_reply: i64, gpu_reply: i64, curves: &FanData) -> (action: TickAction)
    ensures
        action.speeds() == tick_spec(
            cpu_reply as int,
            gpu_reply as int,
            curves.left_fan@,
            curves.right_fan@,
        ),
        (cpu_reply > OVERHEAT_LIMIT || low_byte_spec(gpu_reply as int) > OVERHEAT_LIMIT)
            ==> action == (TickAction::SetFans { left: FULL_SPEED, right: FULL_SPEED }),
{
    let gpu = low_byte(gpu_reply);
    if cpu_reply > OVERHEAT_LIMIT || gpu > OVERHEAT_LIMIT {
        return TickAction::SetFans { left: FULL_SPEED, right: FULL_SPEED };
    }
    let left = speed_at(curves.left_fan.as_slice(), cpu_reply);
    let right = speed_at(curves.right_fan.as_slice(), gpu);
    match (left, right) {
        (Some(l), Some(r)) => TickAction::SetFans { left: l, right: r },
        _ => TickAction::Hold,
    }
}

/// Two starts in a row launch the loop at most once: the second finds it
/// running and asks nothing. From rest, exactly the first launches.
pub proof fn lemma_start_twice(state: ControlState)
    ensures
        start_spec(start_spec(state).0) == (ControlState::Running, false),
        start_spec(state).0 == ControlState::Running,
        start_spec(state).1 <==> state == ControlState::Stopped,
{
}

/// A start after a stop launches the loop again.
pub proof fn lemma_start_after_stop(state: ControlState)
    ensures
        start_spec(stop_spec(state)) == (ControlState::Running, true),
{
}

/// Above the limit on either sensor, whatever the curves hold, the tick
/// sets both fans to full speed, and the two writes carry 200 to the PWM
/// registers.
pub proof fn lemma_overheat_full_speed(
    cpu_reply: int,
    gpu_reply: int,
    left: Seq<crate::curve::FanPoint>,
    right: Seq<crate::curve::FanPoint>,
)
    requires
        cpu_reply > OVERHEAT_LIMIT || low_byte_spec(gpu_reply) > OVERHEAT_LIMIT,
    ensures
        tick_spec(cpu_reply, gpu_reply, left, right) == Some((100int, 100int)),
        fan_set_spec(100, 100) == Ok::<(RegisterCommand, RegisterCommand), ProtocolError>(
            (
                RegisterCommand::Write { address: LEFT_PWM, data: 200 },
                RegisterCommand::Write { address: RIGHT_PWM, data: 200 },
            ),
        ),
{
}

/// With percentages for speeds on both curves and a CPU reading that is not
/// negative, the speeds that a tick decides on can always be written.
pub proof fn lemma_tick_can_be_written(
    cpu_reply: int,
    gpu_reply: int,
    left: Seq<crate::curve::FanPoint>,
    right: Seq<crate::curve::FanPoint>,
)
    requires
        crate::curve::speeds_are_percent(left),
        crate::curve::speeds_are_percent(right),
        0 <= cpu_reply,
    ensures
        match tick_spec(cpu_reply, gpu_reply, left, right) {
            Some((l, r)) => fan_set_spec(l, r) is Ok,
            None => true,
        },
{
    crate::curve::lemma_speed_is_percent(left, cpu_reply);
    crate::curve::lemma_speed_is_percent(right, low_byte_spec(gpu_reply));
}

/// The speeds that a tick decides on fit in 128 bits, whatever the curves
/// and the replies.
pub proof fn lemma_tick_speeds_fit(
    cpu_reply: int,
    gpu_reply: int,
    left: Seq<crate::curve::FanPoint>,
    right: Seq<crate::curve::FanPoint>,
)
    requires
        i64::MIN <= cpu_reply <= i64::MAX,
    ensures
        tick_spec(cpu_reply, gpu_reply, left, right) matches Some((l, r)) ==> i128::MIN <= l
            <= i128::MAX && i128::MIN <= r <= i128::MAX,
{
    crate::curve::lemma_speed_fits(left, cpu_reply);
    crate::curve::lemma_speed_fits(right, low_byte_spec(gpu_reply));
}

} // verus!
