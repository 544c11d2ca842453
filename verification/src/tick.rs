//! One tick of the control loop as a protocol between the controller and
//! whoever holds the hardware. The holder performs one transaction at a
//! time and hands each reply to `TickPhase::step`, which says what comes
//! next: two temperature reads, the decision, a check of the fan-mode
//! register with a recovery where it reports a fault, and the two writes.

use vstd::prelude::*;
use crate::control::{
    FanModeFault,
    MANUAL_ENABLE,
    MODE_BASELINE,
    AUTO_SENTINEL,
    TickAction,
    decide_tick,
    fan_init,
    fan_mode_fault,
    fan_mode_fault_spec,
    fan_mode_read,
    fan_set,
    fan_set_spec,
    tick_spec,
};
use crate::curve::{FanData, FanPoint};
use crate::register::{
    CPU_TEMP,
    FAN_MODE,
    GPU_TEMP,
    LEFT_PWM,
    RIGHT_PWM,
    ProtocolError,
    RegisterCommand,
};

verus! {

/// Where a tick stands: which reply it waits for, and what it has learnt.
#[derive(Clone, Copy, PartialEq, Eq, Structural, Debug)]
pub enum TickPhase {
    /// Waits for the CPU temperature.
    CpuTemp,
    /// Waits for the GPU temperature.
    GpuTemp { cpu_reply: i64 },
    /// Waits for the fan-mode register, read before the fans are written.
    ModeCheck { left: i128, right: i128 },
    /// A fault was seen; waits for the fan-mode register again, read by the
    /// mode fix.
    ModeFix { fault: FanModeFault, left: i128, right: i128 },
    /// Waits for the reply to the write that takes manual control.
    ManualEnable { fault: FanModeFault, left: i128, right: i128 },
    /// Waits for the reply to the write of the left fan.
    LeftWrite { right_write: RegisterCommand },
    /// Waits for the reply to the write of the right fan.
    RightWrite,
}

/// Why a tick ends before it has done what it set out to do.
#[derive(Clone, Copy, PartialEq, Eq, Structural, Debug)]
pub enum TickError {
    /// A transaction failed: the session could not be opened, the method
    /// was not found, or the call did not go through.
    TransactionFailed,
    /// A reply could not be read, or a speed does not fit in the data byte.
    Protocol(ProtocolError),
}

/// A phase together with the transaction that it waits for.
#[derive(Clone, Copy, PartialEq, Eq, Structural, Debug)]
pub struct Pending {
    pub phase: TickPhase,
    pub command: RegisterCommand,
}

/// What a reply leads to.
#[derive(Clone, Copy, PartialEq, Eq, Structural, Debug)]
pub struct TickStep {
    /// The fault whose recovery has just been attempted: the user is to be
    /// told.
    pub recovered: Option<FanModeFault>,
    /// Why the tick ends here, where it ends early.
    pub error: Option<TickError>,
    /// The next phase and the transaction to perform for it; none where the
    /// tick is over.
    pub next: Option<Pending>,
}

/// How many transactions at most are still to come after the one that a
/// phase waits for.
pub open spec fn remaining(phase: TickPhase) -> nat {
    match phase {
        TickPhase::CpuTemp => 6,
        TickPhase::GpuTemp { .. } => 5,
        TickPhase::ModeCheck { .. } => 4,
        TickPhase::ModeFix { .. } => 3,
        TickPhase::ManualEnable { .. } => 2,
        TickPhase::LeftWrite { .. } => 1,
        TickPhase::RightWrite => 0,
    }
}

/// The percentages that a phase is about to write, where it has decided.
pub open spec fn pending_speeds(phase: TickPhase) -> Option<(int, int)> {
    match phase {
        TickPhase::ModeCheck { left, right } => Some((left as int, right as int)),
        TickPhase::ModeFix { left, right, .. } => Some((left as int, right as int)),
        TickPhase::ManualEnable { left, right, .. } => Some((left as int, right as int)),
        _ => None,
    }
}

/// The step that begins the two writes of `left` and `right` percent, or
/// ends the tick where they cannot be written.
pub open spec fn write_step(recovered: Option<FanModeFault>, left: int, right: int) -> TickStep {
    match fan_set_spec(left, right) {
        Ok((left_write, right_write)) => TickStep {
            recovered,
            error: None,
            next: Some(Pending { phase: TickPhase::LeftWrite { right_write }, command: left_write }),
        },
        Err(e) => TickStep { recovered, error: Some(TickError::Protocol(e)), next: None },
    }
}

/// The step that follows `reply` in `phase`.
pub open spec fn step_spec(
    phase: TickPhase,
    reply: i64,
    left_curve: Seq<FanPoint>,
    right_curve: Seq<FanPoint>,
) -> TickStep {
    match phase {
        TickPhase::CpuTemp => TickStep {
            recovered: None,
            error: None,
            next: Some(
                Pending {
                    phase: TickPhase::GpuTemp { cpu_reply: reply },
                    command: RegisterCommand::Read { address: GPU_TEMP },
                },
            ),
        },
        TickPhase::GpuTemp { cpu_reply } => match tick_spec(
            cpu_reply as int,
            reply as int,
            left_curve,
            right_curve,
        ) {
            Some((left, right)) => TickStep {
                recovered: None,
                error: None,
                next: Some(
                    Pending {
                        phase: TickPhase::ModeCheck { left: left as i128, right: right as i128 },
                        command: RegisterCommand::Read { address: FAN_MODE },
                    },
                ),
            },
            None => TickStep { recovered: None, error: None, next: None },
        },
        TickPhase::ModeCheck { left, right } => match fan_mode_fault_spec(reply as int) {
            Some(fault) => TickStep {
                recovered: None,
                error: None,
                next: Some(
                    Pending {
                        phase: TickPhase::ModeFix { fault, left, right },
                        command: RegisterCommand::Read { address: FAN_MODE },
                    },
                ),
            },
            None => write_step(None, left as int, right as int),
        },
        TickPhase::ModeFix { fault, left, right } => if reply - MODE_BASELINE == AUTO_SENTINEL {
            TickStep {
                recovered: None,
                error: None,
                next: Some(
                    Pending {
                        phase: TickPhase::ManualEnable { fault, left, right },
                        command: RegisterCommand::Write { address: FAN_MODE, data: MANUAL_ENABLE },
                    },
                ),
            }
        } else {
            write_step(Some(fault), left as int, right as int)
        },
        TickPhase::ManualEnable { fault, left, right } => write_step(
            Some(fault),
            left as int,
            right as int,
        ),
        TickPhase::LeftWrite { right_write } => TickStep {
            recovered: None,
            error: None,
            next: Some(Pending { phase: TickPhase::RightWrite, command: right_write }),
        },
        TickPhase::RightWrite => TickStep { recovered: None, error: None, next: None },
    }
}

/// The step that follows a transaction that failed or whose reply could
/// not be read: the tick is over, nothing more is sent, and the cause is
/// handed on. The next tick starts afresh.
pub open spec fn fail_spec(cause: TickError) -> TickStep {
    TickStep { recovered: None, error: Some(cause), next: None }
}

/// The step that follows the outcome of a transaction, be it a reply or a
/// failure.
pub open spec fn advance_spec(
    phase: TickPhase,
    outcome: Result<i64, TickError>,
    left_curve: Seq<FanPoint>,
    right_curve: Seq<FanPoint>,
) -> TickStep {
    match outcome {
        Ok(reply) => step_spec(phase, reply, left_curve, right_curve),
        Err(cause) => fail_spec(cause),
    }
}

/// The first phase of a tick and the transaction that opens it.
pub fn begin_tick() -> (start: Pending)
    ensures
        start == (Pending {
            phase: TickPhase::CpuTemp,
            command: RegisterCommand::Read { address: CPU_TEMP },
        }),
{
    Pending { phase: TickPhase::CpuTemp, command: RegisterCommand::Read { address: CPU_TEMP } }
}

fn begin_writes(recovered: Option<FanModeFault>, left: i128, right: i128) -> (step: TickStep)
    ensures
        step == write_step(recovered, left as int, right as int),
{
    match fan_set(left, right) {
        Ok((left_write, right_write)) => TickStep {
            recovered,
            error: None,
            next: Some(Pending { phase: TickPhase::LeftWrite { right_write }, command: left_write }),
        },
        Err(e) => TickStep { recovered, error: Some(TickError::Protocol(e)), next: None },
    }
}

impl TickPhase {
    /// Ends the tick after a transaction that failed, in whatever phase:
    /// no further command, and the cause as the error.
    pub fn fail(self, cause: TickError) -> (step: TickStep)
        ensures
            step == fail_spec(cause),
            step.next is None,
    {
        TickStep { recovered: None, error: Some(cause), next: None }
    }

    /// Takes the outcome of the transaction that this phase waits for: a
    /// reply leads to the next step, a failure ends the tick.
    pub fn advance(self, outcome: Result<i64, TickError>, curves: &FanData) -> (step: TickStep)
        ensures
            step == advance_spec(self, outcome, curves.left_fan@, curves.right_fan@),
            outcome is Err ==> step.next is None && step.error == Some(outcome->Err_0),
    {
        match outcome {
            Ok(reply) => self.step(reply, curves),
            Err(cause) => self.fail(cause),
        }
    }

    /// Takes the reply to the transaction that this phase waits for and
    /// says what comes next.
    pub fn step(self, reply: i64, curves: &FanData) -> (step: TickStep)
        ensures
            step == step_spec(self, reply, curves.left_fan@, curves.right_fan@),
    {
        match self {
            TickPhase::CpuTemp => TickStep {
                recovered: None,
                error: None,
                next: Some(
                    Pending {
                        phase: TickPhase::GpuTemp { cpu_reply: reply },
                        command: RegisterCommand::Read { address: GPU_TEMP },
                    },
                ),
            },
            TickPhase::GpuTemp { cpu_reply } => match decide_tick(cpu_reply, reply, curves) {
                TickAction::SetFans { left, right } => TickStep {
                    recovered: None,
                    error: None,
                    next: Some(Pending { phase: TickPhase::ModeCheck { left, right }, command: fan_mode_read() }),
                },
                TickAction::Hold => TickStep { recovered: None, error: None, next: None },
            },
            TickPhase::ModeCheck { left, right } => match fan_mode_fault(reply) {
                Some(fault) => TickStep {
                    recovered: None,
                    error: None,
                    next: Some(
                        Pending { phase: TickPhase::ModeFix { fault, left, right }, command: fan_mode_read() },
                    ),
                },
                None => begin_writes(None, left, right),
            },
            TickPhase::ModeFix { fault, left, right } => match fan_init(reply) {
                Some(fix) => TickStep {
                    recovered: None,
                    error: None,
                    next: Some(Pending { phase: TickPhase::ManualEnable { fault, left, right }, command: fix }),
                },
                None => begin_writes(Some(fault), left, right),
            },
            TickPhase::ManualEnable { fault, left, right } => begin_writes(
                Some(fault),
                left,
                right,
            ),
            TickPhase::LeftWrite { right_write } => TickStep {
                recovered: None,
                error: None,
                next: Some(Pending { phase: TickPhase::RightWrite, command: right_write }),
            },
            TickPhase::RightWrite => TickStep { recovered: None, error: None, next: None },
        }
    }
}

/// The commands of a tick that starts in `phase` with `command` under way
/// and meets `outcomes` one after the other: `command` itself, then what
/// each outcome leads to, until the tick is over or the outcomes run out.
pub open spec fn commands_from(
    phase: TickPhase,
    command: RegisterCommand,
    outcomes: Seq<Result<i64, TickError>>,
    left_curve: Seq<FanPoint>,
    right_curve: Seq<FanPoint>,
) -> Seq<RegisterCommand>
    decreases outcomes.len(),
{
    if outcomes.len() == 0 {
        seq![command]
    } else {
        match advance_spec(phase, outcomes[0], left_curve, right_curve).next {
            Some(next) => seq![command] + commands_from(
                next.phase,
                next.command,
                outcomes.subrange(1, outcomes.len() as int),
                left_curve,
                right_curve,
            ),
            None => seq![command],
        }
    }
}

/// Whether every transaction went through.
pub open spec fn all_replies(outcomes: Seq<Result<i64, TickError>>) -> bool {
    forall|i: int| 0 <= i < outcomes.len() ==> (#[trigger] outcomes[i]) is Ok
}

/// Whether a command writes a PWM register.
pub open spec fn is_pwm_write(command: RegisterCommand) -> bool {
    match command {
        RegisterCommand::Write { address, .. } => address == LEFT_PWM || address == RIGHT_PWM,
        RegisterCommand::Read { .. } => false,
    }
}

/// How many writes to a PWM register a run of commands holds.
pub open spec fn pwm_writes(commands: Seq<RegisterCommand>) -> nat
    decreases commands.len(),
{
    if commands.len() == 0 {
        0
    } else {
        pwm_writes(commands.subrange(1, commands.len() as int)) + (if is_pwm_write(commands[0]) {
            1nat
        } else {
            0nat
        })
    }
}

/// Whether `command` is the transaction that `phase` waits for.
pub open spec fn awaited(phase: TickPhase, command: RegisterCommand) -> bool {
    match phase {
        TickPhase::CpuTemp => command == (RegisterCommand::Read { address: CPU_TEMP }),
        TickPhase::GpuTemp { .. } => command == (RegisterCommand::Read { address: GPU_TEMP }),
        TickPhase::ModeCheck { .. } => command == (RegisterCommand::Read { address: FAN_MODE }),
        TickPhase::ModeFix { .. } => command == (RegisterCommand::Read { address: FAN_MODE }),
        TickPhase::ManualEnable { .. } => command == (RegisterCommand::Write {
            address: FAN_MODE,
            data: MANUAL_ENABLE,
        }),
        TickPhase::LeftWrite { right_write } => {
            &&& command is Write
            &&& command.spec_address() == LEFT_PWM
            &&& right_write is Write
            &&& right_write.spec_address() == RIGHT_PWM
        },
        TickPhase::RightWrite => command is Write && command.spec_address() == RIGHT_PWM,
    }
}

/// Whether a run of commands ends with the two given ones.
pub open spec fn ends_with(
    commands: Seq<RegisterCommand>,
    left_write: RegisterCommand,
    right_write: RegisterCommand,
) -> bool {
    &&& commands.len() >= 2
    &&& commands[commands.len() - 2] == left_write
    &&& commands[commands.len() - 1] == right_write
}

/// Every step brings the tick nearer to its end: a tick is over after
/// seven transactions at most.
pub proof fn lemma_step_descends(
    phase: TickPhase,
    outcome: Result<i64, TickError>,
    left_curve: Seq<FanPoint>,
    right_curve: Seq<FanPoint>,
)
    ensures
        advance_spec(phase, outcome, left_curve, right_curve).next matches Some(next)
            ==> remaining(next.phase) < remaining(phase),
{
}

/// Once a tick has decided on two percentages that can be written, no
/// reply of the fan-mode register keeps it from writing them: each step
/// either still carries the same percentages or begins the two writes, left
/// first, each carrying twice its percentage.
pub proof fn lemma_decided_speeds_are_written(
    phase: TickPhase,
    reply: i64,
    left_curve: Seq<FanPoint>,
    right_curve: Seq<FanPoint>,
)
    requires
        pending_speeds(phase) is Some,
        fan_set_spec(pending_speeds(phase)->Some_0.0, pending_speeds(phase)->Some_0.1) is Ok,
    ensures
        step_spec(phase, reply, left_curve, right_curve).error is None,
        step_spec(phase, reply, left_curve, right_curve).next is Some,
        ({
            let next = step_spec(phase, reply, left_curve, right_curve).next->Some_0;
            let writes = fan_set_spec(
                pending_speeds(phase)->Some_0.0,
                pending_speeds(phase)->Some_0.1,
            )->Ok_0;
            pending_speeds(next.phase) == pending_speeds(phase) || (next.phase == (
            TickPhase::LeftWrite { right_write: writes.1 }) && next.command == writes.0)
        }),
{
}

/// Above the limit on either sensor the tick goes on to write both fans at
/// full speed, whatever the curves hold.
pub proof fn lemma_overheat_step(
    cpu_reply: i64,
    gpu_reply: i64,
    left_curve: Seq<FanPoint>,
    right_curve: Seq<FanPoint>,
)
    requires
        cpu_reply > crate::control::OVERHEAT_LIMIT || crate::control::low_byte_spec(
            gpu_reply as int,
        ) > crate::control::OVERHEAT_LIMIT,
    ensures
        step_spec(TickPhase::GpuTemp { cpu_reply }, gpu_reply, left_curve, right_curve).next
            == Some(
            Pending {
                phase: TickPhase::ModeCheck { left: 100, right: 100 },
                command: RegisterCommand::Read { address: FAN_MODE },
            },
        ),
{
}

/// Each step asks for the transaction that its next phase waits for.
pub proof fn lemma_step_awaited(
    phase: TickPhase,
    command: RegisterCommand,
    outcome: Result<i64, TickError>,
    left_curve: Seq<FanPoint>,
    right_curve: Seq<FanPoint>,
)
    requires
        awaited(phase, command),
    ensures
        advance_spec(phase, outcome, left_curve, right_curve).next matches Some(next)
            ==> awaited(next.phase, next.command),
{
}

proof fn lemma_commands_unfold(
    phase: TickPhase,
    command: RegisterCommand,
    outcomes: Seq<Result<i64, TickError>>,
    left_curve: Seq<FanPoint>,
    right_curve: Seq<FanPoint>,
)
    ensures
        commands_from(phase, command, outcomes, left_curve, right_curve).len() >= 1,
        commands_from(phase, command, outcomes, left_curve, right_curve)[0] == command,
        pwm_writes(commands_from(phase, command, outcomes, left_curve, right_curve))
            == pwm_writes(
            commands_from(phase, command, outcomes, left_curve, right_curve).subrange(
                1,
                commands_from(phase, command, outcomes, left_curve, right_curve).len() as int,
            ),
        ) + (if is_pwm_write(command) {
            1nat
        } else {
            0nat
        }),
        outcomes.len() > 0 && advance_spec(phase, outcomes[0], left_curve, right_curve).next
            is Some ==> commands_from(phase, command, outcomes, left_curve, right_curve).subrange(
            1,
            commands_from(phase, command, outcomes, left_curve, right_curve).len() as int,
        ) == commands_from(
            advance_spec(phase, outcomes[0], left_curve, right_curve).next->Some_0.phase,
            advance_spec(phase, outcomes[0], left_curve, right_curve).next->Some_0.command,
            outcomes.subrange(1, outcomes.len() as int),
            left_curve,
            right_curve,
        ),
        outcomes.len() == 0 || advance_spec(phase, outcomes[0], left_curve, right_curve).next
            is None ==> commands_from(phase, command, outcomes, left_curve, right_curve)
            == seq![command],
{
    let all = commands_from(phase, command, outcomes, left_curve, right_curve);
    if outcomes.len() > 0 && advance_spec(phase, outcomes[0], left_curve, right_curve).next
        is Some {
        let next = advance_spec(phase, outcomes[0], left_curve, right_curve).next->Some_0;
        let tail = commands_from(
            next.phase,
            next.command,
            outcomes.subrange(1, outcomes.len() as int),
            left_curve,
            right_curve,
        );
        assert(all == seq![command] + tail);
        assert(all.subrange(1, all.len() as int) =~= tail);
    } else {
        assert(all == seq![command]);
        assert(all.subrange(1, all.len() as int) =~= Seq::<RegisterCommand>::empty());
    }
}

/// A transaction that fails ends the tick: the command that failed is the
/// last one, whatever phase the tick was in and whatever would have come.
pub proof fn lemma_failure_ends_tick(
    phase: TickPhase,
    command: RegisterCommand,
    outcomes: Seq<Result<i64, TickError>>,
    left_curve: Seq<FanPoint>,
    right_curve: Seq<FanPoint>,
)
    requires
        outcomes.len() >= 1,
        outcomes[0] is Err,
    ensures
        commands_from(phase, command, outcomes, left_curve, right_curve) == seq![command],
        advance_spec(phase, outcomes[0], left_curve, right_curve).error == Some(
            outcomes[0]->Err_0,
        ),
{
}

/// A tick takes seven transactions at most, whether they go through or
/// not.
pub proof fn lemma_tick_length(
    phase: TickPhase,
    command: RegisterCommand,
    outcomes: Seq<Result<i64, TickError>>,
    left_curve: Seq<FanPoint>,
    right_curve: Seq<FanPoint>,
)
    ensures
        1 <= commands_from(phase, command, outcomes, left_curve, right_curve).len() <= remaining(
            phase,
        ) + 1,
    decreases outcomes.len(),
{
    lemma_commands_unfold(phase, command, outcomes, left_curve, right_curve);
    if outcomes.len() > 0 && advance_spec(phase, outcomes[0], left_curve, right_curve).next
        is Some {
        let next = advance_spec(phase, outcomes[0], left_curve, right_curve).next->Some_0;
        lemma_step_descends(phase, outcomes[0], left_curve, right_curve);
        lemma_tick_length(
            next.phase,
            next.command,
            outcomes.subrange(1, outcomes.len() as int),
            left_curve,
            right_curve,
        );
    }
}

/// A tick writes each fan once at most: whatever the outcomes, its
/// commands hold no more than two writes to the PWM registers.
pub proof fn lemma_one_fan_write_per_tick(
    phase: TickPhase,
    command: RegisterCommand,
    outcomes: Seq<Result<i64, TickError>>,
    left_curve: Seq<FanPoint>,
    right_curve: Seq<FanPoint>,
)
    requires
        awaited(phase, command),
    ensures
        pwm_writes(commands_from(phase, command, outcomes, left_curve, right_curve)) <= (
        if phase == TickPhase::RightWrite {
            1nat
        } else {
            2nat
        }),
    decreases outcomes.len(),
{
    lemma_commands_unfold(phase, command, outcomes, left_curve, right_curve);
    if outcomes.len() > 0 && advance_spec(phase, outcomes[0], left_curve, right_curve).next
        is Some {
        let next = advance_spec(phase, outcomes[0], left_curve, right_curve).next->Some_0;
        lemma_step_awaited(phase, command, outcomes[0], left_curve, right_curve);
        lemma_one_fan_write_per_tick(
            next.phase,
            next.command,
            outcomes.subrange(1, outcomes.len() as int),
            left_curve,
            right_curve,
        );
    } else {
        assert(pwm_writes(Seq::<RegisterCommand>::empty()) == 0);
    }
}

/// Once the left write is under way and goes through, the right write
/// follows and the tick is over.
pub proof fn lemma_writes_complete(
    left_write: RegisterCommand,
    right_write: RegisterCommand,
    outcomes: Seq<Result<i64, TickError>>,
    left_curve: Seq<FanPoint>,
    right_curve: Seq<FanPoint>,
)
    requires
        outcomes.len() >= 1,
        outcomes[0] is Ok,
    ensures
        commands_from(
            TickPhase::LeftWrite { right_write },
            left_write,
            outcomes,
            left_curve,
            right_curve,
        ) == seq![left_write, right_write],
{
    let rest = outcomes.subrange(1, outcomes.len() as int);
    lemma_commands_unfold(TickPhase::RightWrite, right_write, rest, left_curve, right_curve);
    assert(seq![left_write] + seq![right_write] =~= seq![left_write, right_write]);
}

/// Once a tick has decided on two percentages that can be written, and
/// every transaction goes through, its commands end with the two writes,
/// left first, each carrying twice its percentage.
pub proof fn lemma_decided_tick_ends_with_writes(
    phase: TickPhase,
    command: RegisterCommand,
    outcomes: Seq<Result<i64, TickError>>,
    left_curve: Seq<FanPoint>,
    right_curve: Seq<FanPoint>,
)
    requires
        pending_speeds(phase) is Some,
        fan_set_spec(pending_speeds(phase)->Some_0.0, pending_speeds(phase)->Some_0.1) is Ok,
        outcomes.len() >= remaining(phase),
        all_replies(outcomes),
    ensures
        ends_with(
            commands_from(phase, command, outcomes, left_curve, right_curve),
            fan_set_spec(pending_speeds(phase)->Some_0.0, pending_speeds(phase)->Some_0.1)->Ok_0.0,
            fan_set_spec(pending_speeds(phase)->Some_0.0, pending_speeds(phase)->Some_0.1)->Ok_0.1,
        ),
    decreases outcomes.len(),
{
    let writes = fan_set_spec(pending_speeds(phase)->Some_0.0, pending_speeds(phase)->Some_0.1)->Ok_0;
    let rest = outcomes.subrange(1, outcomes.len() as int);
    assert(outcomes[0] is Ok);
    let reply = outcomes[0]->Ok_0;
    assert(all_replies(rest)) by {
        assert forall|i: int| 0 <= i < rest.len() implies (#[trigger] rest[i]) is Ok by {
            assert(rest[i] == outcomes[i + 1]);
        }
    }
    lemma_decided_speeds_are_written(phase, reply, left_curve, right_curve);
    lemma_step_descends(phase, outcomes[0], left_curve, right_curve);
    let next = step_spec(phase, reply, left_curve, right_curve).next->Some_0;
    let tail = commands_from(next.phase, next.command, rest, left_curve, right_curve);
    if next.phase == (TickPhase::LeftWrite { right_write: writes.1 }) && next.command == writes.0 {
        assert(rest[0] == outcomes[1]);
        lemma_writes_complete(writes.0, writes.1, rest, left_curve, right_curve);
    } else {
        lemma_decided_tick_ends_with_writes(next.phase, next.command, rest, left_curve, right_curve);
    }
    let all = commands_from(phase, command, outcomes, left_curve, right_curve);
    assert(all == seq![command] + tail);
    assert(all[all.len() - 2] == tail[tail.len() - 2]);
    assert(all[all.len() - 1] == tail[tail.len() - 1]);
}

/// A whole tick in which every transaction goes through, from its first
/// read on. Where the decision is to hold, the tick is the two temperature
/// reads and nothing else. Where it is to set the fans and the percentages
/// can be written, the tick ends with the two writes. Either way it holds
/// no write of a PWM register beyond those.
pub proof fn lemma_tick_outcome(
    outcomes: Seq<Result<i64, TickError>>,
    left_curve: Seq<FanPoint>,
    right_curve: Seq<FanPoint>,
)
    requires
        outcomes.len() >= 6,
        all_replies(outcomes),
    ensures
        ({
            let commands = commands_from(
                TickPhase::CpuTemp,
                RegisterCommand::Read { address: CPU_TEMP },
                outcomes,
                left_curve,
                right_curve,
            );
            match tick_spec(
                outcomes[0]->Ok_0 as int,
                outcomes[1]->Ok_0 as int,
                left_curve,
                right_curve,
            ) {
                None => commands == seq![
                    RegisterCommand::Read { address: CPU_TEMP },
                    RegisterCommand::Read { address: GPU_TEMP },
                ],
                Some((left, right)) => {
                    &&& pwm_writes(commands) <= 2
                    &&& fan_set_spec(left, right) matches Ok(writes) ==> ends_with(
                        commands,
                        writes.0,
                        writes.1,
                    )
                },
            }
        }),
{
    let read_cpu = RegisterCommand::Read { address: CPU_TEMP };
    let read_gpu = RegisterCommand::Read { address: GPU_TEMP };
    let commands = commands_from(TickPhase::CpuTemp, read_cpu, outcomes, left_curve, right_curve);
    let rest1 = outcomes.subrange(1, outcomes.len() as int);
    let rest2 = rest1.subrange(1, rest1.len() as int);
    assert(outcomes[0] is Ok && outcomes[1] is Ok);
    let cpu = outcomes[0]->Ok_0;
    let gpu = outcomes[1]->Ok_0;
    let gpu_phase = TickPhase::GpuTemp { cpu_reply: cpu };
    let after_cpu = commands_from(gpu_phase, read_gpu, rest1, left_curve, right_curve);
    assert(rest1[0] == outcomes[1]);
    assert(commands == seq![read_cpu] + after_cpu);
    assert(all_replies(rest2)) by {
        assert forall|i: int| 0 <= i < rest2.len() implies (#[trigger] rest2[i]) is Ok by {
            assert(rest2[i] == outcomes[i + 2]);
        }
    }
    lemma_one_fan_write_per_tick(TickPhase::CpuTemp, read_cpu, outcomes, left_curve, right_curve);
    match tick_spec(cpu as int, gpu as int, left_curve, right_curve) {
        None => {
            assert(after_cpu == seq![read_gpu]);
            assert(seq![read_cpu] + seq![read_gpu] =~= seq![read_cpu, read_gpu]);
        },
        Some((left, right)) => {
            let mode_phase = TickPhase::ModeCheck { left: left as i128, right: right as i128 };
            let read_mode = RegisterCommand::Read { address: FAN_MODE };
            let after_gpu = commands_from(mode_phase, read_mode, rest2, left_curve, right_curve);
            assert(after_cpu == seq![read_gpu] + after_gpu);
            crate::control::lemma_tick_speeds_fit(cpu as int, gpu as int, left_curve, right_curve);
            if fan_set_spec(left, right) is Ok {
                lemma_decided_tick_ends_with_writes(
                    mode_phase,
                    read_mode,
                    rest2,
                    left_curve,
                    right_curve,
                );
                assert(commands[commands.len() - 2] == after_gpu[after_gpu.len() - 2]);
                assert(commands[commands.len() - 1] == after_gpu[after_gpu.len() - 1]);
            }
        },
    }
}

/// Above the limit on either sensor, whatever the curves hold and whatever
/// the fan-mode register replies, a tick in which every transaction goes
/// through ends with the writes of 200, twice the full percentage, to the
/// left and to the right PWM register.
pub proof fn lemma_overheat_tick(
    outcomes: Seq<Result<i64, TickError>>,
    left_curve: Seq<FanPoint>,
    right_curve: Seq<FanPoint>,
)
    requires
        outcomes.len() >= 6,
        all_replies(outcomes),
        outcomes[0]->Ok_0 > crate::control::OVERHEAT_LIMIT || crate::control::low_byte_spec(
            outcomes[1]->Ok_0 as int,
        ) > crate::control::OVERHEAT_LIMIT,
    ensures
        ends_with(
            commands_from(
                TickPhase::CpuTemp,
                RegisterCommand::Read { address: CPU_TEMP },
                outcomes,
                left_curve,
                right_curve,
            ),
            RegisterCommand::Write { address: LEFT_PWM, data: 200 },
            RegisterCommand::Write { address: RIGHT_PWM, data: 200 },
        ),
{
    lemma_tick_outcome(outcomes, left_curve, right_curve);
    crate::control::lemma_overheat_full_speed(
        outcomes[0]->Ok_0 as int,
        outcomes[1]->Ok_0 as int,
        left_curve,
        right_curve,
    );
}

} // verus!
