use nuc_fan_control::control::FanModeFault;
use nuc_fan_control::curve::{FanData, FanPoint};
use nuc_fan_control::register::{ProtocolError, RegisterCommand};
use nuc_fan_control::tick::{begin_tick, Pending, TickError, TickPhase};

const READ_CPU: RegisterCommand = RegisterCommand::Read { address: 0x043E };
const READ_GPU: RegisterCommand = RegisterCommand::Read { address: 0x044F };
const READ_MODE: RegisterCommand = RegisterCommand::Read { address: 0x0751 };
const MANUAL: RegisterCommand = RegisterCommand::Write { address: 0x0751, data: 0x40 };

fn left(data: u8) -> RegisterCommand {
    RegisterCommand::Write { address: 0x1809, data }
}

fn right(data: u8) -> RegisterCommand {
    RegisterCommand::Write { address: 0x1804, data }
}

fn point(temperature: i32, speed: i32) -> FanPoint {
    FanPoint { temperature, speed }
}

fn curves() -> FanData {
    FanData {
        left_fan: vec![point(40, 20), point(60, 50), point(80, 100)],
        right_fan: vec![point(30, 10), point(70, 90)],
    }
}

struct Run {
    commands: Vec<RegisterCommand>,
    recovered: Vec<FanModeFault>,
    errors: Vec<TickError>,
}

/// Drives one tick: reads give the sensor values, the fan-mode register gives
/// `mode_replies` in turn, writes reply with zero.
fn run_tick(cpu: i64, gpu: i64, mode_replies: &[i64], curves: &FanData) -> Run {
    let mut run = Run { commands: vec![], recovered: vec![], errors: vec![] };
    let mut modes = mode_replies.iter();
    let mut pending = begin_tick();
    loop {
        run.commands.push(pending.command);
        let reply: i64 = match pending.command {
            RegisterCommand::Read { address: 0x043E } => cpu,
            RegisterCommand::Read { address: 0x044F } => gpu,
            RegisterCommand::Read { address: 0x0751 } => *modes.next().unwrap(),
            _ => 0,
        };
        let step = pending.phase.step(reply, curves);
        if let Some(fault) = step.recovered {
            run.recovered.push(fault);
        }
        if let Some(e) = step.error {
            run.errors.push(e);
        }
        match step.next {
            Some(next) => pending = next,
            None => break,
        }
        assert!(run.commands.len() <= 7);
    }
    run
}

#[test]
fn tick_begins_with_the_cpu_read() {
    assert_eq!(begin_tick(), Pending { phase: TickPhase::CpuTemp, command: READ_CPU });
    let step = TickPhase::CpuTemp.step(50, &curves());
    assert_eq!(step.recovered, None);
    assert_eq!(step.error, None);
    assert_eq!(
        step.next,
        Some(Pending { phase: TickPhase::GpuTemp { cpu_reply: 50 }, command: READ_GPU })
    );
}

#[test]
fn healthy_tick_reads_checks_and_writes() {
    let run = run_tick(50, 50, &[27728], &curves());
    assert_eq!(run.commands, vec![READ_CPU, READ_GPU, READ_MODE, left(68), right(98)]);
    assert!(run.recovered.is_empty());
    assert!(run.errors.is_empty());
}

#[test]
fn tick_without_bracket_only_reads() {
    let run = run_tick(81, 50, &[], &curves());
    assert_eq!(run.commands, vec![READ_CPU, READ_GPU]);
    let run = run_tick(50, 71, &[], &curves());
    assert_eq!(run.commands, vec![READ_CPU, READ_GPU]);
    assert!(run.errors.is_empty());
}

#[test]
fn overheat_tick_writes_full_speed_whatever_the_curves() {
    let empty = FanData { left_fan: vec![], right_fan: vec![] };
    let expected = vec![READ_CPU, READ_GPU, READ_MODE, left(200), right(200)];
    assert_eq!(run_tick(96, 40, &[0], &empty).commands, expected);
    assert_eq!(run_tick(40, 96, &[0], &empty).commands, expected);
    assert_eq!(run_tick(40, 0x0260, &[0], &curves()).commands, expected);
    assert_eq!(run_tick(i64::MAX, i64::MIN, &[0], &curves()).commands, expected);
}

#[test]
fn overheat_tick_writes_full_speed_through_a_recovery() {
    let run = run_tick(120, 40, &[27664, 27664], &curves());
    assert_eq!(
        run.commands,
        vec![READ_CPU, READ_GPU, READ_MODE, READ_MODE, MANUAL, left(200), right(200)]
    );
    assert_eq!(run.recovered, vec![FanModeFault::AutomaticControl]);
}

#[test]
fn automatic_control_is_taken_back_before_the_writes() {
    let run = run_tick(50, 50, &[27664, 27664], &curves());
    assert_eq!(
        run.commands,
        vec![READ_CPU, READ_GPU, READ_MODE, READ_MODE, MANUAL, left(68), right(98)]
    );
    assert_eq!(run.recovered, vec![FanModeFault::AutomaticControl]);
    assert!(run.errors.is_empty());
}

#[test]
fn abnormal_state_is_reported_and_the_fix_sends_nothing() {
    let run = run_tick(50, 50, &[27648, 27648], &curves());
    assert_eq!(run.commands, vec![READ_CPU, READ_GPU, READ_MODE, READ_MODE, left(68), right(98)]);
    assert_eq!(run.recovered, vec![FanModeFault::Abnormal]);
}

#[test]
fn fix_goes_by_its_own_reading_of_the_register() {
    let run = run_tick(50, 50, &[27648, 27664], &curves());
    assert_eq!(
        run.commands,
        vec![READ_CPU, READ_GPU, READ_MODE, READ_MODE, MANUAL, left(68), right(98)]
    );
    assert_eq!(run.recovered, vec![FanModeFault::Abnormal]);
    let run = run_tick(50, 50, &[27664, 27728], &curves());
    assert_eq!(run.commands, vec![READ_CPU, READ_GPU, READ_MODE, READ_MODE, left(68), right(98)]);
    assert_eq!(run.recovered, vec![FanModeFault::AutomaticControl]);
}

#[test]
fn speed_that_fits_no_byte_ends_the_tick_without_writes() {
    let wild = FanData { left_fan: vec![point(40, 20), point(60, 500)], right_fan: vec![point(90, 50)] };
    let run = run_tick(59, 50, &[27728], &wild);
    assert_eq!(run.commands, vec![READ_CPU, READ_GPU, READ_MODE]);
    assert_eq!(run.errors, vec![TickError::Protocol(ProtocolError::ValueOutOfRange)]);
    let run = run_tick(-5, 50, &[27664, 27664], &curves());
    assert_eq!(run.commands, vec![READ_CPU, READ_GPU, READ_MODE, READ_MODE, MANUAL]);
    assert_eq!(run.errors, vec![TickError::Protocol(ProtocolError::ValueOutOfRange)]);
    assert_eq!(run.recovered, vec![FanModeFault::AutomaticControl]);
}

#[test]
fn write_phases_pass_the_right_write_on() {
    let step = TickPhase::LeftWrite { right_write: right(98) }.step(12345, &curves());
    assert_eq!(step.next, Some(Pending { phase: TickPhase::RightWrite, command: right(98) }));
    let step = TickPhase::RightWrite.step(-1, &curves());
    assert_eq!(step.next, None);
    assert_eq!(step.error, None);
    assert_eq!(step.recovered, None);
}

#[test]
fn failed_transaction_ends_the_tick_in_every_phase() {
    let phases = [
        TickPhase::CpuTemp,
        TickPhase::GpuTemp { cpu_reply: 50 },
        TickPhase::ModeCheck { left: 34, right: 49 },
        TickPhase::ModeFix { fault: FanModeFault::Abnormal, left: 34, right: 49 },
        TickPhase::ManualEnable { fault: FanModeFault::AutomaticControl, left: 34, right: 49 },
        TickPhase::LeftWrite { right_write: right(98) },
        TickPhase::RightWrite,
    ];
    let causes =
        [TickError::TransactionFailed, TickError::Protocol(ProtocolError::MalformedReply)];
    for phase in phases {
        for cause in causes {
            let step = phase.advance(Err(cause), &curves());
            assert_eq!(step.next, None);
            assert_eq!(step.error, Some(cause));
            assert_eq!(step.recovered, None);
            assert_eq!(phase.fail(cause), step);
        }
    }
}

#[test]
fn advance_with_a_reply_is_the_step() {
    let phase = TickPhase::GpuTemp { cpu_reply: 50 };
    assert_eq!(phase.advance(Ok(50), &curves()), phase.step(50, &curves()));
    assert_eq!(
        phase.advance(Ok(50), &curves()).next,
        Some(Pending { phase: TickPhase::ModeCheck { left: 34, right: 49 }, command: READ_MODE })
    );
}

#[test]
fn tick_after_a_failed_one_starts_afresh() {
    let failed = TickPhase::GpuTemp { cpu_reply: 50 }.advance(Err(TickError::TransactionFailed), &curves());
    assert_eq!(failed.next, None);
    let run = run_tick(50, 50, &[27728], &curves());
    assert_eq!(run.commands, vec![READ_CPU, READ_GPU, READ_MODE, left(68), right(98)]);
}

#[test]
fn words_of_a_tick_are_those_of_the_vendor_layout() {
    let two = FanData {
        left_fan: vec![point(40, 20), point(60, 50)],
        right_fan: vec![point(40, 20), point(60, 50)],
    };
    let words = |run: &Run| -> Vec<u64> { run.commands.iter().map(|c| c.encode()).collect() };
    assert_eq!(words(&run_tick(70, 30, &[], &two)), vec![0x1000000043E, 0x1000000044F]);
    assert_eq!(
        words(&run_tick(96, 30, &[27728], &two)),
        vec![0x1000000043E, 0x1000000044F, 0x10000000751, 0xC81809, 0xC81804]
    );
    assert_eq!(
        words(&run_tick(41, 41, &[27728], &two)),
        vec![0x1000000043E, 0x1000000044F, 0x10000000751, 0x2A1809, 0x2A1804]
    );
    assert_eq!(
        words(&run_tick(30, 30, &[27728], &two)),
        vec![0x1000000043E, 0x1000000044F, 0x10000000751, 0x1C1809, 0x1C1804]
    );
    let one = FanData { left_fan: vec![point(100, 50)], right_fan: vec![point(100, 50)] };
    assert_eq!(
        words(&run_tick(50, 0x15A, &[27728], &one)),
        vec![0x1000000043E, 0x1000000044F, 0x10000000751, 0x301809, 0x581804]
    );
    assert_eq!(
        words(&run_tick(95, 95, &[27728], &one)),
        vec![0x1000000043E, 0x1000000044F, 0x10000000751, 0x5E1809, 0x5E1804]
    );
    assert_eq!(
        words(&run_tick(50, 50, &[27664, 27664], &two)),
        vec![
            0x1000000043E,
            0x1000000044F,
            0x10000000751,
            0x10000000751,
            0x400751,
            0x441809,
            0x441804
        ]
    );
}
