//! The register command protocol: how a logical command is laid out in the
//! 64-bit word that the vendor control method takes.

use vstd::prelude::*;

verus! {

/// CPU temperature sensor.
pub const CPU_TEMP: u16 = 0x043E;

/// GPU temperature sensor.
pub const GPU_TEMP: u16 = 0x044F;

/// Left fan tachometer, high byte.
pub const LEFT_TACH_HIGH: u16 = 0x046C;

/// Left fan tachometer, low byte.
pub const LEFT_TACH_LOW: u16 = 0x046D;

/// Right fan tachometer, high byte.
pub const RIGHT_TACH_HIGH: u16 = 0x0464;

/// Right fan tachometer, low byte.
pub const RIGHT_TACH_LOW: u16 = 0x0465;

/// Fan-mode flag register.
pub const FAN_MODE: u16 = 0x0751;

/// Left fan PWM duty.
pub const LEFT_PWM: u16 = 0x1809;

/// Right fan PWM duty.
pub const RIGHT_PWM: u16 = 0x1804;

/// First CPU power limit.
pub const CPU_POWER_1: u16 = 0x0783;

/// Second CPU power limit.
pub const CPU_POWER_2: u16 = 0x0784;

/// First GPU power limit.
pub const GPU_POWER_1: u16 = 0x073D;

/// Second GPU power limit.
pub const GPU_POWER_2: u16 = 0x0733;

/// Thermal trip point.
pub const THERMAL_TRIP: u16 = 0x0786;

/// Value of the mode-flag byte that selects a read.
pub const READ_FLAG: u8 = 0x01;

/// Weight of the mode flag in the command word: the flag is the third of
/// the word's eight bytes in big-endian order, bits 40 to 47.
pub const MODE_UNIT: u64 = 0x100_0000_0000;

/// Weight of the data byte in the command word: the data is the sixth of
/// the word's eight bytes in big-endian order, bits 16 to 23.
pub const DATA_UNIT: u64 = 0x1_0000;

/// Direction of a register transaction.
#[derive(Clone, Copy, PartialEq, Eq, Structural, Debug)]
pub enum Mode {
    Read,
    Write,
}

/// Why a command or a reply could not be understood.
#[derive(Clone, Copy, PartialEq, Eq, Structural, Debug)]
pub enum ProtocolError {
    /// A command string is not `0x` followed by hexadecimal digits that fit
    /// in 64 bits, or its word sets bits outside the command layout.
    MalformedCommand,
    /// A reply is not a signed decimal number that fits in 64 bits.
    MalformedReply,
    /// A value that must travel in the data byte does not fit in 0..=255.
    ValueOutOfRange,
}

/// One register transaction: read a register, or store a byte into it.
#[derive(Clone, Copy, PartialEq, Eq, Structural, Debug)]
pub enum RegisterCommand {
    Read { address: u16 },
    Write { address: u16, data: u8 },
}

/// Byte `index` of `word`, counted from the least significant byte.
pub open spec fn byte_at(word: int, index: nat) -> int
    decreases index,
{
    if index == 0 {
        word % 256
    } else {
        byte_at(word / 256, (index - 1) as nat)
    }
}

/// The command word. Written as eight bytes in big-endian order, it holds
/// the mode flag at offset 2, the data byte at offset 5 and the address in
/// the last two bytes; every other byte is zero. Counted from the least
/// significant byte, as `byte_at` counts, these are bytes 5, 2, 1 and 0.
pub open spec fn command_word(mode: Mode, address: int, data: int) -> int {
    match mode {
        Mode::Read => 0x100_0000_0000 + address,
        Mode::Write => 0x1_0000 * data + address,
    }
}

/// What a command word means to the receiver, if it keeps to the layout.
pub open spec fn decode_word(word: int) -> Result<RegisterCommand, ProtocolError> {
    let address = word % 0x1_0000;
    let data = (word / 0x1_0000) % 0x100;
    let middle = (word / 0x100_0000) % 0x1_0000;
    let flag = (word / 0x100_0000_0000) % 0x100;
    let top = word / 0x1_0000_0000_0000;
    if middle != 0 || top != 0 {
        Err(ProtocolError::MalformedCommand)
    } else if flag == 1 {
        Ok(RegisterCommand::Read { address: address as u16 })
    } else if flag == 0 {
        Ok(RegisterCommand::Write { address: address as u16, data: data as u8 })
    } else {
        Err(ProtocolError::MalformedCommand)
    }
}

impl RegisterCommand {
    pub open spec fn spec_mode(&self) -> Mode {
        match *self {
            RegisterCommand::Read { .. } => Mode::Read,
            RegisterCommand::Write { .. } => Mode::Write,
        }
    }

    pub open spec fn spec_address(&self) -> u16 {
        match *self {
            RegisterCommand::Read { address } => address,
            RegisterCommand::Write { address, .. } => address,
        }
    }

    /// The payload; a read carries none, which reads as zero.
    pub open spec fn spec_data(&self) -> u8 {
        match *self {
            RegisterCommand::Read { .. } => 0u8,
            RegisterCommand::Write { data, .. } => data,
        }
    }

    /// The word that stands for this command.
    pub open spec fn word(&self) -> int {
        command_word(self.spec_mode(), self.spec_address() as int, self.spec_data() as int)
    }

    #[verifier::when_used_as_spec(spec_mode)]
    pub fn mode(&self) -> (m: Mode)
        ensures
            m == self.spec_mode(),
    {
        match self {
            RegisterCommand::Read { .. } => Mode::Read,
            RegisterCommand::Write { .. } => Mode::Write,
        }
    }

    #[verifier::when_used_as_spec(spec_address)]
    pub fn address(&self) -> (a: u16)
        ensures
            a == self.spec_address(),
    {
        match self {
            RegisterCommand::Read { address } => *address,
            RegisterCommand::Write { address, .. } => *address,
        }
    }

    #[verifier::when_used_as_spec(spec_data)]
    pub fn data(&self) -> (d: u8)
        ensures
            d == self.spec_data(),
    {
        match self {
            RegisterCommand::Read { .. } => 0,
            RegisterCommand::Write { data, .. } => *data,
        }
    }

    /// Lays the command out in its 64-bit word.
    pub fn encode(&self) -> (word: u64)
        ensures
            word == self.word(),
    {
        match self {
            RegisterCommand::Read { address } => MODE_UNIT + (*address as u64),
            RegisterCommand::Write { address, data } => {
                DATA_UNIT * (*data as u64) + (*address as u64)
            },
        }
    }

    /// Reads a command back out of a word. Fails exactly on words that set a
    /// byte the layout leaves zero or a mode flag other than 0 and 1; the
    /// data byte of a read is ignored, as the receiver ignores it.
    pub fn decode(word: u64) -> (r: Result<RegisterCommand, ProtocolError>)
        ensures
            r == decode_word(word as int),
    {
        let address: u64 = word % 0x1_0000;
        let data: u64 = (word / 0x1_0000) % 0x100;
        let middle: u64 = (word / 0x100_0000) % 0x1_0000;
        let flag: u64 = (word / 0x100_0000_0000) % 0x100;
        let top: u64 = word / 0x1_0000_0000_0000;
        if middle != 0 || top != 0 {
            Err(ProtocolError::MalformedCommand)
        } else if flag == 1 {
            Ok(RegisterCommand::Read { address: address as u16 })
        } else if flag == 0 {
            Ok(RegisterCommand::Write { address: address as u16, data: data as u8 })
        } else {
            Err(ProtocolError::MalformedCommand)
        }
    }
}

/// Every command survives a trip through its word.
pub proof fn lemma_decode_encode(cmd: RegisterCommand)
    ensures
        0 <= cmd.word() <= u64::MAX,
        decode_word(cmd.word()) == Ok::<RegisterCommand, ProtocolError>(cmd),
{
}

/// The bytes of a command word, one by one, counted from the least
/// significant: address in bytes 0 and 1, the data in byte 2, the mode flag
/// in byte 5, zero everywhere else.
pub proof fn lemma_word_layout(cmd: RegisterCommand)
    ensures
        byte_at(cmd.word(), 0) + 256 * byte_at(cmd.word(), 1) == cmd.spec_address(),
        byte_at(cmd.word(), 2) == cmd.spec_data(),
        byte_at(cmd.word(), 3) == 0,
        byte_at(cmd.word(), 4) == 0,
        byte_at(cmd.word(), 5) == (if cmd.spec_mode() == Mode::Read { 1int } else { 0int }),
        byte_at(cmd.word(), 6) == 0,
        byte_at(cmd.word(), 7) == 0,
{
    lemma_bytes_of_word(cmd.word());
}

/// Each byte of a 64-bit word as a quotient and a remainder.
pub proof fn lemma_bytes_of_word(word: int)
    requires
        0 <= word <= u64::MAX,
    ensures
        byte_at(word, 0) == word % 0x100,
        byte_at(word, 1) == (word / 0x100) % 0x100,
        byte_at(word, 2) == (word / 0x1_0000) % 0x100,
        byte_at(word, 3) == (word / 0x100_0000) % 0x100,
        byte_at(word, 4) == (word / 0x1_0000_0000) % 0x100,
        byte_at(word, 5) == (word / 0x100_0000_0000) % 0x100,
        byte_at(word, 6) == (word / 0x1_0000_0000_0000) % 0x100,
        byte_at(word, 7) == (word / 0x100_0000_0000_0000) % 0x100,
{
    let w1 = word / 0x100;
    let w2 = w1 / 0x100;
    let w3 = w2 / 0x100;
    let w4 = w3 / 0x100;
    let w5 = w4 / 0x100;
    let w6 = w5 / 0x100;
    let w7 = w6 / 0x100;
    assert(w2 == word / 0x1_0000);
    assert(w3 == word / 0x100_0000);
    assert(w4 == word / 0x1_0000_0000);
    assert(w5 == word / 0x100_0000_0000);
    assert(w6 == word / 0x1_0000_0000_0000);
    assert(w7 == word / 0x100_0000_0000_0000);
    assert(byte_at(word, 0) == word % 0x100);
    assert(byte_at(w7, 0) == w7 % 0x100);
    assert(byte_at(w6, 1) == byte_at(w7, 0));
    assert(byte_at(w5, 2) == byte_at(w6, 1));
    assert(byte_at(w4, 3) == byte_at(w5, 2));
    assert(byte_at(w3, 4) == byte_at(w4, 3));
    assert(byte_at(w2, 5) == byte_at(w3, 4));
    assert(byte_at(w1, 6) == byte_at(w2, 5));
    assert(byte_at(word, 7) == byte_at(w1, 6));
    reveal_with_fuel(byte_at, 7);
}

/// Which words are commands, byte by byte: bytes 3, 4, 6 and 7 are zero
/// and the mode flag, byte 5, is 0 or 1. The command then has its address
/// from bytes 0 and 1, and a write has its data from byte 2.
pub proof fn lemma_decode_layout(word: u64)
    ensures
        decode_word(word as int) is Ok <==> (byte_at(word as int, 5) <= 1 && byte_at(
            word as int,
            3,
        ) == 0 && byte_at(word as int, 4) == 0 && byte_at(word as int, 6) == 0 && byte_at(
            word as int,
            7,
        ) == 0),
        decode_word(word as int) matches Ok(cmd) ==> {
            &&& cmd.spec_address() == byte_at(word as int, 0) + 256 * byte_at(word as int, 1)
            &&& (cmd.spec_mode() == Mode::Read <==> byte_at(word as int, 5) == 1)
            &&& (cmd.spec_mode() == Mode::Write ==> cmd.spec_data() == byte_at(word as int, 2))
        },
{
    let w = word as int;
    lemma_bytes_of_word(w);
    let middle = w / 0x100_0000;
    let top = w / 0x1_0000_0000_0000;
    assert(w / 0x1_0000_0000 == middle / 0x100);
    assert(middle % 0x1_0000 == middle % 0x100 + 0x100 * ((middle / 0x100) % 0x100));
    assert(w / 0x100_0000_0000_0000 == top / 0x100);
    assert(top == top % 0x100 + 0x100 * ((top / 0x100) % 0x100));
    assert(w % 0x1_0000 == w % 0x100 + 0x100 * ((w / 0x100) % 0x100));
}

} // verus!
