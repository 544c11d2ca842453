use nuc_fan_control::register::{
    Mode, ProtocolError, RegisterCommand, CPU_TEMP, FAN_MODE, GPU_TEMP, LEFT_PWM, LEFT_TACH_HIGH,
    RIGHT_PWM,
};
use nuc_fan_control::text::{decimal_text, hex_text, parse_hex, parse_reply, transaction_payload};

#[test]
fn read_sets_the_flag_at_offset_two() {
    let cmd = RegisterCommand::Read { address: FAN_MODE };
    assert_eq!(cmd.encode(), 0x0000_0100_0000_0751u64);
    assert_eq!(cmd.encode().to_be_bytes(), [0u8, 0, 1, 0, 0, 0, 0x07, 0x51]);
    assert_eq!(RegisterCommand::Read { address: CPU_TEMP }.encode(), 0x0000_0100_0000_043Eu64);
}

#[test]
fn write_carries_the_data_at_offset_five() {
    let cmd = RegisterCommand::Write { address: FAN_MODE, data: 0x40 };
    assert_eq!(cmd.encode(), 0x0000_0000_0040_0751u64);
    assert_eq!(cmd.encode().to_be_bytes(), [0u8, 0, 0, 0, 0, 0x40, 0x07, 0x51]);
    assert_eq!(RegisterCommand::Write { address: FAN_MODE, data: 0xA0 }.encode(), 0xA00751u64);
    assert_eq!(RegisterCommand::Write { address: LEFT_PWM, data: 200 }.encode(), 0xC81809u64);
}

#[test]
fn write_words_stay_below_twenty_four_bits() {
    for data in 0u8..=255 {
        let word = RegisterCommand::Write { address: 0xFFFF, data }.encode();
        assert!(word < (1u64 << 24));
        assert_eq!((word >> 16) & 0xFF, data as u64);
        assert_eq!((word >> 40) & 0xFF, 0);
    }
}

#[test]
fn decode_reads_the_commands_of_the_vendor_layout() {
    assert_eq!(
        RegisterCommand::decode(0x0000_0100_0000_043E),
        Ok(RegisterCommand::Read { address: 0x043E })
    );
    assert_eq!(
        RegisterCommand::decode(0x0000_0000_00A0_0751),
        Ok(RegisterCommand::Write { address: 0x0751, data: 0xA0 })
    );
    assert_eq!(
        RegisterCommand::decode(0x1043E),
        Ok(RegisterCommand::Write { address: 0x043E, data: 1 })
    );
}

#[test]
fn accessors_give_the_triple() {
    let w = RegisterCommand::Write { address: LEFT_PWM, data: 0xA0 };
    assert_eq!(w.mode(), Mode::Write);
    assert_eq!(w.address(), 0x1809u16);
    assert_eq!(w.data(), 0xA0u8);
    let r = RegisterCommand::Read { address: CPU_TEMP };
    assert_eq!(r.mode(), Mode::Read);
    assert_eq!(r.address(), 0x043Eu16);
    assert_eq!(r.data(), 0u8);
}

#[test]
fn command_text_is_prefix_and_sixteen_digits() {
    let cmd = RegisterCommand::Read { address: GPU_TEMP };
    assert_eq!(cmd.to_text(), b"0x000001000000044F".to_vec());
    let cmd = RegisterCommand::Write { address: LEFT_PWM, data: 0xC8 };
    assert_eq!(cmd.to_text(), b"0x0000000000C81809".to_vec());
    assert_eq!(hex_text(u64::MAX), b"0xFFFFFFFFFFFFFFFF".to_vec());
    assert_eq!(hex_text(0xabcdef), b"0x0000000000ABCDEF".to_vec());
    assert_eq!(hex_text(0), b"0x0000000000000000".to_vec());
}

#[test]
fn round_trip_through_text_for_the_named_registers() {
    let addresses: [u16; 4] = [0x0751, 0x1809, 0x1804, 0x046C];
    let payloads: [u8; 4] = [0x00, 0x40, 0xA0, 0xFF];
    for address in addresses {
        let read = RegisterCommand::Read { address };
        assert_eq!(RegisterCommand::from_text(&read.to_text()), Ok(read));
        for data in payloads {
            let write = RegisterCommand::Write { address, data };
            let back = RegisterCommand::from_text(&write.to_text());
            assert_eq!(back, Ok(write));
            let back = back.unwrap();
            assert_eq!((back.mode(), back.address(), back.data()), (Mode::Write, address, data));
        }
    }
}

#[test]
fn round_trip_through_the_word_for_every_byte_of_data() {
    for data in 0u8..=255 {
        let write = RegisterCommand::Write { address: LEFT_TACH_HIGH, data };
        assert_eq!(RegisterCommand::decode(write.encode()), Ok(write));
    }
    let read = RegisterCommand::Read { address: 0xFFFF };
    assert_eq!(RegisterCommand::decode(read.encode()), Ok(read));
}

#[test]
fn decode_rejects_words_outside_the_layout() {
    assert_eq!(RegisterCommand::decode(0x0000_0200_0000_0751), Err(ProtocolError::MalformedCommand));
    assert_eq!(RegisterCommand::decode(0x0000_FF00_0000_0751), Err(ProtocolError::MalformedCommand));
    assert_eq!(RegisterCommand::decode(0x0000_0000_0100_0751), Err(ProtocolError::MalformedCommand));
    assert_eq!(RegisterCommand::decode(0x0000_0001_0000_0751), Err(ProtocolError::MalformedCommand));
    assert_eq!(RegisterCommand::decode(0x0001_0000_0000_0751), Err(ProtocolError::MalformedCommand));
    assert_eq!(RegisterCommand::decode(0x0100_0000_0000_0751), Err(ProtocolError::MalformedCommand));
    assert_eq!(RegisterCommand::decode(u64::MAX), Err(ProtocolError::MalformedCommand));
}

#[test]
fn decode_ignores_the_data_byte_of_a_read() {
    assert_eq!(
        RegisterCommand::decode(0x0000_0100_0077_0751),
        Ok(RegisterCommand::Read { address: 0x0751 })
    );
}

#[test]
fn decode_of_zero_is_a_write_of_zero_to_register_zero() {
    assert_eq!(RegisterCommand::decode(0), Ok(RegisterCommand::Write { address: 0, data: 0 }));
}

#[test]
fn parse_hex_takes_either_case_and_leading_zeros() {
    assert_eq!(parse_hex(b"0x0"), Ok(0));
    assert_eq!(parse_hex(b"0x1f"), Ok(31));
    assert_eq!(parse_hex(b"0x1F"), Ok(31));
    assert_eq!(parse_hex(b"0x000001000000046C"), Ok(0x0000_0100_0000_046C));
    assert_eq!(parse_hex(b"0xffffffffffffffff"), Ok(u64::MAX));
    assert_eq!(parse_hex(b"0x0000000000000000000000ff"), Ok(255));
}

#[test]
fn parse_hex_rejects_what_is_no_command_string() {
    let bad: [&[u8]; 10] = [
        b"",
        b"0",
        b"0x",
        b"1f",
        b"0X1f",
        b"0x1g",
        b"0x 1",
        b"0x+1",
        b"0x-1",
        b"0x10000000000000000",
    ];
    for text in bad {
        assert_eq!(parse_hex(text), Err(ProtocolError::MalformedCommand));
    }
}

#[test]
fn from_text_reports_a_word_outside_the_layout() {
    assert_eq!(
        RegisterCommand::from_text(b"0x0000030000000751"),
        Err(ProtocolError::MalformedCommand)
    );
    assert_eq!(RegisterCommand::from_text(b"751"), Err(ProtocolError::MalformedCommand));
    assert_eq!(
        RegisterCommand::from_text(b"0x10000000751"),
        Ok(RegisterCommand::Read { address: 0x0751 })
    );
    assert_eq!(
        RegisterCommand::from_text(b"0x0000000000400751"),
        Ok(RegisterCommand::Write { address: 0x0751, data: 0x40 })
    );
    assert_eq!(
        RegisterCommand::from_text(b"0x000000000000000000a00751"),
        Ok(RegisterCommand::Write { address: 0x0751, data: 0xA0 })
    );
}

#[test]
fn decimal_text_has_no_leading_zeros() {
    assert_eq!(decimal_text(0), b"0".to_vec());
    assert_eq!(decimal_text(7), b"7".to_vec());
    assert_eq!(decimal_text(10), b"10".to_vec());
    assert_eq!(decimal_text(27664), b"27664".to_vec());
    assert_eq!(decimal_text(u64::MAX), b"18446744073709551615".to_vec());
}

#[test]
fn payload_is_the_word_in_decimal() {
    let read = RegisterCommand::Read { address: FAN_MODE };
    assert_eq!(read.payload(), b"1099511629649".to_vec());
    let write = RegisterCommand::Write { address: RIGHT_PWM, data: 200 };
    assert_eq!(write.encode(), 13113348u64);
    assert_eq!(write.payload(), b"13113348".to_vec());
    let enable = RegisterCommand::Write { address: FAN_MODE, data: 0x40 };
    assert_eq!(enable.payload(), b"4196177".to_vec());
}

#[test]
fn transaction_payload_turns_hex_into_decimal() {
    assert_eq!(transaction_payload(b"0x10"), Ok(b"16".to_vec()));
    assert_eq!(transaction_payload(b"0x000001000000044F"), Ok(b"1099511628879".to_vec()));
    assert_eq!(transaction_payload(b"0xffffffffffffffff"), Ok(b"18446744073709551615".to_vec()));
    assert_eq!(transaction_payload(b"44F"), Err(ProtocolError::MalformedCommand));
}

#[test]
fn parse_reply_reads_signed_decimal() {
    assert_eq!(parse_reply(b"0"), Ok(0));
    assert_eq!(parse_reply(b"27664"), Ok(27664));
    assert_eq!(parse_reply(b"-64"), Ok(-64));
    assert_eq!(parse_reply(b"+5"), Ok(5));
    assert_eq!(parse_reply(b"007"), Ok(7));
    assert_eq!(parse_reply(b"-0"), Ok(0));
    assert_eq!(parse_reply(b"9223372036854775807"), Ok(i64::MAX));
    assert_eq!(parse_reply(b"-9223372036854775808"), Ok(i64::MIN));
}

#[test]
fn parse_reply_rejects_what_is_no_number() {
    let bad: [&[u8]; 10] = [
        b"",
        b"-",
        b"+",
        b"12a",
        b" 12",
        b"1 2",
        b"--1",
        b"0x10",
        b"9223372036854775808",
        b"-9223372036854775809",
    ];
    for text in bad {
        assert_eq!(parse_reply(text), Err(ProtocolError::MalformedReply));
    }
}

#[test]
fn reply_round_trip_for_decimal_text() {
    let values: [u64; 5] = [0, 9, 10, 27728, 9223372036854775807];
    for v in values {
        assert_eq!(parse_reply(&decimal_text(v)), Ok(v as i64));
    }
}
