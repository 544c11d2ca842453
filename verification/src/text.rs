//! Text forms of the protocol: a command travels as a hexadecimal string,
//! the transaction carries the same number in decimal, and the reply comes
//! back as a signed decimal number. All text here is ASCII, held as bytes.

use vstd::prelude::*;
use crate::register::{ProtocolError, RegisterCommand, decode_word};

verus! {

/// The hexadecimal digit for a value below 16, with `A` to `F` in upper
/// case.
pub open spec fn hex_digit(value: int) -> u8 {
    if value < 10 {
        (48 + value) as u8
    } else {
        (55 + value) as u8
    }
}

/// The `width` least significant hexadecimal digits of `word`, most
/// significant first.
pub open spec fn hex_digits(word: int, width: nat) -> Seq<u8>
    decreases width,
{
    if width == 0 {
        Seq::empty()
    } else {
        hex_digits(word / 16, (width - 1) as nat).push(hex_digit(word % 16))
    }
}

/// The string form of a command word: `0x` and sixteen digits.
pub open spec fn hex_text_of(word: int) -> Seq<u8> {
    seq![48u8, 120u8] + hex_digits(word, 16)
}

pub open spec fn is_hex_digit(c: u8) -> bool {
    48 <= c <= 57 || 97 <= c <= 102 || 65 <= c <= 70
}

/// The value of a hexadecimal digit of either case; zero for other bytes.
pub open spec fn hex_digit_value(c: u8) -> int {
    if 48 <= c <= 57 {
        c - 48
    } else if 97 <= c <= 102 {
        c - 87
    } else if 65 <= c <= 70 {
        c - 55
    } else {
        0
    }
}

pub open spec fn all_hex(digits: Seq<u8>) -> bool {
    forall|i: int| 0 <= i < digits.len() ==> is_hex_digit(#[trigger] digits[i])
}

/// The number that a run of hexadecimal digits denotes.
pub open spec fn hex_value(digits: Seq<u8>) -> int
    decreases digits.len(),
{
    if digits.len() == 0 {
        0
    } else {
        16 * hex_value(digits.drop_last()) + hex_digit_value(digits.last())
    }
}

/// The word that a command string denotes: after the prefix `0x`, one or
/// more hexadecimal digits whose value fits in 64 bits. Leading zeros are
/// free.
pub open spec fn parse_hex_spec(text: Seq<u8>) -> Result<u64, ProtocolError> {
    let digits = text.subrange(2, text.len() as int);
    if text.len() >= 3 && text[0] == 48 && text[1] == 120 && all_hex(digits) && hex_value(digits)
        <= u64::MAX {
        Ok(hex_value(digits) as u64)
    } else {
        Err(ProtocolError::MalformedCommand)
    }
}

/// The command that a command string denotes.
pub open spec fn command_of_text(text: Seq<u8>) -> Result<RegisterCommand, ProtocolError> {
    match parse_hex_spec(text) {
        Ok(word) => decode_word(word as int),
        Err(e) => Err(e),
    }
}

pub open spec fn is_decimal_digit(c: u8) -> bool {
    48 <= c <= 57
}

pub open spec fn all_decimal(digits: Seq<u8>) -> bool {
    forall|i: int| 0 <= i < digits.len() ==> is_decimal_digit(#[trigger] digits[i])
}

/// The decimal digits of `value`, without leading zeros.
pub open spec fn decimal_digits(value: nat) -> Seq<u8>
    decreases value,
{
    if value < 10 {
        seq![(48 + value) as u8]
    } else {
        decimal_digits(value / 10).push((48 + value % 10) as u8)
    }
}

/// The number that a run of decimal digits denotes.
pub open spec fn decimal_value(digits: Seq<u8>) -> int
    decreases digits.len(),
{
    if digits.len() == 0 {
        0
    } else {
        10 * decimal_value(digits.drop_last()) + (digits.last() - 48)
    }
}

/// The number that a reply denotes: an optional sign, then one or more
/// decimal digits, the whole within the signed 64-bit range.
pub open spec fn parse_reply_spec(text: Seq<u8>) -> Result<i64, ProtocolError> {
    let signed = text.len() > 0 && (text[0] == 45 || text[0] == 43);
    let digits = if signed {
        text.subrange(1, text.len() as int)
    } else {
        text
    };
    let value = if signed && text[0] == 45 {
        -decimal_value(digits)
    } else {
        decimal_value(digits)
    };
    if digits.len() > 0 && all_decimal(digits) && i64::MIN <= value <= i64::MAX {
        Ok(value as i64)
    } else {
        Err(ProtocolError::MalformedReply)
    }
}

pub proof fn lemma_hex_value_bounds(digits: Seq<u8>)
    ensures
        0 <= hex_value(digits),
    decreases digits.len(),
{
    if digits.len() > 0 {
        lemma_hex_value_bounds(digits.drop_last());
    }
}

/// A run of digits denotes at least what any of its prefixes denotes.
pub proof fn lemma_hex_value_prefix(digits: Seq<u8>, n: int)
    requires
        0 <= n <= digits.len(),
    ensures
        hex_value(digits.subrange(0, n)) <= hex_value(digits),
    decreases digits.len(),
{
    if n == digits.len() {
        assert(digits.subrange(0, n) =~= digits);
    } else {
        lemma_hex_value_prefix(digits.drop_last(), n);
        lemma_hex_value_bounds(digits.drop_last());
        assert(digits.drop_last().subrange(0, n) =~= digits.subrange(0, n));
    }
}

pub proof fn lemma_decimal_value_bounds(digits: Seq<u8>)
    requires
        all_decimal(digits),
    ensures
        0 <= decimal_value(digits),
    decreases digits.len(),
{
    if digits.len() > 0 {
        lemma_decimal_value_bounds(digits.drop_last());
    }
}

/// A run of decimal digits denotes at least what any of its prefixes denotes.
pub proof fn lemma_decimal_value_prefix(digits: Seq<u8>, n: int)
    requires
        all_decimal(digits),
        0 <= n <= digits.len(),
    ensures
        decimal_value(digits.subrange(0, n)) <= decimal_value(digits),
    decreases digits.len(),
{
    if n == digits.len() {
        assert(digits.subrange(0, n) =~= digits);
    } else {
        lemma_decimal_value_prefix(digits.drop_last(), n);
        lemma_decimal_value_bounds(digits.drop_last());
        assert(digits.drop_last().subrange(0, n) =~= digits.subrange(0, n));
    }
}

fn push_hex(word: u64, width: usize, out: &mut Vec<u8>)
    ensures
        final(out)@ == old(out)@ + hex_digits(word as int, width as nat),
    decreases width,
{
    if width > 0 {
        push_hex(word / 16, width - 1, out);
        let d: u8 = (word % 16) as u8;
        let c: u8 = if d < 10 {
            48 + d
        } else {
            55 + d
        };
        out.push(c);
        assert(final(out)@ =~= old(out)@ + hex_digits(word as int, width as nat));
    } else {
        assert(out@ =~= old(out)@ + hex_digits(word as int, width as nat));
    }
}

/// Writes a command word as `0x` and sixteen hexadecimal digits, `A` to `F`
/// in upper case.
pub fn hex_text(word: u64) -> (text: Vec<u8>)
    ensures
        text@ == hex_text_of(word as int),
{
    let mut text: Vec<u8> = Vec::new();
    text.push(48);
    text.push(120);
    assert(text@ =~= seq![48u8, 120u8]);
    push_hex(word, 16, &mut text);
    text
}

/// Reads the word that a command string denotes.
pub fn parse_hex(text: &[u8]) -> (r: Result<u64, ProtocolError>)
    ensures
        r == parse_hex_spec(text@),
{
    if text.len() < 3 || text[0] != 48 || text[1] != 120 {
        return Err(ProtocolError::MalformedCommand);
    }
    let ghost digits = text@.subrange(2, text.len() as int);
    let mut acc: u64 = 0;
    let mut i: usize = 2;
    while i < text.len()
        invariant
            2 <= i <= text.len(),
            digits == text@.subrange(2, text.len() as int),
            all_hex(digits.subrange(0, i - 2)),
            acc == hex_value(digits.subrange(0, i - 2)),
        decreases text.len() - i,
    {
        let c: u8 = text[i];
        assert(digits[i - 2] == c);
        let d: u64 = if 48 <= c && c <= 57 {
            (c - 48) as u64
        } else if 97 <= c && c <= 102 {
            (c - 87) as u64
        } else if 65 <= c && c <= 70 {
            (c - 55) as u64
        } else {
            assert(!is_hex_digit(digits[i - 2]));
            return Err(ProtocolError::MalformedCommand);
        };
        assert(digits.subrange(0, i - 1).drop_last() =~= digits.subrange(0, i - 2));
        assert(hex_value(digits.subrange(0, i - 1)) == 16 * acc + d);
        if acc > (u64::MAX - d) / 16 {
            proof {
                lemma_hex_value_prefix(digits, i - 1);
            }
            return Err(ProtocolError::MalformedCommand);
        }
        acc = acc * 16 + d;
        i += 1;
    }
    assert(digits.subrange(0, i - 2) =~= digits);
    Ok(acc)
}

fn push_decimal(value: u64, out: &mut Vec<u8>)
    ensures
        final(out)@ == old(out)@ + decimal_digits(value as nat),
    decreases value,
{
    if value >= 10 {
        push_decimal(value / 10, out);
    }
    let c: u8 = 48 + (value % 10) as u8;
    out.push(c);
    assert(final(out)@ =~= old(out)@ + decimal_digits(value as nat));
}

/// Writes a number in decimal, as the transaction's data field carries it.
pub fn decimal_text(value: u64) -> (text: Vec<u8>)
    ensures
        text@ == decimal_digits(value as nat),
{
    let mut text: Vec<u8> = Vec::new();
    push_decimal(value, &mut text);
    assert(text@ =~= decimal_digits(value as nat));
    text
}

/// Reads the number that a reply denotes.
pub fn parse_reply(text: &[u8]) -> (r: Result<i64, ProtocolError>)
    ensures
        r == parse_reply_spec(text@),
{
    let signed: bool = text.len() > 0 && (text[0] == 45 || text[0] == 43);
    let negative: bool = signed && text[0] == 45;
    let start: usize = if signed {
        1
    } else {
        0
    };
    let ghost digits = text@.subrange(start as int, text.len() as int);
    assert(!signed ==> digits =~= text@);
    if text.len() == start {
        return Err(ProtocolError::MalformedReply);
    }
    let limit: u64 = if negative {
        0x8000_0000_0000_0000
    } else {
        0x7fff_ffff_ffff_ffff
    };
    let mut acc: u64 = 0;
    let mut i: usize = start;
    while i < text.len()
        invariant
            start <= i <= text.len(),
            digits == text@.subrange(start as int, text.len() as int),
            all_decimal(digits.subrange(0, i - start)),
            acc == decimal_value(digits.subrange(0, i - start)),
            acc <= limit,
            !signed ==> digits == text@,
            signed == (text@.len() > 0 && (text@[0] == 45 || text@[0] == 43)),
            negative == (signed && text@[0] == 45),
            start == (if signed { 1int } else { 0int }),
            limit == (if negative { 0x8000_0000_0000_0000u64 } else { 0x7fff_ffff_ffff_ffffu64 }),
        decreases text.len() - i,
    {
        let c: u8 = text[i];
        assert(digits[i - start] == c);
        if c < 48 || c > 57 {
            assert(!is_decimal_digit(digits[i - start]));
            return Err(ProtocolError::MalformedReply);
        }
        let d: u64 = (c - 48) as u64;
        assert(digits.subrange(0, i - start + 1).drop_last() =~= digits.subrange(0, i - start));
        assert(decimal_value(digits.subrange(0, i - start + 1)) == 10 * acc + d);
        if acc > (limit - d) / 10 {
            proof {
                if all_decimal(digits) {
                    lemma_decimal_value_prefix(digits, i - start + 1);
                }
            }
            return Err(ProtocolError::MalformedReply);
        }
        acc = acc * 10 + d;
        assert(all_decimal(digits.subrange(0, i - start + 1))) by {
            assert forall|k: int| 0 <= k < i - start + 1 implies is_decimal_digit(
                #[trigger] digits.subrange(0, i - start + 1)[k],
            ) by {
                if k < i - start {
                    assert(digits.subrange(0, i - start)[k] == digits[k]);
                }
            }
        }
        i += 1;
    }
    assert(digits.subrange(0, i - start) =~= digits);
    if negative {
        if acc == 0x8000_0000_0000_0000 {
            Ok(i64::MIN)
        } else {
            Ok(-(acc as i64))
        }
    } else {
        Ok(acc as i64)
    }
}

impl RegisterCommand {
    /// The command as a string: `0x` and the sixteen digits of its word.
    pub fn to_text(&self) -> (text: Vec<u8>)
        ensures
            text@ == hex_text_of(self.word()),
    {
        hex_text(self.encode())
    }

    /// Reads a command from its string form. Fails exactly where the string
    /// denotes no word, or the word keeps not to the command layout.
    pub fn from_text(text: &[u8]) -> (r: Result<RegisterCommand, ProtocolError>)
        ensures
            r == command_of_text(text@),
    {
        match parse_hex(text) {
            Ok(word) => RegisterCommand::decode(word),
            Err(e) => Err(e),
        }
    }

    /// What the transaction's data field carries for this command: its word
    /// in decimal.
    pub fn payload(&self) -> (text: Vec<u8>)
        ensures
            text@ == decimal_digits(self.word() as nat),
    {
        decimal_text(self.encode())
    }
}

/// Turns a raw command string into what the transaction's data field
/// carries: the number that the string denotes, in decimal. The word is not
/// held to the command layout, so any 64-bit number passes.
pub fn transaction_payload(command_text: &[u8]) -> (r: Result<Vec<u8>, ProtocolError>)
    ensures
        match parse_hex_spec(command_text@) {
            Ok(word) => r is Ok && r->Ok_0@ == decimal_digits(word as nat),
            Err(e) => r is Err && r->Err_0 == e,
        },
{
    match parse_hex(command_text) {
        Ok(word) => Ok(decimal_text(word)),
        Err(e) => Err(e),
    }
}

/// Whether `word` can be written in `width` hexadecimal digits.
pub open spec fn fits_hex(word: int, width: nat) -> bool
    decreases width,
{
    if width == 0 {
        word == 0
    } else {
        fits_hex(word / 16, (width - 1) as nat)
    }
}

pub proof fn lemma_hex_digits_value(word: int, width: nat)
    requires
        0 <= word,
        fits_hex(word, width),
    ensures
        hex_digits(word, width).len() == width,
        all_hex(hex_digits(word, width)),
        hex_value(hex_digits(word, width)) == word,
    decreases width,
{
    if width > 0 {
        let shorter = hex_digits(word / 16, (width - 1) as nat);
        let c = hex_digit(word % 16);
        lemma_hex_digits_value(word / 16, (width - 1) as nat);
        assert(shorter.push(c).drop_last() =~= shorter);
        assert(shorter.push(c).last() == c);
        assert(is_hex_digit(c) && hex_digit_value(c) == word % 16);
    }
}

/// Reading back the string form of a word gives the word.
pub proof fn lemma_hex_round_trip(word: u64)
    ensures
        hex_text_of(word as int).len() == 18,
        parse_hex_spec(hex_text_of(word as int)) == Ok::<u64, ProtocolError>(word),
{
    let w = word as int;
    assert(fits_hex(w, 16)) by {
        reveal_with_fuel(fits_hex, 17);
    }
    lemma_hex_digits_value(w, 16);
    let text = hex_text_of(w);
    assert(text.subrange(2, text.len() as int) =~= hex_digits(w, 16));
}

/// Writing a command as a string and reading the string back gives the same
/// mode, address and data.
pub proof fn lemma_command_text_round_trip(cmd: RegisterCommand)
    ensures
        command_of_text(hex_text_of(cmd.word())) == Ok::<RegisterCommand, ProtocolError>(cmd),
{
    crate::register::lemma_decode_encode(cmd);
    lemma_hex_round_trip(cmd.word() as u64);
}

/// The decimal form of a number is made of digits and denotes that number.
pub proof fn lemma_decimal_round_trip(value: nat)
    ensures
        decimal_digits(value).len() >= 1,
        all_decimal(decimal_digits(value)),
        decimal_value(decimal_digits(value)) == value,
    decreases value,
{
    if value < 10 {
        let digits = decimal_digits(value);
        assert(digits.drop_last() =~= Seq::<u8>::empty());
        assert(decimal_value(digits.drop_last()) == 0);
    } else {
        let shorter = decimal_digits(value / 10);
        let c = (48 + value % 10) as u8;
        lemma_decimal_round_trip(value / 10);
        assert(shorter.push(c).drop_last() =~= shorter);
        assert(shorter.push(c).last() == c);
    }
}

/// A number that fits in 63 bits, written in decimal, reads back as a reply
/// of that value.
pub proof fn lemma_reply_round_trip(value: nat)
    requires
        value <= i64::MAX,
    ensures
        parse_reply_spec(decimal_digits(value)) == Ok::<i64, ProtocolError>(value as i64),
{
    lemma_decimal_round_trip(value);
    let digits = decimal_digits(value);
    assert(is_decimal_digit(digits[0]));
}

} // verus!
