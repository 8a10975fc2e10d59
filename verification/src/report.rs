//! The texts that the game reports.

use vstd::prelude::*;
use vstd::string::*;
use crate::ports::high;
use crate::state::Shared;

verus! {

/// A digit as a character.
pub open spec fn digit(d: nat) -> char {
    seq!['0', '1', '2', '3', '4', '5', '6', '7', '8', '9'][d as int]
}

/// A number in decimal, without leading zeros.
pub open spec fn decimal(n: nat) -> Seq<char>
    decreases n,
{
    if n < 10 {
        seq![digit(n)]
    } else {
        decimal(n / 10).push(digit(n % 10))
    }
}

/// A word as sixteen binary digits, the highest bit first.
pub open spec fn binary(word: u16) -> Seq<char> {
    Seq::new(
        16,
        |i: int|
            if high(word, 15 - i) {
                '1'
            } else {
                '0'
            },
    )
}

/// Words in binary, a blank before each.
pub open spec fn binary_row(words: Seq<u16>) -> Seq<char>
    decreases words.len(),
{
    if words.len() == 0 {
        seq![]
    } else {
        binary_row(words.drop_last()) + " "@ + binary(words.last())
    }
}

/// Appends a digit.
fn push_digit(text: &mut String, d: u64)
    requires
        d < 10,
    ensures
        final(text)@ == old(text)@.push(digit(d as nat)),
{
    proof {
        reveal_strlit("0");
        reveal_strlit("1");
        reveal_strlit("2");
        reveal_strlit("3");
        reveal_strlit("4");
        reveal_strlit("5");
        reveal_strlit("6");
        reveal_strlit("7");
        reveal_strlit("8");
        reveal_strlit("9");
    }
    let s: &str = match d {
        0 => "0",
        1 => "1",
        2 => "2",
        3 => "3",
        4 => "4",
        5 => "5",
        6 => "6",
        7 => "7",
        8 => "8",
        _ => "9",
    };
    text.append(s);
    assert(s@ =~= seq![digit(d as nat)]);
    assert(text@ =~= old(text)@.push(digit(d as nat)));
}

/// Appends a number in decimal.
fn push_decimal(text: &mut String, n: u64)
    ensures
        final(text)@ == old(text)@ + decimal(n as nat),
    decreases n,
{
    if n >= 10 {
        push_decimal(text, n / 10);
    }
    push_digit(text, n % 10);
    assert(text@ =~= old(text)@ + decimal(n as nat));
}

/// Appends a word in binary.
fn push_binary(text: &mut String, word: u16)
    ensures
        final(text)@ == old(text)@ + binary(word),
{
    let ghost start: Seq<char> = text@;
    let mut i: u16 = 0;
    while i < 16
        invariant
            i <= 16,
            text@ =~= start + binary(word).take(i as int),
        decreases 16 - i,
    {
        let bit: u16 = 15 - i;
        if word & (1u16 << bit) != 0 {
            assert(high(word, 15 - i));
            push_digit(text, 1);
        } else {
            assert(!high(word, 15 - i));
            push_digit(text, 0);
        }
        i += 1;
    }
    assert(binary(word).take(16) =~= binary(word));
}

/// Appends four words of a bank in binary, a blank before each.
fn push_row(text: &mut String, bank: &[u16; 8], from: usize)
    requires
        from <= 4,
    ensures
        final(text)@ == old(text)@ + binary_row(bank@.subrange(from as int, from + 4)),
{
    let ghost start: Seq<char> = text@;
    let mut i: usize = 0;
    assert(bank@.subrange(from as int, from as int) =~= seq![]);
    while i < 4
        invariant
            i <= 4,
            from <= 4,
            text@ =~= start + binary_row(bank@.subrange(from as int, from + i)),
        decreases 4 - i,
    {
        text.append(" ");
        push_binary(text, bank[from + i]);
        proof {
            let row = bank@.subrange(from as int, from + i + 1);
            assert(row.drop_last() =~= bank@.subrange(from as int, from + i));
            assert(row.last() == bank@[from + i]);
        }
        i += 1;
    }
}

/// The text that greets at the start.
pub open spec fn banner_text(version: Seq<char>) -> Seq<char> {
    "\r\n\r\n*** Starting up Suomipeli\r\n    firmware v"@ + version + "\r\n\r\n"@
}

/// The text of a sign of life.
pub open spec fn alive_text(seconds: nat, irqc: nat, sw_pin: bool) -> Seq<char> {
    decimal(seconds) + ": irqc = "@ + decimal(irqc) + ", swpin = "@ + decimal(
        if sw_pin {
            1
        } else {
            0
        },
    ) + "\r\n"@
}

/// The text for an input that rose or fell.
pub open spec fn edge_text(rising: bool, chip: nat, bit: nat, irqc: nat, pin: Seq<char>) -> Seq<
    char,
> {
    (if rising {
        "Rising edge: c"@
    } else {
        "Falling edge: c"@
    }) + decimal(chip) + " b"@ + decimal(bit) + " c"@ + decimal(irqc) + " "@ + pin + "\r\n\r\n"@
}

/// The text for all inputs and what they changed, four chips to a row.
pub open spec fn io_text(bits: Seq<u16>, fall: Seq<u16>, rise: Seq<u16>) -> Seq<char> {
    "bits0: "@ + binary_row(bits.subrange(0, 4)) + "\r\nfall0: "@ + binary_row(fall.subrange(0, 4))
        + "\r\nrise0: "@ + binary_row(rise.subrange(0, 4)) + "\r\n\r\nbits1: "@ + binary_row(
        bits.subrange(4, 8),
    ) + "\r\nfall1: "@ + binary_row(fall.subrange(4, 8)) + "\r\nrise1: "@ + binary_row(
        rise.subrange(4, 8),
    ) + "\r\n\r\n"@
}

/// Greets at the start.
pub fn banner(version: &str) -> (text: String)
    ensures
        text@ == banner_text(version@),
{
    let mut text = String::new();
    text.append("\r\n\r\n*** Starting up Suomipeli\r\n    firmware v");
    text.append(version);
    text.append("\r\n\r\n");
    assert(text@ =~= banner_text(version@));
    text
}

/// Reports a sign of life: the seconds since the start, the interrupts so far, and the level of
/// the interrupt pin.
pub fn alive_report(seconds: u64, irqc: u32, sw_pin: bool) -> (text: String)
    ensures
        text@ == alive_text(seconds as nat, irqc as nat, sw_pin),
{
    let mut text = String::new();
    push_decimal(&mut text, seconds);
    text.append(": irqc = ");
    push_decimal(&mut text, irqc as u64);
    text.append(", swpin = ");
    push_decimal(
        &mut text,
        if sw_pin {
            1
        } else {
            0
        },
    );
    text.append("\r\n");
    assert(text@ =~= alive_text(seconds as nat, irqc as nat, sw_pin));
    text
}

/// Reports an input that rose or fell.
pub fn edge_report(rising: bool, chip: u8, bit: u8, irqc: u32, pin: &str) -> (text: String)
    ensures
        text@ == edge_text(rising, chip as nat, bit as nat, irqc as nat, pin@),
{
    let mut text = String::new();
    text.append(
        if rising {
            "Rising edge: c"
        } else {
            "Falling edge: c"
        },
    );
    push_decimal(&mut text, chip as u64);
    text.append(" b");
    push_decimal(&mut text, bit as u64);
    text.append(" c");
    push_decimal(&mut text, irqc as u64);
    text.append(" ");
    text.append(pin);
    text.append("\r\n\r\n");
    assert(text@ =~= edge_text(rising, chip as nat, bit as nat, irqc as nat, pin@));
    text
}

impl Shared {
    /// Reports all inputs and what they changed.
    pub fn io_debug(&self) -> (text: String)
        ensures
            text@ == io_text(self.bits@, self.fall@, self.rise@),
    {
        let mut text = String::new();
        text.append("bits0: ");
        push_row(&mut text, &self.bits, 0);
        text.append("\r\nfall0: ");
        push_row(&mut text, &self.fall, 0);
        text.append("\r\nrise0: ");
        push_row(&mut text, &self.rise, 0);
        text.append("\r\n\r\nbits1: ");
        push_row(&mut text, &self.bits, 4);
        text.append("\r\nfall1: ");
        push_row(&mut text, &self.fall, 4);
        text.append("\r\nrise1: ");
        push_row(&mut text, &self.rise, 4);
        text.append("\r\n\r\n");
        assert(text@ =~= io_text(self.bits@, self.fall@, self.rise@));
        text
    }
}

} // verus!
