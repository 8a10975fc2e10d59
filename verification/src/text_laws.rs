//! What can be read back from the texts that the game reports.

use vstd::prelude::*;
use vstd::string::*;
use crate::ports::line;
use crate::report::{
    alive_text, banner_text, binary, binary_row, decimal, edge_text, io_text,
};

verus! {

/// The number that digits stand for, the last one the ones.
pub open spec fn number(text: Seq<char>) -> int
    decreases text.len(),
{
    if text.len() == 0 {
        0
    } else {
        number(text.drop_last()) * 10 + (text.last() as int - '0' as int)
    }
}

/// The text is a number written in digits, without a needless zero in front.
pub open spec fn reads(text: Seq<char>, n: int) -> bool {
    &&& text.len() >= 1
    &&& forall|i: int| 0 <= i < text.len() ==> '0' as int <= #[trigger] text[i] as int <= '9' as int
    &&& text[0] == '0' ==> text.len() == 1
    &&& number(text) == n
}

/// A decimal number reads as the number that it was written for.
pub proof fn law_decimal(n: nat)
    ensures
        reads(decimal(n), n as int),
        n > 0 ==> decimal(n)[0] != '0',
    decreases n,
{
    if n < 10 {
        assert(decimal(n).drop_last() =~= Seq::<char>::empty());
        assert(number(Seq::<char>::empty()) == 0);
    } else {
        law_decimal(n / 10);
        let init = decimal(n / 10);
        assert(decimal(n).drop_last() =~= init);
        assert(decimal(n)[0] == init[0]);
        assert forall|i: int| 0 <= i < decimal(n).len() implies '0' as int
            <= #[trigger] decimal(n)[i] as int <= '9' as int by {
            if i < init.len() {
                assert(decimal(n)[i] == init[i]);
            }
        }
    }
}

/// A sign of life gives the seconds, then the interrupts, then the level of the interrupt pin.
pub proof fn law_alive_reads(seconds: nat, irqc: nat, sw_pin: bool)
    ensures
        exists|a: Seq<char>, b: Seq<char>|
            #![trigger reads(a, seconds as int), reads(b, irqc as int)]
            reads(a, seconds as int) && reads(b, irqc as int) && alive_text(seconds, irqc, sw_pin)
                == a + ": irqc = "@ + b + ", swpin = "@ + (if sw_pin {
                "1"@
            } else {
                "0"@
            }) + "\r\n"@,
{
    reveal_strlit("0");
    reveal_strlit("1");
    law_decimal(seconds);
    law_decimal(irqc);
    assert(decimal(1) =~= "1"@);
    assert(decimal(0) =~= "0"@);
    let a = decimal(seconds);
    let b = decimal(irqc);
    assert(reads(a, seconds as int) && reads(b, irqc as int));
    assert(alive_text(seconds, irqc, sw_pin) =~= a + ": irqc = "@ + b + ", swpin = "@ + (
    if sw_pin {
        "1"@
    } else {
        "0"@
    }) + "\r\n"@);
}

/// A report of an edge says whether the input rose, then gives its chip, its bit, the interrupts
/// and the name of the pin.
pub proof fn law_edge_reads(rising: bool, chip: nat, bit: nat, irqc: nat, pin: Seq<char>)
    ensures
        exists|a: Seq<char>, b: Seq<char>, c: Seq<char>|
            #![trigger reads(a, chip as int), reads(b, bit as int), reads(c, irqc as int)]
            reads(a, chip as int) && reads(b, bit as int) && reads(c, irqc as int) && edge_text(
                rising,
                chip,
                bit,
                irqc,
                pin,
            ) == (if rising {
                "Rising"@
            } else {
                "Falling"@
            }) + " edge: c"@ + a + " b"@ + b + " c"@ + c + " "@ + pin + "\r\n\r\n"@,
{
    reveal_strlit("Rising edge: c");
    reveal_strlit("Falling edge: c");
    reveal_strlit("Rising");
    reveal_strlit("Falling");
    reveal_strlit(" edge: c");
    assert("Rising edge: c"@ =~= "Rising"@ + " edge: c"@);
    assert("Falling edge: c"@ =~= "Falling"@ + " edge: c"@);
    law_decimal(chip);
    law_decimal(bit);
    law_decimal(irqc);
    let a = decimal(chip);
    let b = decimal(bit);
    let c = decimal(irqc);
    assert(reads(a, chip as int) && reads(b, bit as int) && reads(c, irqc as int));
    assert(edge_text(rising, chip, bit, irqc, pin) =~= (if rising {
        "Rising"@
    } else {
        "Falling"@
    }) + " edge: c"@ + a + " b"@ + b + " c"@ + c + " "@ + pin + "\r\n\r\n"@);
}

/// The greeting holds the version, whole and as it is, between its own first and last words.
pub proof fn law_banner_reads(version: Seq<char>)
    ensures
        banner_text(version).len() == 45 + version.len() + 4,
        banner_text(version).subrange(45, 45 + version.len() as int) == version,
        banner_text(version).take(45) == "\r\n\r\n*** Starting up Suomipeli\r\n"@
            + "    firmware v"@,
        banner_text(version).skip(45 + version.len() as int) == "\r\n\r\n"@,
{
    reveal_strlit("\r\n\r\n*** Starting up Suomipeli\r\n    firmware v");
    reveal_strlit("\r\n\r\n*** Starting up Suomipeli\r\n");
    reveal_strlit("    firmware v");
    reveal_strlit("\r\n\r\n");
    assert("\r\n\r\n*** Starting up Suomipeli\r\n    firmware v"@
        =~= "\r\n\r\n*** Starting up Suomipeli\r\n"@ + "    firmware v"@);
}

/// A row of words holds a blank before each, and then its bits, the highest first.
proof fn lemma_row(words: Seq<u16>, k: int, bit: int)
    requires
        0 <= k < words.len(),
        0 <= bit < 16,
    ensures
        binary_row(words).len() == 17 * words.len(),
        binary_row(words)[17 * k] == ' ',
        binary_row(words)[17 * k + 16 - bit] == if line(words, k, bit) {
            '1'
        } else {
            '0'
        },
    decreases words.len(),
{
    reveal_strlit(" ");
    let init = words.drop_last();
    if k < init.len() {
        lemma_row(init, k, bit);
        assert(init[k] == words[k]);
    } else {
        lemma_row_len(init);
        assert(binary(words[k])[15 - bit] == if line(words, k, bit) {
            '1'
        } else {
            '0'
        });
    }
}

/// A row of words takes seventeen characters for each.
proof fn lemma_row_len(words: Seq<u16>)
    ensures
        binary_row(words).len() == 17 * words.len(),
    decreases words.len(),
{
    reveal_strlit(" ");
    if words.len() > 0 {
        lemma_row_len(words.drop_last());
    }
}

/// The place in a report of the inputs where the words of a row begin.
pub open spec fn row_start(row: int, chip: int) -> int {
    (if chip < 4 {
        7 + 77 * row
    } else {
        240 + 77 * row
    }) + 17 * (chip % 4)
}

/// A report of the inputs shows for each chip and bit, in its own place, whether the line is high,
/// has fallen and has risen: the levels in the first row of each half, the falls in the second and
/// the rises in the third.
pub proof fn law_io_reads(
    bits: Seq<u16>,
    fall: Seq<u16>,
    rise: Seq<u16>,
    chip: int,
    bit: int,
)
    requires
        bits.len() == 8,
        fall.len() == 8,
        rise.len() == 8,
        0 <= chip < 8,
        0 <= bit < 16,
    ensures
        io_text(bits, fall, rise).len() == 466,
        io_text(bits, fall, rise)[row_start(0, chip) + 16 - bit] == if line(bits, chip, bit) {
            '1'
        } else {
            '0'
        },
        io_text(bits, fall, rise)[row_start(1, chip) + 16 - bit] == if line(fall, chip, bit) {
            '1'
        } else {
            '0'
        },
        io_text(bits, fall, rise)[row_start(2, chip) + 16 - bit] == if line(rise, chip, bit) {
            '1'
        } else {
            '0'
        },
        io_text(bits, fall, rise)[row_start(0, chip)] == ' ',
        io_text(bits, fall, rise)[row_start(1, chip)] == ' ',
        io_text(bits, fall, rise)[row_start(2, chip)] == ' ',
{
    reveal_strlit("bits0: ");
    reveal_strlit("\r\nfall0: ");
    reveal_strlit("\r\nrise0: ");
    reveal_strlit("\r\n\r\nbits1: ");
    reveal_strlit("\r\nfall1: ");
    reveal_strlit("\r\nrise1: ");
    reveal_strlit("\r\n\r\n");
    lemma_row_len(bits.subrange(0, 4));
    lemma_row_len(fall.subrange(0, 4));
    lemma_row_len(rise.subrange(0, 4));
    lemma_row_len(bits.subrange(4, 8));
    lemma_row_len(fall.subrange(4, 8));
    lemma_row_len(rise.subrange(4, 8));
    let k = chip % 4;
    lemma_row(bits.subrange(0, 4), k, bit);
    lemma_row(fall.subrange(0, 4), k, bit);
    lemma_row(rise.subrange(0, 4), k, bit);
    lemma_row(bits.subrange(4, 8), k, bit);
    lemma_row(fall.subrange(4, 8), k, bit);
    lemma_row(rise.subrange(4, 8), k, bit);
}

/// The headings of a report of the inputs stand before its rows, whatever the inputs.
pub proof fn law_io_headings(bits: Seq<u16>, fall: Seq<u16>, rise: Seq<u16>)
    requires
        bits.len() == 8,
        fall.len() == 8,
        rise.len() == 8,
    ensures
        io_text(bits, fall, rise).subrange(0, 7) == "bits0: "@,
        io_text(bits, fall, rise).subrange(75, 84) == "\r\nfall0: "@,
        io_text(bits, fall, rise).subrange(152, 161) == "\r\nrise0: "@,
        io_text(bits, fall, rise).subrange(229, 240) == "\r\n\r\nbits1: "@,
        io_text(bits, fall, rise).subrange(308, 317) == "\r\nfall1: "@,
        io_text(bits, fall, rise).subrange(385, 394) == "\r\nrise1: "@,
        io_text(bits, fall, rise).subrange(462, 466) == "\r\n\r\n"@,
{
    reveal_strlit("bits0: ");
    reveal_strlit("\r\nfall0: ");
    reveal_strlit("\r\nrise0: ");
    reveal_strlit("\r\n\r\nbits1: ");
    reveal_strlit("\r\nfall1: ");
    reveal_strlit("\r\nrise1: ");
    reveal_strlit("\r\n\r\n");
    lemma_row_len(bits.subrange(0, 4));
    lemma_row_len(fall.subrange(0, 4));
    lemma_row_len(rise.subrange(0, 4));
    lemma_row_len(bits.subrange(4, 8));
    lemma_row_len(fall.subrange(4, 8));
    lemma_row_len(rise.subrange(4, 8));
}

} // verus!
