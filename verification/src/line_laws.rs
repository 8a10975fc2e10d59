//! What holds of pins, words and the wiring, in plain numbers.

use vstd::arithmetic::power2::pow2;
use vstd::prelude::*;
use crate::pins::{all_drivable, Board, MyPin};
use crate::ports::{first_line, high, line};

verus! {

/// A bit of a word is set where the word, divided by the power of two of the bit, is odd.
pub proof fn law_high(word: u16, bit: int)
    requires
        0 <= bit < 16,
    ensures
        high(word, bit) <==> (word as int / pow2(bit as nat) as int) % 2 == 1,
{
    let b: u16 = bit as u16;
    assert((word & (1u16 << b) != 0) <==> (word >> b) % 2 == 1) by (bit_vector)
        requires
            b < 16,
    ;
    vstd::bits::lemma_u16_shr_is_div(word, b);
}

/// A pin's code ends in its chip and its bit, a byte each, and what stands before them does not
/// matter.
pub proof fn law_pin_place(pin: MyPin, other: MyPin)
    ensures
        pin.chip_spec() * 256 + pin.bit_spec() == pin.code as int % 65536,
        0 <= pin.chip_spec() < 256,
        0 <= pin.bit_spec() < 256,
        pin.code as int % 65536 == other.code as int % 65536 <==> pin.chip_spec()
            == other.chip_spec() && pin.bit_spec() == other.bit_spec(),
{
}

/// A pin can be driven exactly where it is one of sixteen lines on one of eight chips.
pub proof fn law_drivable(pin: MyPin)
    ensures
        pin.drivable() <==> pin.code as int % 65536 < 2048 && pin.code as int % 256 < 16,
        pin.drivable() <==> exists|chip: int, bit: int|
            0 <= chip < 8 && 0 <= bit < 16 && #[trigger] crate::play::at(pin, chip, bit),
{
    if pin.drivable() {
        assert(crate::play::at(pin, pin.chip_spec(), pin.bit_spec()));
    }
}

/// A table can be driven exactly where none of its pins lies outside the lines.
pub proof fn law_all_drivable(pins: Seq<MyPin>)
    ensures
        !all_drivable(pins) <==> exists|i: int|
            0 <= i < pins.len() && ((#[trigger] pins[i]).code as int % 65536 >= 2048
                || pins[i].code as int % 256 >= 16),
{
    if !all_drivable(pins) {
        let i = choose|i: int| 0 <= i < pins.len() && !(#[trigger] pins[i]).drivable();
        law_drivable(pins[i]);
    }
    if exists|i: int|
        0 <= i < pins.len() && ((#[trigger] pins[i]).code as int % 65536 >= 2048 || pins[i].code
            as int % 256 >= 16) {
        let i = choose|i: int|
            0 <= i < pins.len() && ((#[trigger] pins[i]).code as int % 65536 >= 2048
                || pins[i].code as int % 256 >= 16);
        law_drivable(pins[i]);
    }
}

/// An input line is wired to the contact that stands for its chip and bit.
pub proof fn law_contact(board: &Board, chip: int, bit: int)
    requires
        0 <= chip < 8,
        0 <= bit < 16,
    ensures
        board.contact(chip, bit) == board.inputs[chip][bit],
{
}

/// The sockets of a board are in order exactly where none of its inputs is a socket with a number
/// beyond the twenty-four.
pub proof fn law_sockets(board: &Board)
    ensures
        !board.sockets_wf() <==> exists|chip: int, bit: int|
            0 <= chip < 8 && 0 <= bit < 16 && (#[trigger] board.inputs[chip][bit]).socket is Some
                && board.inputs[chip][bit].socket->0 >= 24,
{
    if !board.sockets_wf() {
        let (chip, bit) = choose|chip: int, bit: int|
            0 <= chip < 8 && 0 <= bit < 16 && match (#[trigger] board.contact(chip, bit)).socket {
                Some(i) => i >= 24,
                None => false,
            };
        assert(board.inputs[chip][bit].socket->0 >= 24);
    }
    if exists|chip: int, bit: int|
        0 <= chip < 8 && 0 <= bit < 16 && (#[trigger] board.inputs[chip][bit]).socket is Some
            && board.inputs[chip][bit].socket->0 >= 24 {
        let (chip, bit) = choose|chip: int, bit: int|
            0 <= chip < 8 && 0 <= bit < 16 && (#[trigger] board.inputs[chip][bit]).socket is Some
                && board.inputs[chip][bit].socket->0 >= 24;
        assert(board.contact(chip, bit).socket->0 >= 24);
    }
}

/// The first high line of a bank is high, and no high line has a lower number, where the lines are
/// numbered through the chips; there is none exactly where every line is low.
pub proof fn law_lowest_line(bank: Seq<u16>, chip: int, bit: int)
    requires
        bank.len() == 8,
        0 <= chip < 8,
        0 <= bit < 16,
        line(bank, chip, bit),
    ensures
        first_line(bank) is Some,
        ({
            let place = first_line(bank)->0;
            &&& 0 <= place.0 < 8
            &&& 0 <= place.1 < 16
            &&& line(bank, place.0, place.1)
            &&& place.0 * 16 + place.1 <= chip * 16 + bit
        }),
{
    crate::ports::lemma_zero_low(bit);
    assert(bank[chip] != 0);
    crate::laws::law_some_first_line(bank);
    let place = first_line(bank)->0;
    if place.0 > chip || place.0 == chip && place.1 > bit {
        assert(!line(bank, chip, bit));
    }
}

} // verus!
