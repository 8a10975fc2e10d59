//! Driving the output lines: one pin, or a table of pins.

use vstd::prelude::*;
use crate::pins::{all_drivable, MyPin};
use crate::ports::{high, line, mask};

verus! {

/// What to do to an output line.
#[derive(Clone, Copy, Debug, PartialEq, Eq, Structural)]
pub enum Drive {
    High,
    Low,
    Flip,
}

/// A word to be written to a port of an output chip.
#[derive(Clone, Copy, Debug, PartialEq, Eq)]
pub struct PortWrite {
    pub chip: u8,
    pub value: u16,
}

/// A word after one of its bits was driven.
pub open spec fn driven(word: u16, bit: int, drive: Drive) -> u16 {
    match drive {
        Drive::High => word | mask(bit),
        Drive::Low => word & !mask(bit),
        Drive::Flip => word ^ mask(bit),
    }
}

/// A bank after one pin was driven.
pub open spec fn drive_pin(bank: Seq<u16>, pin: MyPin, drive: Drive) -> Seq<u16> {
    bank.update(pin.chip_spec(), driven(bank[pin.chip_spec()], pin.bit_spec(), drive))
}

/// A bank after pins were driven, one after the other.
pub open spec fn drive_pins(bank: Seq<u16>, pins: Seq<MyPin>, drive: Drive) -> Seq<u16>
    decreases pins.len(),
{
    if pins.len() == 0 {
        bank
    } else {
        drive_pin(drive_pins(bank, pins.drop_last(), drive), pins.last(), drive)
    }
}

/// The word that the chip of a pin holds in a bank, as a write.
pub open spec fn write_of(bank: Seq<u16>, pin: MyPin) -> PortWrite {
    PortWrite { chip: pin.chip_spec() as u8, value: bank[pin.chip_spec()] }
}

/// One write for each pin, made when that pin and those before it were driven.
pub open spec fn table_writes(bank: Seq<u16>, pins: Seq<MyPin>, drive: Drive) -> Seq<PortWrite> {
    Seq::new(pins.len(), |i: int| write_of(drive_pins(bank, pins.take(i + 1), drive), pins[i]))
}

/// What ports hold after writes.
pub open spec fn after_writes(ports: Seq<u16>, writes: Seq<PortWrite>) -> Seq<u16>
    decreases writes.len(),
{
    if writes.len() == 0 {
        ports
    } else {
        after_writes(ports, writes.drop_last()).update(
            writes.last().chip as int,
            writes.last().value,
        )
    }
}

/// A pin of the table is at the line.
pub open spec fn has_pin(pins: Seq<MyPin>, chip: int, bit: int) -> bool {
    exists|i: int|
        0 <= i < pins.len() && (#[trigger] pins[i]).chip_spec() == chip && pins[i].bit_spec() == bit
}

/// Drives one pin of a bank and says what to write to its chip.
pub fn drive_one(output: &mut [u16; 8], pin: MyPin, drive: Drive) -> (write: PortWrite)
    requires
        pin.drivable(),
    ensures
        final(output)@ == drive_pin(old(output)@, pin, drive),
        write == write_of(final(output)@, pin),
{
    let chip: usize = pin.chip();
    let bit: u16 = pin.bit() as u16;
    let out: u16 = match drive {
        Drive::High => output[chip] | (1u16 << bit),
        Drive::Low => output[chip] & !(1u16 << bit),
        Drive::Flip => output[chip] ^ (1u16 << bit),
    };
    output[chip] = out;
    PortWrite { chip: chip as u8, value: out }
}

/// Drives every pin of a table and says what to write for each.
pub fn drive_table(output: &mut [u16; 8], pins: &[MyPin; 24], drive: Drive) -> (writes: Vec<
    PortWrite,
>)
    requires
        all_drivable(pins@),
    ensures
        final(output)@ == drive_pins(old(output)@, pins@, drive),
        writes@ == table_writes(old(output)@, pins@, drive),
{
    let ghost bank: Seq<u16> = output@;
    let mut writes: Vec<PortWrite> = Vec::new();
    let mut i: usize = 0;
    assert(pins@.take(0) =~= Seq::<MyPin>::empty());
    while i < 24
        invariant
            i <= 24,
            all_drivable(pins@),
            output@ == drive_pins(bank, pins@.take(i as int), drive),
            writes@ =~= table_writes(bank, pins@, drive).take(i as int),
        decreases 24 - i,
    {
        let write = drive_one(output, pins[i], drive);
        proof {
            assert(pins@.take(i + 1).drop_last() =~= pins@.take(i as int));
            assert(pins@.take(i + 1).last() == pins@[i as int]);
        }
        writes.push(write);
        i += 1;
    }
    assert(pins@.take(24) =~= pins@);
    writes
}

/// Driving a pin changes its own bit as told, and no other bit of the word.
pub proof fn lemma_driven(word: u16, bit: int, drive: Drive, other: int)
    requires
        0 <= bit < 16,
        0 <= other < 16,
    ensures
        high(driven(word, bit, drive), other) == if other != bit {
            high(word, other)
        } else {
            match drive {
                Drive::High => true,
                Drive::Low => false,
                Drive::Flip => !high(word, other),
            }
        },
{
    let b: u16 = bit as u16;
    let o: u16 = other as u16;
    assert(((word | (1u16 << b)) & (1u16 << o) != 0) <==> (o == b || word & (1u16 << o) != 0))
        by (bit_vector)
        requires
            b < 16,
            o < 16,
    ;
    assert(((word & !(1u16 << b)) & (1u16 << o) != 0) <==> (o != b && word & (1u16 << o) != 0))
        by (bit_vector)
        requires
            b < 16,
            o < 16,
    ;
    assert(((word ^ (1u16 << b)) & (1u16 << o) != 0) <==> ((o == b) != (word & (1u16 << o) != 0)))
        by (bit_vector)
        requires
            b < 16,
            o < 16,
    ;
}

/// Driving a pin leaves its line as told, and every other line of the bank as it was.
pub proof fn law_drive_pin(bank: Seq<u16>, pin: MyPin, drive: Drive, chip: int, bit: int)
    requires
        bank.len() == 8,
        pin.drivable(),
        0 <= chip < 8,
        0 <= bit < 16,
    ensures
        line(drive_pin(bank, pin, drive), chip, bit) == if chip == pin.chip_spec() && bit
            == pin.bit_spec() {
            match drive {
                Drive::High => true,
                Drive::Low => false,
                Drive::Flip => !line(bank, chip, bit),
            }
        } else {
            line(bank, chip, bit)
        },
{
    lemma_driven(bank[pin.chip_spec()], pin.bit_spec(), drive, bit);
}

/// A bank keeps its eight words, however its pins are driven.
pub proof fn lemma_drive_pins_len(bank: Seq<u16>, pins: Seq<MyPin>, drive: Drive)
    requires
        bank.len() == 8,
        all_drivable(pins),
    ensures
        drive_pins(bank, pins, drive).len() == 8,
    decreases pins.len(),
{
    if pins.len() > 0 {
        let init = pins.drop_last();
        assert(forall|i: int| 0 <= i < init.len() ==> #[trigger] init[i] == pins[i]);
        assert(pins[pins.len() - 1].drivable());
        lemma_drive_pins_len(bank, pins.drop_last(), drive);
    }
}

/// Switching a table on lights its lamps, switching it off puts them out, and neither changes
/// any other line.
pub proof fn law_drive_pins(bank: Seq<u16>, pins: Seq<MyPin>, on: bool, chip: int, bit: int)
    requires
        bank.len() == 8,
        all_drivable(pins),
        0 <= chip < 8,
        0 <= bit < 16,
    ensures
        line(
            drive_pins(
                bank,
                pins,
                if on {
                    Drive::High
                } else {
                    Drive::Low
                },
            ),
            chip,
            bit,
        ) == if has_pin(pins, chip, bit) {
            on
        } else {
            line(bank, chip, bit)
        },
    decreases pins.len(),
{
    let drive = if on {
        Drive::High
    } else {
        Drive::Low
    };
    if pins.len() > 0 {
        let init = pins.drop_last();
        assert(forall|i: int| 0 <= i < init.len() ==> #[trigger] init[i] == pins[i]);
        assert(pins.last() == pins[pins.len() - 1]);
        law_drive_pins(bank, init, on, chip, bit);
        lemma_drive_pins_len(bank, init, drive);
        law_drive_pin(drive_pins(bank, init, drive), pins.last(), drive, chip, bit);
        if has_pin(init, chip, bit) {
            let i = choose|i: int|
                0 <= i < init.len() && (#[trigger] init[i]).chip_spec() == chip
                    && init[i].bit_spec() == bit;
            assert(pins[i].chip_spec() == chip);
        }
        if has_pin(pins, chip, bit) && !has_pin(init, chip, bit) {
            let i = choose|i: int|
                0 <= i < pins.len() && (#[trigger] pins[i]).chip_spec() == chip
                    && pins[i].bit_spec() == bit;
            if i < init.len() {
                assert(init[i].chip_spec() == chip);
            }
        }
    }
}

/// Ports that held a bank hold the driven bank after the writes that were said.
pub proof fn law_table_writes(bank: Seq<u16>, pins: Seq<MyPin>, drive: Drive)
    requires
        bank.len() == 8,
        all_drivable(pins),
    ensures
        after_writes(bank, table_writes(bank, pins, drive)) == drive_pins(bank, pins, drive),
    decreases pins.len(),
{
    let writes = table_writes(bank, pins, drive);
    if pins.len() > 0 {
        let init = pins.drop_last();
        assert(forall|i: int| 0 <= i < init.len() ==> #[trigger] init[i] == pins[i]);
        law_table_writes(bank, init, drive);
        assert(writes.drop_last() =~= table_writes(bank, init, drive)) by {
            assert forall|i: int| 0 <= i < init.len() implies writes[i] == table_writes(
                bank,
                init,
                drive,
            )[i] by {
                assert(pins.take(i + 1) =~= init.take(i + 1));
            }
        }
        assert(pins.take(pins.len() as int) =~= pins);
        lemma_drive_pins_len(bank, init, drive);
        assert(pins[pins.len() - 1].drivable());
    }
}

/// A lamp that is toggled twice is as it was before, and so is every other lamp.
pub proof fn law_toggle_twice(bank: Seq<u16>, pin: MyPin)
    requires
        bank.len() == 8,
        pin.drivable(),
    ensures
        drive_pin(drive_pin(bank, pin, Drive::Flip), pin, Drive::Flip) == bank,
{
    let word: u16 = bank[pin.chip_spec()];
    let m: u16 = mask(pin.bit_spec());
    assert((word ^ m) ^ m == word) by (bit_vector);
    assert(drive_pin(drive_pin(bank, pin, Drive::Flip), pin, Drive::Flip) =~= bank);
}

/// A lamp that is lit and put out again is out, and every other lamp is as it was.
pub proof fn law_pulse(bank: Seq<u16>, pin: MyPin)
    requires
        bank.len() == 8,
        pin.drivable(),
    ensures
        drive_pin(drive_pin(bank, pin, Drive::High), pin, Drive::Low) == drive_pin(
            bank,
            pin,
            Drive::Low,
        ),
{
    let word: u16 = bank[pin.chip_spec()];
    let m: u16 = mask(pin.bit_spec());
    assert((word | m) & !m == word & !m) by (bit_vector);
    assert(drive_pin(drive_pin(bank, pin, Drive::High), pin, Drive::Low) =~= drive_pin(
        bank,
        pin,
        Drive::Low,
    ));
}

} // verus!
