//! Pins of the game board and the wiring that names them.

use vstd::prelude::*;

verus! {

/// A line of the game board, known by its code.
///
/// The second byte of the code is the port expander chip, the lowest byte is the bit on it.
#[derive(Clone, Copy, Debug, PartialEq, Eq, Structural)]
pub struct MyPin {
    pub code: u32,
}

impl MyPin {
    /// The chip that the code names.
    pub open spec fn chip_spec(self) -> int {
        (self.code as int / 256) % 256
    }

    /// The bit that the code names.
    pub open spec fn bit_spec(self) -> int {
        self.code as int % 256
    }

    /// The pin is a line of the eight sixteen-bit output chips.
    pub open spec fn drivable(self) -> bool {
        self.chip_spec() < 8 && self.bit_spec() < 16
    }

    /// The chip that the pin belongs to.
    pub fn chip(&self) -> (chip: usize)
        ensures
            chip == self.chip_spec(),
    {
        let code: u32 = self.code;
        assert((code & 0xFF00) >> 8 == (code / 256) % 256) by (bit_vector);
        ((code & 0xFF00) >> 8) as usize
    }

    /// The bit of the chip that the pin belongs to.
    pub fn bit(&self) -> (bit: u8)
        ensures
            bit == self.bit_spec(),
    {
        let code: u32 = self.code;
        assert(code & 0xFF == code % 256 && code & 0xFF < 256) by (bit_vector);
        (code & 0xFF) as u8
    }

    /// Whether the pin can be driven: it lies on one of the eight chips, on one of sixteen bits.
    pub fn is_drivable(&self) -> (yes: bool)
        ensures
            yes == self.drivable(),
    {
        self.chip() < 8 && self.bit() < 16
    }
}

/// What one input line is connected to.
///
/// `socket` is the number of the socket, where the contact is a socket.
#[derive(Clone, Copy, Debug, PartialEq, Eq)]
pub struct Contact {
    pub pin: MyPin,
    pub socket: Option<usize>,
}

/// The wiring of a game board.
pub struct Board {
    /// What stands for an input line that is connected to nothing.
    pub unknown_pin: MyPin,
    pub mode01: MyPin,
    pub relay01: MyPin,
    pub bell01: MyPin,
    pub map01_tammisaari: MyPin,
    pub map05_turku: MyPin,
    pub quiz01: MyPin,
    pub quiz02: MyPin,
    pub quiz03: MyPin,
    pub quiz04: MyPin,
    pub quiz05: MyPin,
    pub quiz23: MyPin,
    pub quiz24: MyPin,
    /// The contact on each line of the input chips, by chip and bit.
    pub inputs: [[Contact; 16]; 8],
    pub out_socket: [MyPin; 24],
    pub out_quiz: [MyPin; 24],
    pub out_map_a: [MyPin; 24],
    pub out_map_b: [MyPin; 24],
    pub out_map_s: [MyPin; 24],
    pub out_map_n: [MyPin; 24],
    /// The right answer for each socket, per game mode.
    pub answers_map_a: [Option<MyPin>; 24],
    pub answers_map_b: [Option<MyPin>; 24],
    pub answers_quiz: [Option<MyPin>; 24],
}

/// Every pin of a table can be driven.
pub open spec fn all_drivable(pins: Seq<MyPin>) -> bool {
    forall|i: int| 0 <= i < pins.len() ==> (#[trigger] pins[i]).drivable()
}

/// Whether every pin of a table can be driven.
pub fn is_all_drivable(pins: &[MyPin; 24]) -> (yes: bool)
    ensures
        yes == all_drivable(pins@),
{
    let mut i: usize = 0;
    while i < 24
        invariant
            i <= 24,
            forall|k: int| 0 <= k < i ==> (#[trigger] pins@[k]).drivable(),
        decreases 24 - i,
    {
        if !pins[i].is_drivable() {
            return false;
        }
        i += 1;
    }
    true
}

impl Board {
    /// The contact on an input line.
    pub open spec fn contact(&self, chip: int, bit: int) -> Contact {
        self.inputs[chip][bit]
    }

    /// A board that the game can run on: the lamps of its tables are lines of the output chips,
    /// and its sockets have a place among the answers.
    pub open spec fn wf(&self) -> bool {
        &&& self.relay01.drivable()
        &&& self.bell01.drivable()
        &&& all_drivable(self.out_socket@)
        &&& all_drivable(self.out_quiz@)
        &&& all_drivable(self.out_map_a@)
        &&& all_drivable(self.out_map_b@)
        &&& all_drivable(self.out_map_s@)
        &&& all_drivable(self.out_map_n@)
        &&& self.sockets_wf()
    }

    /// Every socket has a place among the answers.
    pub open spec fn sockets_wf(&self) -> bool {
        forall|chip: int, bit: int|
            0 <= chip < 8 && 0 <= bit < 16 ==> match (#[trigger] self.contact(chip, bit)).socket {
                Some(i) => i < 24,
                None => true,
            }
    }

    /// Whether every socket has a place among the answers.
    pub fn is_sockets_wf(&self) -> (yes: bool)
        ensures
            yes == self.sockets_wf(),
    {
        let mut chip: u8 = 0;
        while chip < 8
            invariant
                chip <= 8,
                forall|c: int, b: int|
                    0 <= c < chip && 0 <= b < 16 ==> match (#[trigger] self.contact(c, b)).socket {
                        Some(i) => i < 24,
                        None => true,
                    },
            decreases 8 - chip,
        {
            let mut bit: u8 = 0;
            while bit < 16
                invariant
                    chip < 8,
                    bit <= 16,
                    forall|c: int, b: int|
                        0 <= c < chip && 0 <= b < 16 || c == chip && 0 <= b < bit ==> match (
                        #[trigger] self.contact(c, b)).socket {
                            Some(i) => i < 24,
                            None => true,
                        },
                decreases 16 - bit,
            {
                if let Some(i) = self.contact_at(chip, bit).socket {
                    if i >= 24 {
                        return false;
                    }
                }
                bit += 1;
            }
            chip += 1;
        }
        true
    }

    /// The contact on an input line.
    pub fn contact_at(&self, chip: u8, bit: u8) -> (contact: Contact)
        requires
            chip < 8,
            bit < 16,
        ensures
            contact == self.contact(chip as int, bit as int),
    {
        self.inputs[chip as usize][bit as usize]
    }
}

} // verus!
