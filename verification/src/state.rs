//! The state of the game, its start, its inputs and its output lines.

use rand::rngs::StdRng;
use vstd::prelude::*;
use crate::lamps::{
    after_writes, drive_one, drive_pin, drive_pins, drive_table, law_table_writes, table_writes,
    write_of, Drive, PortWrite,
};
use crate::pins::{all_drivable, MyPin};
use crate::ports::{all_zero, fallen, law_edges_replay, risen};
use crate::tasks::{after, now, Features, Spawn, Task};

verus! {

/// Rand's standard generator of random numbers.
#[verifier::external_type_specification]
#[verifier::external_body]
pub struct ExStdRng(StdRng);

/// Where the test of the outputs stands.
#[derive(Clone, Copy, Debug, PartialEq, Eq, Structural)]
pub enum OutTestState {
    Idle,
    TestQuiz,
    TestMapA,
    TestMapB,
    TestSocket,
}

/// How much of the secret sequence of contacts was touched.
#[derive(Clone, Copy, Debug, PartialEq, Eq, Structural)]
pub enum EasterEggState {
    Start,
    Phase1,
    Phase2,
    Phase3,
    Go,
}

/// The game that is being played.
#[derive(Clone, Copy, Debug, PartialEq, Eq, Structural)]
pub enum GameMode {
    NoGame,
    MapQuiz1,
    MapQuiz2,
    Quiz,
}

/// The state of the game.
pub struct Shared {
    pub led_on: bool,
    /// The inputs as last read, and which of them rose and fell since they were read before.
    pub bits: [u16; 8],
    pub rise: [u16; 8],
    pub fall: [u16; 8],
    /// What was last written to the output chips.
    pub output: [u16; 8],
    pub tstate: OutTestState,
    pub estate: EasterEggState,
    pub gmode: GameMode,
    /// The socket that is connected, and its number.
    pub socket: Option<MyPin>,
    pub socket_i: Option<usize>,
    /// The answers that are still to be found, by socket.
    pub answers: [Option<MyPin>; 24],
    /// Whether lamps are lit at random.
    pub rand: bool,
    pub rng: Option<StdRng>,
}

/// A table was switched: its pins were driven in the output, each was written, ports that held
/// the output before hold it after the writes, and nothing else changed.
pub open spec fn switched(
    before: Shared,
    after: Shared,
    writes: Seq<PortWrite>,
    pins: Seq<MyPin>,
    drive: Drive,
) -> bool {
    &&& after.output@ == drive_pins(before.output@, pins, drive)
    &&& after == (Shared { output: after.output, ..before })
    &&& writes == table_writes(before.output@, pins, drive)
    &&& after_writes(before.output@, writes) == after.output@
}

/// A pin was driven: in the output and in the write, and nothing else changed.
pub open spec fn moved(before: Shared, after: Shared, write: PortWrite, pin: MyPin, drive: Drive)
    -> bool {
    &&& after.output@ == drive_pin(before.output@, pin, drive)
    &&& after == (Shared { output: after.output, ..before })
    &&& write == write_of(after.output@, pin)
    &&& before.output@.update(write.chip as int, write.value) == after.output@
}

/// Every word of the output became the same one, all eight were written, and nothing else changed.
pub open spec fn flooded(before: Shared, after: Shared, writes: Seq<PortWrite>, word: u16) -> bool {
    &&& after.output@ == Seq::new(8, |i: int| word)
    &&& after == (Shared { output: after.output, ..before })
    &&& writes == Seq::new(8, |i: int| PortWrite { chip: i as u8, value: word })
    &&& after_writes(before.output@, writes) == after.output@
}

/// What a poll asks for, from the inputs before and after.
pub open spec fn poll_spawns(before: Seq<u16>, after: Seq<u16>, io_debug: bool) -> Seq<Spawn> {
    (if exists|i: int| 0 <= i < 8 && fallen(#[trigger] before[i], after[i]) != 0 {
        seq![now(Task::InputEventFall)]
    } else {
        seq![]
    }) + (if exists|i: int| 0 <= i < 8 && risen(#[trigger] before[i], after[i]) != 0 {
        seq![now(Task::InputEventRise)]
    } else {
        seq![]
    }) + (if io_debug && before != after {
        seq![now(Task::IoDebug)]
    } else {
        seq![]
    })
}

/// The state at the start, where this was the first reading of the inputs.
pub open spec fn fresh(shared: Shared, bits: [u16; 8]) -> bool {
    &&& shared.wf()
    &&& !shared.led_on
    &&& shared.bits == bits
    &&& all_zero(shared.rise@)
    &&& all_zero(shared.fall@)
    &&& all_zero(shared.output@)
    &&& shared.tstate == OutTestState::TestQuiz
    &&& shared.estate == EasterEggState::Start
    &&& shared.gmode == GameMode::NoGame
    &&& shared.socket is None
    &&& shared.socket_i is None
    &&& forall|i: int| 0 <= i < 24 ==> #[trigger] shared.answers[i] is None
    &&& !shared.rand
    &&& shared.rng is None
}

/// One word in each of the eight places.
fn words(word: u16) -> (bank: [u16; 8])
    ensures
        bank@ == Seq::new(8, |i: int| word),
{
    let bank: [u16; 8] = [word; 8];
    assert(bank@ =~= Seq::new(8, |i: int| word));
    bank
}

impl Shared {
    /// The socket and its number are known together, and the number has a place among the answers.
    pub open spec fn wf(&self) -> bool {
        match (self.socket, self.socket_i) {
            (Some(_), Some(i)) => i < 24,
            (None, None) => true,
            _ => false,
        }
    }

    /// The state at the start, from the first reading of the inputs.
    pub fn new(bits: [u16; 8]) -> (shared: Shared)
        ensures
            fresh(shared, bits),
    {
        Shared {
            led_on: false,
            bits,
            rise: words(0),
            fall: words(0),
            output: words(0),
            tstate: OutTestState::TestQuiz,
            estate: EasterEggState::Start,
            gmode: GameMode::NoGame,
            socket: None,
            socket_i: None,
            answers: [None; 24],
            rand: false,
            rng: None,
        }
    }

    /// Says how to drive the led, and turns it over for the next time.
    pub fn led_blink(&mut self) -> (led: (bool, Vec<Spawn>))
        ensures
            led.0 == old(self).led_on,
            led.1@ == seq![after(1000, Task::LedBlink)],
            *final(self) == (Shared { led_on: !old(self).led_on, ..*old(self) }),
    {
        let led_high: bool = self.led_on;
        self.led_on = !led_high;
        (led_high, vec![after(1000, Task::LedBlink)])
    }

    /// Takes a reading of all inputs and marks what changed since the reading before.
    pub fn io_poll(&mut self, reading: &[u16; 8], features: &Features) -> (spawns: Vec<Spawn>)
        ensures
            final(self).bits@ == reading@,
            forall|i: int|
                0 <= i < 8 ==> #[trigger] final(self).rise@[i] == risen(
                    old(self).bits@[i],
                    reading@[i],
                ),
            forall|i: int|
                0 <= i < 8 ==> #[trigger] final(self).fall@[i] == fallen(
                    old(self).bits@[i],
                    reading@[i],
                ),
            *final(self) == (Shared {
                bits: final(self).bits,
                rise: final(self).rise,
                fall: final(self).fall,
                ..*old(self)
            }),
            spawns@ == poll_spawns(old(self).bits@, reading@, features.io_debug),
    {
        let ghost start: Shared = *self;
        let mut changed: bool = false;
        let mut is_fallen: bool = false;
        let mut is_risen: bool = false;
        let mut i: usize = 0;
        while i < 8
            invariant
                i <= 8,
                *self == (Shared { bits: self.bits, rise: self.rise, fall: self.fall, ..start }),
                forall|k: int| 0 <= k < i ==> #[trigger] self.bits@[k] == reading@[k],
                forall|k: int| i <= k < 8 ==> #[trigger] self.bits@[k] == start.bits@[k],
                forall|k: int|
                    0 <= k < i ==> #[trigger] self.rise@[k] == risen(start.bits@[k], reading@[k]),
                forall|k: int|
                    0 <= k < i ==> #[trigger] self.fall@[k] == fallen(start.bits@[k], reading@[k]),
                changed <==> exists|k: int|
                    0 <= k < i && #[trigger] start.bits@[k] != reading@[k],
                is_fallen <==> exists|k: int|
                    0 <= k < i && fallen(#[trigger] start.bits@[k], reading@[k]) != 0,
                is_risen <==> exists|k: int|
                    0 <= k < i && risen(#[trigger] start.bits@[k], reading@[k]) != 0,
            decreases 8 - i,
        {
            let before: u16 = self.bits[i];
            let after: u16 = reading[i];
            self.bits[i] = after;
            self.rise[i] = 0;
            self.fall[i] = 0;
            proof {
                assert(before == start.bits@[i as int]);
                law_edges_replay(before, after);
            }
            if after != before {
                changed = true;
                let risen_bits: u16 = !before & after;
                if risen_bits != 0 {
                    is_risen = true;
                    self.rise[i] = risen_bits;
                }
                let fallen_bits: u16 = before & !after;
                if fallen_bits != 0 {
                    is_fallen = true;
                    self.fall[i] = fallen_bits;
                }
            }
            i += 1;
        }
        proof {
            if start.bits@ != reading@ {
                assert(!(start.bits@ =~= reading@));
            }
            assert(self.bits@ =~= reading@);
        }
        let mut spawns: Vec<Spawn> = Vec::new();
        if is_fallen {
            spawns.push(now(Task::InputEventFall));
        }
        if is_risen {
            spawns.push(now(Task::InputEventRise));
        }
        if features.io_debug && changed {
            spawns.push(now(Task::IoDebug));
        }
        spawns
    }

    /// Drives one pin.
    fn drive(&mut self, pin: MyPin, drive: Drive) -> (write: PortWrite)
        requires
            pin.drivable(),
        ensures
            moved(*old(self), *final(self), write, pin, drive),
    {
        drive_one(&mut self.output, pin, drive)
    }

    /// Lights a lamp.
    pub fn set_output(&mut self, pin: MyPin) -> (write: PortWrite)
        requires
            pin.drivable(),
        ensures
            moved(*old(self), *final(self), write, pin, Drive::High),
    {
        self.drive(pin, Drive::High)
    }

    /// Turns a lamp over.
    pub fn toggle_output(&mut self, pin: MyPin) -> (write: PortWrite)
        requires
            pin.drivable(),
        ensures
            moved(*old(self), *final(self), write, pin, Drive::Flip),
    {
        self.drive(pin, Drive::Flip)
    }

    /// Puts out a lamp.
    pub fn clear_output(&mut self, pin: MyPin) -> (write: PortWrite)
        requires
            pin.drivable(),
        ensures
            moved(*old(self), *final(self), write, pin, Drive::Low),
    {
        self.drive(pin, Drive::Low)
    }

    /// Sets every word of the output to one value.
    fn flood(&mut self, word: u16) -> (writes: Vec<PortWrite>)
        ensures
            flooded(*old(self), *final(self), writes@, word),
    {
        let ghost bank: Seq<u16> = self.output@;
        let ghost all: Seq<PortWrite> = Seq::new(8, |i: int| PortWrite { chip: i as u8, value: word });
        self.output = words(word);
        let mut writes: Vec<PortWrite> = Vec::new();
        let mut i: usize = 0;
        while i < 8
            invariant
                i <= 8,
                bank.len() == 8,
                all == Seq::new(8, |i: int| PortWrite { chip: i as u8, value: word }),
                writes@ == all.take(i as int),
                after_writes(bank, writes@).len() == 8,
                forall|k: int| 0 <= k < i ==> #[trigger] after_writes(bank, writes@)[k] == word,
            decreases 8 - i,
        {
            let ghost done: Seq<PortWrite> = writes@;
            writes.push(PortWrite { chip: i as u8, value: word });
            proof {
                assert(writes@.drop_last() =~= done);
                assert(writes@ =~= all.take(i + 1));
            }
            i += 1;
        }
        proof {
            assert(all.take(8) =~= all);
            assert(after_writes(bank, writes@) =~= self.output@);
        }
        writes
    }

    /// Puts out every lamp.
    pub fn out_zero(&mut self) -> (writes: Vec<PortWrite>)
        ensures
            flooded(*old(self), *final(self), writes@, 0),
    {
        self.flood(0)
    }

    /// Lights every lamp.
    pub fn out_ones(&mut self) -> (writes: Vec<PortWrite>)
        ensures
            flooded(*old(self), *final(self), writes@, 0xFFFF),
    {
        self.flood(0xFFFF)
    }

    /// Drives a table of pins.
    pub(crate) fn switch(&mut self, pins: &[MyPin; 24], drive: Drive) -> (writes: Vec<PortWrite>)
        requires
            all_drivable(pins@),
        ensures
            switched(*old(self), *final(self), writes@, pins@, drive),
    {
        proof {
            law_table_writes(self.output@, pins@, drive);
        }
        drive_table(&mut self.output, pins, drive)
    }
}

} // verus!
