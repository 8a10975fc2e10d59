//! Light shows: the test of the outputs, the easter egg and lamps at random.

use rand::rngs::StdRng;
use rand::{RngCore, SeedableRng};
use vstd::prelude::*;
use crate::lamps::{after_writes, drive_pins, table_writes, Drive, PortWrite};
use crate::pins::{all_drivable, Board, Contact, MyPin};
use crate::state::{OutTestState, Shared};
use crate::tasks::{after, now, Features, Spawn, Task};

verus! {

/// What a show does to the output chips, and the tasks that it asks for.
pub struct Effects {
    pub writes: Vec<PortWrite>,
    pub spawns: Vec<Spawn>,
}

/// The step of the test that follows.
pub open spec fn next_test(tstate: OutTestState) -> OutTestState {
    match tstate {
        OutTestState::TestQuiz => OutTestState::TestMapA,
        OutTestState::TestMapA => OutTestState::TestMapB,
        OutTestState::TestMapB => OutTestState::TestSocket,
        OutTestState::TestSocket => OutTestState::Idle,
        OutTestState::Idle => OutTestState::Idle,
    }
}

/// The table that a step of the test lights, where there is one.
pub open spec fn test_table(board: &Board, tstate: OutTestState) -> Option<Seq<MyPin>> {
    match tstate {
        OutTestState::TestQuiz => Some(board.out_quiz@),
        OutTestState::TestMapA => Some(board.out_map_a@),
        OutTestState::TestMapB => Some(board.out_map_b@),
        OutTestState::TestSocket => Some(board.out_socket@),
        OutTestState::Idle => None,
    }
}

/// Every pin of a table can be driven, where there is a table.
pub open spec fn table_drivable(table: Option<Seq<MyPin>>) -> bool {
    match table {
        Some(pins) => all_drivable(pins),
        None => true,
    }
}

/// What a step of the test asks for.
pub open spec fn test_spawns(tstate: OutTestState) -> Seq<Spawn> {
    if tstate == OutTestState::Idle {
        seq![now(Task::TingBell01)]
    } else {
        seq![now(Task::ClickRelay01), after(900, Task::OutZero), after(1000, Task::TestOutput)]
    }
}

/// The table that the easter egg lights for a pin, where there is one.
pub open spec fn egg_table(board: &Board, pin: MyPin) -> Option<Seq<MyPin>> {
    if pin == board.quiz01 {
        Some(board.out_quiz@)
    } else if pin == board.quiz02 {
        Some(board.out_map_a@)
    } else if pin == board.quiz03 {
        Some(board.out_map_b@)
    } else if pin == board.quiz04 {
        Some(board.out_socket@)
    } else {
        None
    }
}

/// Whether lamps are lit at random after the easter egg for a pin.
pub open spec fn egg_rand(board: &Board, pin: MyPin, rand: bool) -> bool {
    if egg_table(board, pin) is Some || pin == board.quiz05 {
        rand
    } else if pin == board.quiz23 {
        true
    } else if pin == board.quiz24 {
        false
    } else {
        rand
    }
}

/// What the easter egg for a pin asks for.
pub open spec fn egg_show_spawns(board: &Board, pin: MyPin) -> Seq<Spawn> {
    if egg_table(board, pin) is Some {
        seq![]
    } else if pin == board.quiz05 {
        seq![now(Task::OutZero)]
    } else if pin == board.quiz23 {
        seq![now(Task::RandOutput)]
    } else {
        seq![]
    }
}

/// The output and the writes of a show that lights a table, or none.
pub open spec fn lit(
    before: Seq<u16>,
    after: Seq<u16>,
    writes: Seq<PortWrite>,
    table: Option<Seq<MyPin>>,
) -> bool {
    &&& after_writes(before, writes) == after
    &&& match table {
        Some(pins) => after == drive_pins(before, pins, Drive::High) && writes == table_writes(
            before,
            pins,
            Drive::High,
        ),
        None => after == before && writes.len() == 0,
    }
}

/// Where a random number of two bytes points among the inputs.
pub open spec fn rand_contact(board: &Board, r: Seq<u8>) -> Contact {
    board.contact(r[0] as int % 8, r[1] as int % 16)
}

/// What lighting a lamp at random asks for: the lamp that the random bytes point at goes on, and
/// off half a second later, and while it is to go on there is a next one.
pub open spec fn rand_spawns(board: &Board, r: Seq<u8>, rand: bool) -> Seq<Spawn> {
    let pin = rand_contact(board, r).pin;
    (if pin == board.unknown_pin {
        seq![]
    } else {
        seq![now(Task::SetOutput(pin)), after(500, Task::ClearOutput(pin))]
    }) + (if rand {
        seq![after(50, Task::RandOutput)]
    } else {
        seq![]
    })
}

/// The words that a generator gives from here on, the next one first.
pub uninterp spec fn rng_word(rng: StdRng, i: nat) -> u32;

/// The words that a generator seeded with a number gives, the first one first.
pub uninterp spec fn seeded_word(seed: u64, i: nat) -> u32;

/// The two lower bytes of a word, the lowest first.
pub open spec fn low_bytes(word: u32) -> Seq<u8> {
    seq![(word % 256) as u8, (word / 256 % 256) as u8]
}

/// The word that a generator, or one that would be seeded now, gives in a number of steps.
pub open spec fn coming_word(rng: Option<StdRng>, ticks: u64, i: nat) -> u32 {
    match rng {
        Some(rng) => rng_word(rng, i),
        None => seeded_word(ticks, i),
    }
}

/// A lamp was lit at random: the generator's next word pointed at it, and the generator, seeded
/// with the ticks if there was none, is one word further.
pub open spec fn blinked(
    before: Shared,
    after: Shared,
    board: &Board,
    ticks: u64,
    spawns: Seq<Spawn>,
) -> bool {
    &&& spawns == rand_spawns(board, low_bytes(coming_word(before.rng, ticks, 0)), before.rand)
    &&& after.rng is Some
    &&& forall|i: nat| #[trigger]
        rng_word(after.rng->0, i) == coming_word(before.rng, ticks, i + 1)
    &&& after == (Shared { rng: after.rng, ..before })
}

/// A generator made by rand's `StdRng::seed_from_u64`.
///
/// The words that it gives are a function of the seed alone: of the ChaCha stream that the seed is
/// the key of. Which words they are is not said.
#[verifier::external_body]
fn seed_rng(seed: u64) -> (rng: StdRng)
    ensures
        forall|i: nat| #[trigger] rng_word(rng, i) == seeded_word(seed, i),
{
    StdRng::seed_from_u64(seed)
}

/// Two random bytes, by rand's `StdRng::fill_bytes`.
///
/// The bytes are the two lower ones of the generator's next word, the lowest first, and the
/// generator goes on with the word that follows.
#[verifier::external_body]
fn fill_bytes(rng: &mut StdRng) -> (r: [u8; 2])
    ensures
        r@ == low_bytes(rng_word(*old(rng), 0)),
        forall|i: nat| #[trigger] rng_word(*final(rng), i) == rng_word(*old(rng), i + 1),
{
    let mut r: [u8; 2] = [0; 2];
    rng.fill_bytes(&mut r);
    r
}

/// Lights the lamp that two random bytes point at, for half a second.
pub fn rand_blink(board: &Board, r: &[u8; 2], rand: bool) -> (spawns: Vec<Spawn>)
    ensures
        spawns@ == rand_spawns(board, r@, rand),
{
    let r0: u8 = r[0];
    let r1: u8 = r[1];
    assert(r0 & 0x07 == r0 % 8) by (bit_vector);
    assert(r1 & 0x0F == r1 % 16) by (bit_vector);
    let pin: MyPin = board.contact_at(r0 & 0x07, r1 & 0x0F).pin;
    let mut spawns: Vec<Spawn> = Vec::new();
    if pin != board.unknown_pin {
        spawns.push(now(Task::SetOutput(pin)));
        spawns.push(after(500, Task::ClearOutput(pin)));
    }
    if rand {
        spawns.push(after(50, Task::RandOutput));
    }
    spawns
}

impl Shared {
    /// Takes the test of the outputs one table further; after the last one the bell rings.
    pub fn test_output(&mut self, board: &Board, features: &Features) -> (effects: Effects)
        requires
            features.test_output ==> table_drivable(test_table(board, old(self).tstate)),
        ensures
            !features.test_output ==> {
                &&& *final(self) == *old(self)
                &&& effects.writes@.len() == 0
                &&& effects.spawns@.len() == 0
            },
            features.test_output ==> {
                &&& final(self).tstate == next_test(old(self).tstate)
                &&& lit(
                    old(self).output@,
                    final(self).output@,
                    effects.writes@,
                    test_table(board, old(self).tstate),
                )
                &&& *final(self) == (Shared {
                    tstate: final(self).tstate,
                    output: final(self).output,
                    ..*old(self)
                })
                &&& effects.spawns@ == test_spawns(old(self).tstate)
            },
    {
        if !features.test_output {
            return Effects { writes: Vec::new(), spawns: Vec::new() };
        }
        let writes: Vec<PortWrite> = match self.tstate {
            OutTestState::TestQuiz => {
                self.tstate = OutTestState::TestMapA;
                self.switch(&board.out_quiz, Drive::High)
            },
            OutTestState::TestMapA => {
                self.tstate = OutTestState::TestMapB;
                self.switch(&board.out_map_a, Drive::High)
            },
            OutTestState::TestMapB => {
                self.tstate = OutTestState::TestSocket;
                self.switch(&board.out_map_b, Drive::High)
            },
            OutTestState::TestSocket => {
                self.tstate = OutTestState::Idle;
                self.switch(&board.out_socket, Drive::High)
            },
            OutTestState::Idle => {
                return Effects { writes: Vec::new(), spawns: vec![now(Task::TingBell01)] };
            },
        };
        Effects {
            writes,
            spawns: vec![
                now(Task::ClickRelay01),
                after(900, Task::OutZero),
                after(1000, Task::TestOutput),
            ],
        }
    }

    /// Gives the show that the secret sequence of contacts opened, by the contact touched next.
    pub fn easter_egg(&mut self, board: &Board, pin: MyPin) -> (effects: Effects)
        requires
            table_drivable(egg_table(board, pin)),
        ensures
            lit(
                old(self).output@,
                final(self).output@,
                effects.writes@,
                egg_table(board, pin),
            ),
            final(self).rand == egg_rand(board, pin, old(self).rand),
            *final(self) == (Shared {
                rand: final(self).rand,
                output: final(self).output,
                ..*old(self)
            }),
            effects.spawns@ == egg_show_spawns(board, pin),
    {
        let mut spawns: Vec<Spawn> = Vec::new();
        let writes: Vec<PortWrite> = if pin == board.quiz01 {
            self.switch(&board.out_quiz, Drive::High)
        } else if pin == board.quiz02 {
            self.switch(&board.out_map_a, Drive::High)
        } else if pin == board.quiz03 {
            self.switch(&board.out_map_b, Drive::High)
        } else if pin == board.quiz04 {
            self.switch(&board.out_socket, Drive::High)
        } else {
            if pin == board.quiz05 {
                spawns.push(now(Task::OutZero));
            } else if pin == board.quiz23 {
                self.rand = true;
                spawns.push(now(Task::RandOutput));
            } else if pin == board.quiz24 {
                self.rand = false;
            }
            Vec::new()
        };
        Effects { writes, spawns }
    }

    /// Lights a lamp at random for half a second; the first time, the generator is seeded with the
    /// ticks of the clock.
    pub fn rand_output(&mut self, board: &Board, ticks: u64) -> (spawns: Vec<Spawn>)
        ensures
            blinked(*old(self), *final(self), board, ticks, spawns@),
    {
        let mut rng: StdRng = match self.rng.take() {
            Some(rng) => rng,
            None => seed_rng(ticks),
        };
        let r = fill_bytes(&mut rng);
        self.rng = Some(rng);
        rand_blink(board, &r, self.rand)
    }
}

} // verus!
