//! Running the tasks of the game, and what the board shows meanwhile.

use vstd::prelude::*;
use crate::game::{let_go, touched};
use crate::lamps::{
    after_writes, drive_pins, law_drive_pin, law_drive_pins, lemma_drive_pins_len, Drive, PortWrite,
};
use crate::pins::{all_drivable, Board, MyPin};
use crate::ports::{first_line, law_edges, lemma_zero_low, line};
use crate::shows::blinked;
use crate::state::{flooded, moved, poll_spawns, switched, OutTestState, Shared};
use crate::tables::{click_relay01, ting_bell01};
use crate::tasks::{
    after, alive, enable_io_irq, gamemode_map1, gamemode_map2, gamemode_quiz, io_noirq, map_all_off,
    map_all_on, now, Features, Spawn, Task,
};

verus! {

/// The pin is at a line: its code ends in the two bytes chip and bit.
pub open spec fn at(pin: MyPin, chip: int, bit: int) -> bool {
    pin.code as int % 65536 == chip * 256 + bit
}

/// Some pin of a table is at a line.
pub open spec fn in_table(pins: Seq<MyPin>, chip: int, bit: int) -> bool {
    exists|i: int| 0 <= i < pins.len() && at(#[trigger] pins[i], chip, bit)
}

/// The level of a line once a task is over, from the level before; a click of the relay and a ting
/// of the bell are over when they are silent again.
pub open spec fn line_after(board: &Board, level: bool, task: Task, chip: int, bit: int) -> bool {
    match task {
        Task::SetOutput(pin) => level || at(pin, chip, bit),
        Task::ClearOutput(pin) => level && !at(pin, chip, bit),
        Task::ToggleOutput(pin) => level != at(pin, chip, bit),
        Task::ClickRelay01 => level && !at(board.relay01, chip, bit),
        Task::TingBell01 => level && !at(board.bell01, chip, bit),
        Task::OutZero => false,
        Task::OutOnes => true,
        Task::SocketsOn => level || in_table(board.out_socket@, chip, bit),
        Task::SocketsOff => level && !in_table(board.out_socket@, chip, bit),
        Task::QuizOn => level || in_table(board.out_quiz@, chip, bit),
        Task::QuizOff => level && !in_table(board.out_quiz@, chip, bit),
        Task::MapAOn => level || in_table(board.out_map_a@, chip, bit),
        Task::MapAOff => level && !in_table(board.out_map_a@, chip, bit),
        Task::MapBOn => level || in_table(board.out_map_b@, chip, bit),
        Task::MapBOff => level && !in_table(board.out_map_b@, chip, bit),
        Task::MapSOn => level || in_table(board.out_map_s@, chip, bit),
        Task::MapSOff => level && !in_table(board.out_map_s@, chip, bit),
        Task::MapNOn => level || in_table(board.out_map_n@, chip, bit),
        Task::MapNOff => level && !in_table(board.out_map_n@, chip, bit),
        Task::MapAllOn => level || in_table(board.out_map_s@, chip, bit) || in_table(
            board.out_map_n@,
            chip,
            bit,
        ),
        Task::MapAllOff => level && !in_table(board.out_map_s@, chip, bit) && !in_table(
            board.out_map_n@,
            chip,
            bit,
        ),
        _ => level,
    }
}

/// The level of a line a number of milliseconds after tasks were asked for that stand in the order
/// in which they are due, from the level before.
pub open spec fn level_at(
    board: &Board,
    level: bool,
    spawns: Seq<Spawn>,
    ms: int,
    chip: int,
    bit: int,
) -> bool
    decreases spawns.len(),
{
    if spawns.len() == 0 {
        level
    } else {
        let sooner = level_at(board, level, spawns.drop_last(), ms, chip, bit);
        if spawns.last().delay_ms <= ms {
            line_after(board, sooner, spawns.last().task, chip, bit)
        } else {
            sooner
        }
    }
}

/// What a task may need from outside: the levels of the inputs and the ticks of the clock.
pub struct Inputs {
    pub reading: [u16; 8],
    pub ticks: u64,
}

/// What running a task leads to: a level for the led, words for the output ports, further tasks.
pub struct Outcome {
    pub led: Option<bool>,
    pub writes: Vec<PortWrite>,
    pub spawns: Vec<Spawn>,
}

/// Every line of the output went as a task tells, ports that held the output hold it after the
/// writes, and nothing else changed.
pub open spec fn lamps_ran(
    before: Shared,
    after: Shared,
    board: &Board,
    task: Task,
    writes: Seq<PortWrite>,
) -> bool {
    &&& forall|chip: int, bit: int|
        0 <= chip < 8 && 0 <= bit < 16 ==> #[trigger] line(after.output@, chip, bit) == line_after(
            board,
            line(before.output@, chip, bit),
            task,
            chip,
            bit,
        )
    &&& after_writes(before.output@, writes) == after.output@
    &&& after == (Shared { output: after.output, ..before })
}

/// Every line of the output with a pin of a table is high, every other is as it was, and ports that
/// held the output hold it after the writes.
pub open spec fn table_shown(
    before: Seq<u16>,
    after: Seq<u16>,
    pins: Seq<MyPin>,
    writes: Seq<PortWrite>,
) -> bool {
    &&& forall|chip: int, bit: int|
        0 <= chip < 8 && 0 <= bit < 16 ==> #[trigger] line(after, chip, bit) == (line(
            before,
            chip,
            bit,
        ) || in_table(pins, chip, bit))
    &&& after_writes(before, writes) == after
    &&& writes.len() == pins.len()
}

/// The test of the outputs was run.
pub open spec fn test_ran(
    before: Shared,
    after: Shared,
    board: &Board,
    wanted: bool,
    writes: Seq<PortWrite>,
    spawns: Seq<Spawn>,
) -> bool {
    let step = seq![
        now(Task::ClickRelay01),
        crate::tasks::after(900, Task::OutZero),
        crate::tasks::after(1000, Task::TestOutput),
    ];
    let b = before.output@;
    let a = after.output@;
    &&& after == (Shared { tstate: after.tstate, output: after.output, ..before })
    &&& if !wanted {
        after == before && writes.len() == 0 && spawns.len() == 0
    } else if before.tstate == OutTestState::Idle {
        after == before && writes.len() == 0 && spawns == seq![now(Task::TingBell01)]
    } else {
        &&& spawns == step
        &&& before.tstate == OutTestState::TestQuiz ==> after.tstate == OutTestState::TestMapA
            && table_shown(b, a, board.out_quiz@, writes)
        &&& before.tstate == OutTestState::TestMapA ==> after.tstate == OutTestState::TestMapB
            && table_shown(b, a, board.out_map_a@, writes)
        &&& before.tstate == OutTestState::TestMapB ==> after.tstate == OutTestState::TestSocket
            && table_shown(b, a, board.out_map_b@, writes)
        &&& before.tstate == OutTestState::TestSocket ==> after.tstate == OutTestState::Idle
            && table_shown(b, a, board.out_socket@, writes)
    }
}

/// The easter egg was given for a pin; where the board gives two of its pins one code, the first
/// of them counts.
pub open spec fn egg_ran(
    before: Shared,
    after: Shared,
    board: &Board,
    pin: MyPin,
    writes: Seq<PortWrite>,
    spawns: Seq<Spawn>,
) -> bool {
    let b = before.output@;
    let a = after.output@;
    &&& after == (Shared { rand: after.rand, output: after.output, ..before })
    &&& if pin == board.quiz01 {
        table_shown(b, a, board.out_quiz@, writes) && after.rand == before.rand && spawns.len() == 0
    } else if pin == board.quiz02 {
        table_shown(b, a, board.out_map_a@, writes) && after.rand == before.rand && spawns.len()
            == 0
    } else if pin == board.quiz03 {
        table_shown(b, a, board.out_map_b@, writes) && after.rand == before.rand && spawns.len()
            == 0
    } else if pin == board.quiz04 {
        table_shown(b, a, board.out_socket@, writes) && after.rand == before.rand && spawns.len()
            == 0
    } else if pin == board.quiz05 {
        after == before && writes.len() == 0 && spawns == seq![now(Task::OutZero)]
    } else if pin == board.quiz23 {
        a == b && after.rand && writes.len() == 0 && spawns == seq![now(Task::RandOutput)]
    } else if pin == board.quiz24 {
        a == b && !after.rand && writes.len() == 0 && spawns.len() == 0
    } else {
        after == before && writes.len() == 0 && spawns.len() == 0
    }
}

/// The inputs were polled: a line has risen where it was low and is high, has fallen where it was
/// high and is low, and what that asks for is asked for once, falls first.
pub open spec fn poll_ran(
    before: Shared,
    after: Shared,
    reading: Seq<u16>,
    io_debug: bool,
    spawns: Seq<Spawn>,
) -> bool {
    let fell = exists|chip: int, bit: int|
        0 <= chip < 8 && 0 <= bit < 16 && #[trigger] line(before.bits@, chip, bit) && !line(
            reading,
            chip,
            bit,
        );
    let rose = exists|chip: int, bit: int|
        0 <= chip < 8 && 0 <= bit < 16 && !#[trigger] line(before.bits@, chip, bit) && line(
            reading,
            chip,
            bit,
        );
    &&& after.bits@ == reading
    &&& forall|chip: int, bit: int|
        0 <= chip < 8 && 0 <= bit < 16 ==> #[trigger] line(after.rise@, chip, bit) == (!line(
            before.bits@,
            chip,
            bit,
        ) && line(reading, chip, bit))
    &&& forall|chip: int, bit: int|
        0 <= chip < 8 && 0 <= bit < 16 ==> #[trigger] line(after.fall@, chip, bit) == (line(
            before.bits@,
            chip,
            bit,
        ) && !line(reading, chip, bit))
    &&& after == (Shared { bits: after.bits, rise: after.rise, fall: after.fall, ..before })
    &&& spawns == (if fell {
        seq![now(Task::InputEventFall)]
    } else {
        seq![]
    }) + (if rose {
        seq![now(Task::InputEventRise)]
    } else {
        seq![]
    }) + (if io_debug && before.bits@ != reading {
        seq![now(Task::IoDebug)]
    } else {
        seq![]
    })
}

/// A task was run: this is what became of the state and what it led to.
pub open spec fn ran(
    before: Shared,
    after: Shared,
    board: &Board,
    features: Features,
    inputs: Inputs,
    task: Task,
    outcome: Outcome,
) -> bool {
    let writes = outcome.writes@;
    let spawns = outcome.spawns@;
    let idle = after == before && writes.len() == 0;
    &&& outcome.led is Some <==> task == Task::LedBlink
    &&& match task {
        Task::LedBlink => {
            &&& outcome.led == Some(before.led_on)
            &&& after == (Shared { led_on: !before.led_on, ..before })
            &&& writes.len() == 0
            &&& spawns == seq![crate::tasks::after(1000, Task::LedBlink)]
        },
        Task::Alive => idle && spawns == seq![crate::tasks::after(5000, Task::Alive)],
        Task::IoNoirq => idle && spawns == seq![
            now(Task::IoPoll),
            crate::tasks::after(100, Task::IoNoirq),
        ],
        Task::EnableIoIrq => idle && spawns == seq![now(Task::IoPoll)],
        Task::IoDebug => idle && spawns.len() == 0,
        Task::IoPoll => writes.len() == 0 && poll_ran(
            before,
            after,
            inputs.reading@,
            features.io_debug,
            spawns,
        ),
        Task::InputEventFall => writes.len() == 0 && match first_line(before.fall@) {
            Some(place) => touched(
                before,
                after,
                board,
                board.inputs[place.0][place.1],
                spawns,
            ),
            None => after == before && spawns.len() == 0,
        },
        Task::InputEventRise => writes.len() == 0 && match first_line(before.rise@) {
            Some(place) => let_go(before, after, board, board.inputs[place.0][place.1], spawns),
            None => after == before && spawns.len() == 0,
        },
        Task::TestOutput => test_ran(before, after, board, features.test_output, writes, spawns),
        Task::RandOutput => writes.len() == 0 && blinked(
            before,
            after,
            board,
            inputs.ticks,
            spawns,
        ),
        Task::EasterEgg(pin) => egg_ran(before, after, board, pin, writes, spawns),
        Task::ClickRelay01 => idle && spawns == seq![
            now(Task::SetOutput(board.relay01)),
            crate::tasks::after(100, Task::ClearOutput(board.relay01)),
        ],
        Task::TingBell01 => idle && spawns == seq![
            now(Task::SetOutput(board.bell01)),
            crate::tasks::after(100, Task::ClearOutput(board.bell01)),
        ],
        Task::MapAllOn => idle && spawns == seq![now(Task::MapSOn), now(Task::MapNOn)],
        Task::MapAllOff => idle && spawns == seq![now(Task::MapSOff), now(Task::MapNOff)],
        Task::GamemodeMap1 => idle && spawns == crate::tasks::map1_spawns(),
        Task::GamemodeMap2 => idle && spawns == crate::tasks::map2_spawns(),
        Task::GamemodeQuiz => idle && spawns == crate::tasks::quiz_spawns(),
        _ => lamps_ran(before, after, board, task, writes) && spawns.len() == 0,
    }
}

/// A pin is at the line that its chip and bit name.
pub proof fn lemma_at(pin: MyPin, chip: int, bit: int)
    requires
        0 <= chip < 256,
        0 <= bit < 256,
    ensures
        at(pin, chip, bit) <==> pin.chip_spec() == chip && pin.bit_spec() == bit,
{
}

/// A table has a pin at a line exactly where the tables of the lamps say so.
proof fn lemma_in_table(pins: Seq<MyPin>, chip: int, bit: int)
    requires
        0 <= chip < 8,
        0 <= bit < 16,
    ensures
        in_table(pins, chip, bit) == crate::lamps::has_pin(pins, chip, bit),
{
    if in_table(pins, chip, bit) {
        let i = choose|i: int| 0 <= i < pins.len() && at(#[trigger] pins[i], chip, bit);
        lemma_at(pins[i], chip, bit);
    }
    if crate::lamps::has_pin(pins, chip, bit) {
        let i = choose|i: int|
            0 <= i < pins.len() && (#[trigger] pins[i]).chip_spec() == chip && pins[i].bit_spec()
                == bit;
        lemma_at(pins[i], chip, bit);
    }
}

/// A table that was switched on or off went so line by line.
pub proof fn law_switched(
    before: Shared,
    after: Shared,
    writes: Seq<PortWrite>,
    pins: Seq<MyPin>,
    on: bool,
    chip: int,
    bit: int,
)
    requires
        switched(
            before,
            after,
            writes,
            pins,
            if on {
                Drive::High
            } else {
                Drive::Low
            },
        ),
        all_drivable(pins),
        0 <= chip < 8,
        0 <= bit < 16,
    ensures
        in_table(pins, chip, bit) ==> line(after.output@, chip, bit) == on,
        !in_table(pins, chip, bit) ==> line(after.output@, chip, bit) == line(
            before.output@,
            chip,
            bit,
        ),
{
    lemma_in_table(pins, chip, bit);
    law_drive_pins(before.output@, pins, on, chip, bit);
}

/// A pin that was driven went so, and every other line stayed.
pub proof fn law_moved(
    before: Shared,
    after: Shared,
    write: PortWrite,
    pin: MyPin,
    drive: Drive,
    chip: int,
    bit: int,
)
    requires
        moved(before, after, write, pin, drive),
        pin.drivable(),
        0 <= chip < 8,
        0 <= bit < 16,
    ensures
        !at(pin, chip, bit) ==> line(after.output@, chip, bit) == line(before.output@, chip, bit),
        at(pin, chip, bit) && drive == Drive::High ==> line(after.output@, chip, bit),
        at(pin, chip, bit) && drive == Drive::Low ==> !line(after.output@, chip, bit),
        at(pin, chip, bit) && drive == Drive::Flip ==> line(after.output@, chip, bit) != line(
            before.output@,
            chip,
            bit,
        ),
        at(pin, chip, bit) ==> write.chip == chip && write.value == after.output@[chip],
{
    lemma_at(pin, chip, bit);
    law_drive_pin(before.output@, pin, drive, chip, bit);
}

/// One write leaves ports as it says.
proof fn lemma_one_write(ports: Seq<u16>, write: PortWrite)
    ensures
        after_writes(ports, seq![write]) == ports.update(write.chip as int, write.value),
{
    assert(seq![write].drop_last() =~= Seq::<PortWrite>::empty());
    assert(after_writes(ports, Seq::<PortWrite>::empty()) == ports);
}

/// A pin that was driven is a lamp task that was run.
proof fn lemma_moved_ran(
    before: Shared,
    after: Shared,
    board: &Board,
    write: PortWrite,
    pin: MyPin,
    drive: Drive,
    task: Task,
)
    requires
        moved(before, after, write, pin, drive),
        pin.drivable(),
        task == match drive {
            Drive::High => Task::SetOutput(pin),
            Drive::Low => Task::ClearOutput(pin),
            Drive::Flip => Task::ToggleOutput(pin),
        },
    ensures
        lamps_ran(before, after, board, task, seq![write]),
{
    assert forall|chip: int, bit: int| 0 <= chip < 8 && 0 <= bit < 16 implies #[trigger] line(
        after.output@,
        chip,
        bit,
    ) == line_after(board, line(before.output@, chip, bit), task, chip, bit) by {
        law_moved(before, after, write, pin, drive, chip, bit);
    }
    lemma_one_write(before.output@, write);
}

/// A table that was switched is a lamp task that was run.
proof fn lemma_switched_ran(
    before: Shared,
    after: Shared,
    board: &Board,
    writes: Seq<PortWrite>,
    pins: Seq<MyPin>,
    on: bool,
    task: Task,
)
    requires
        switched(
            before,
            after,
            writes,
            pins,
            if on {
                Drive::High
            } else {
                Drive::Low
            },
        ),
        all_drivable(pins),
        forall|level: bool, chip: int, bit: int| #[trigger]
            line_after(board, level, task, chip, bit) == if in_table(pins, chip, bit) {
                on
            } else {
                level
            },
    ensures
        lamps_ran(before, after, board, task, writes),
{
    assert forall|chip: int, bit: int| 0 <= chip < 8 && 0 <= bit < 16 implies #[trigger] line(
        after.output@,
        chip,
        bit,
    ) == line_after(board, line(before.output@, chip, bit), task, chip, bit) by {
        law_switched(before, after, writes, pins, on, chip, bit);
    }
}

/// An output that was flooded is a lamp task that was run.
proof fn lemma_flooded_ran(
    before: Shared,
    after: Shared,
    board: &Board,
    writes: Seq<PortWrite>,
    ones: bool,
    task: Task,
)
    requires
        flooded(
            before,
            after,
            writes,
            if ones {
                0xFFFF
            } else {
                0
            },
        ),
        task == if ones {
            Task::OutOnes
        } else {
            Task::OutZero
        },
    ensures
        lamps_ran(before, after, board, task, writes),
{
    assert forall|chip: int, bit: int| 0 <= chip < 8 && 0 <= bit < 16 implies #[trigger] line(
        after.output@,
        chip,
        bit,
    ) == ones by {
        lemma_zero_low(bit);
        let b: u16 = bit as u16;
        assert(0xFFFFu16 & (1u16 << b) != 0) by (bit_vector)
            requires
                b < 16,
        ;
    }
}

/// After a show that lit a table, every line with a pin of it is high and every other is as it was;
/// after one that lit none, all are as they were.
pub proof fn law_lit(
    before: Seq<u16>,
    after: Seq<u16>,
    writes: Seq<PortWrite>,
    pins: Seq<MyPin>,
)
    requires
        before.len() == 8,
        all_drivable(pins),
        crate::shows::lit(before, after, writes, Some(pins)),
    ensures
        table_shown(before, after, pins, writes),
        forall|i: int, chip: int, bit: int|
            0 <= i < pins.len() && 0 <= chip < 8 && 0 <= bit < 16 && at(
                #[trigger] pins[i],
                chip,
                bit,
            ) ==> #[trigger] line(after, chip, bit),
        forall|chip: int, bit: int|
            0 <= chip < 8 && 0 <= bit < 16 && (forall|i: int|
                0 <= i < pins.len() ==> !at(#[trigger] pins[i], chip, bit)) ==> #[trigger] line(
                after,
                chip,
                bit,
            ) == line(before, chip, bit),
{
    assert forall|chip: int, bit: int| 0 <= chip < 8 && 0 <= bit < 16 implies #[trigger] line(
        after,
        chip,
        bit,
    ) == (line(before, chip, bit) || in_table(pins, chip, bit)) by {
        lemma_in_table(pins, chip, bit);
        law_drive_pins(before, pins, true, chip, bit);
    }
}

/// A poll as the state tells it is a poll as the lines tell it.
proof fn lemma_poll_ran(
    before: Shared,
    after: Shared,
    reading: Seq<u16>,
    io_debug: bool,
    spawns: Seq<Spawn>,
)
    requires
        reading.len() == 8,
        after.bits@ == reading,
        forall|i: int|
            0 <= i < 8 ==> #[trigger] after.rise@[i] == crate::ports::risen(
                before.bits@[i],
                reading[i],
            ),
        forall|i: int|
            0 <= i < 8 ==> #[trigger] after.fall@[i] == crate::ports::fallen(
                before.bits@[i],
                reading[i],
            ),
        after == (Shared { bits: after.bits, rise: after.rise, fall: after.fall, ..before }),
        spawns == poll_spawns(before.bits@, reading, io_debug),
    ensures
        poll_ran(before, after, reading, io_debug, spawns),
{
    assert forall|chip: int, bit: int| 0 <= chip < 8 && 0 <= bit < 16 implies #[trigger] line(
        after.rise@,
        chip,
        bit,
    ) == (!line(before.bits@, chip, bit) && line(reading, chip, bit)) by {
        law_edges(before.bits@[chip], reading[chip], bit);
    }
    assert forall|chip: int, bit: int| 0 <= chip < 8 && 0 <= bit < 16 implies #[trigger] line(
        after.fall@,
        chip,
        bit,
    ) == (line(before.bits@, chip, bit) && !line(reading, chip, bit)) by {
        law_edges(before.bits@[chip], reading[chip], bit);
    }
    crate::laws::law_poll_edges(before.bits@, reading, io_debug);
    let fell = exists|i: int|
        0 <= i < 8 && crate::ports::fallen(#[trigger] before.bits@[i], reading[i]) != 0;
    let rose = exists|i: int|
        0 <= i < 8 && crate::ports::risen(#[trigger] before.bits@[i], reading[i]) != 0;
    if fell {
        assert(spawns[0] == now(Task::InputEventFall));
    }
    if rose {
        assert(spawns[if fell {
            1int
        } else {
            0int
        }] == now(Task::InputEventRise));
    }
}

impl Shared {
    /// Runs a task of the game.
    pub fn run_task(
        &mut self,
        board: &Board,
        features: &Features,
        inputs: &Inputs,
        task: Task,
    ) -> (outcome: Outcome)
        requires
            board.wf(),
            old(self).wf(),
            crate::laws::runnable(task),
        ensures
            final(self).wf(),
            ran(*old(self), *final(self), board, *features, *inputs, task, outcome),
    {
        let ghost before: Shared = *self;
        let mut led: Option<bool> = None;
        let mut writes: Vec<PortWrite> = Vec::new();
        let mut spawns: Vec<Spawn> = Vec::new();
        match task {
            Task::LedBlink => {
                let (level, next) = self.led_blink();
                led = Some(level);
                spawns = next;
            },
            Task::Alive => {
                spawns = alive();
            },
            Task::IoNoirq => {
                spawns = io_noirq();
            },
            Task::EnableIoIrq => {
                spawns = enable_io_irq();
            },
            Task::IoDebug => {},
            Task::IoPoll => {
                spawns = self.io_poll(&inputs.reading, features);
                proof {
                    lemma_poll_ran(before, *self, inputs.reading@, features.io_debug, spawns@);
                }
            },
            Task::InputEventFall => {
                spawns = self.input_event_fall(board);
            },
            Task::InputEventRise => {
                spawns = self.input_event_rise(board);
            },
            Task::TestOutput => {
                let effects = self.test_output(board, features);
                proof {
                    if features.test_output && before.tstate != OutTestState::Idle {
                        law_lit(
                            before.output@,
                            self.output@,
                            effects.writes@,
                            crate::shows::test_table(board, before.tstate)->0,
                        );
                    }
                    lemma_same_output(before, *self);
                }
                writes = effects.writes;
                spawns = effects.spawns;
            },
            Task::RandOutput => {
                spawns = self.rand_output(board, inputs.ticks);
            },
            Task::EasterEgg(pin) => {
                let effects = self.easter_egg(board, pin);
                proof {
                    if crate::shows::egg_table(board, pin) is Some {
                        law_lit(
                            before.output@,
                            self.output@,
                            effects.writes@,
                            crate::shows::egg_table(board, pin)->0,
                        );
                    }
                    lemma_same_output(before, *self);
                }
                writes = effects.writes;
                spawns = effects.spawns;
            },
            Task::ClickRelay01 => {
                spawns = click_relay01(board);
            },
            Task::TingBell01 => {
                spawns = ting_bell01(board);
            },
            Task::MapAllOn => {
                spawns = map_all_on();
            },
            Task::MapAllOff => {
                spawns = map_all_off();
            },
            Task::GamemodeMap1 => {
                spawns = gamemode_map1();
            },
            Task::GamemodeMap2 => {
                spawns = gamemode_map2();
            },
            Task::GamemodeQuiz => {
                spawns = gamemode_quiz();
            },
            _ => {
                writes = self.run_lamps(board, task);
            },
        }
        Outcome { led, writes, spawns }
    }

    /// Runs a task that drives lamps.
    fn run_lamps(&mut self, board: &Board, task: Task) -> (writes: Vec<PortWrite>)
        requires
            board.wf(),
            crate::laws::runnable(task),
            drives_lamps(task),
        ensures
            lamps_ran(*old(self), *final(self), board, task, writes@),
    {
        let ghost before: Shared = *self;
        match task {
            Task::SetOutput(pin) => {
                let write = self.set_output(pin);
                proof {
                    lemma_moved_ran(before, *self, board, write, pin, Drive::High, task);
                }
                let writes: Vec<PortWrite> = vec![write];
                assert(writes@ =~= seq![write]);
                writes
            },
            Task::ToggleOutput(pin) => {
                let write = self.toggle_output(pin);
                proof {
                    lemma_moved_ran(before, *self, board, write, pin, Drive::Flip, task);
                }
                let writes: Vec<PortWrite> = vec![write];
                assert(writes@ =~= seq![write]);
                writes
            },
            Task::ClearOutput(pin) => {
                let write = self.clear_output(pin);
                proof {
                    lemma_moved_ran(before, *self, board, write, pin, Drive::Low, task);
                }
                let writes: Vec<PortWrite> = vec![write];
                assert(writes@ =~= seq![write]);
                writes
            },
            Task::OutOnes => {
                let writes = self.out_ones();
                proof {
                    lemma_flooded_ran(before, *self, board, writes@, true, task);
                }
                writes
            },
            Task::SocketsOn => {
                let writes = self.sockets_on(board);
                proof {
                    lemma_switched_ran(before, *self, board, writes@, board.out_socket@, true, task);
                }
                writes
            },
            Task::SocketsOff => {
                let writes = self.sockets_off(board);
                proof {
                    lemma_switched_ran(before, *self, board, writes@, board.out_socket@, false, task);
                }
                writes
            },
            Task::QuizOn => {
                let writes = self.quiz_on(board);
                proof {
                    lemma_switched_ran(before, *self, board, writes@, board.out_quiz@, true, task);
                }
                writes
            },
            Task::QuizOff => {
                let writes = self.quiz_off(board);
                proof {
                    lemma_switched_ran(before, *self, board, writes@, board.out_quiz@, false, task);
                }
                writes
            },
            Task::MapAOn => {
                let writes = self.map_a_on(board);
                proof {
                    lemma_switched_ran(before, *self, board, writes@, board.out_map_a@, true, task);
                }
                writes
            },
            Task::MapAOff => {
                let writes = self.map_a_off(board);
                proof {
                    lemma_switched_ran(before, *self, board, writes@, board.out_map_a@, false, task);
                }
                writes
            },
            Task::MapBOn => {
                let writes = self.map_b_on(board);
                proof {
                    lemma_switched_ran(before, *self, board, writes@, board.out_map_b@, true, task);
                }
                writes
            },
            Task::MapBOff => {
                let writes = self.map_b_off(board);
                proof {
                    lemma_switched_ran(before, *self, board, writes@, board.out_map_b@, false, task);
                }
                writes
            },
            Task::MapSOn => {
                let writes = self.map_s_on(board);
                proof {
                    lemma_switched_ran(before, *self, board, writes@, board.out_map_s@, true, task);
                }
                writes
            },
            Task::MapSOff => {
                let writes = self.map_s_off(board);
                proof {
                    lemma_switched_ran(before, *self, board, writes@, board.out_map_s@, false, task);
                }
                writes
            },
            Task::MapNOn => {
                let writes = self.map_n_on(board);
                proof {
                    lemma_switched_ran(before, *self, board, writes@, board.out_map_n@, true, task);
                }
                writes
            },
            Task::MapNOff => {
                let writes = self.map_n_off(board);
                proof {
                    lemma_switched_ran(before, *self, board, writes@, board.out_map_n@, false, task);
                }
                writes
            },
            _ => {
                let writes = self.out_zero();
                proof {
                    lemma_flooded_ran(before, *self, board, writes@, false, task);
                }
                writes
            },
        }
    }
}

/// A task drives lamps at once.
pub open spec fn drives_lamps(task: Task) -> bool {
    match task {
        Task::SetOutput(_) | Task::ToggleOutput(_) | Task::ClearOutput(_) => true,
        Task::OutZero | Task::OutOnes => true,
        Task::SocketsOn | Task::SocketsOff | Task::QuizOn | Task::QuizOff => true,
        Task::MapAOn | Task::MapAOff | Task::MapBOn | Task::MapBOff => true,
        Task::MapSOn | Task::MapSOff | Task::MapNOn | Task::MapNOff => true,
        _ => false,
    }
}

/// Outputs that hold the same words are the same.
proof fn lemma_same_output(before: Shared, after: Shared)
    ensures
        before.output@ == after.output@ ==> before.output == after.output,
{
    if before.output@ == after.output@ {
        assert(before.output =~= after.output) by {
            assert forall|i: int| 0 <= i < 8 implies before.output[i] == after.output[i] by {
                assert(before.output@[i] == after.output@[i]);
            }
        }
    }
}

} // verus!
