//! What holds of running tasks, one and several.

use vstd::prelude::*;
use crate::game::{let_go, touched};
use crate::lamp_laws::{law_map1_shown, law_map2_shown, law_quiz_shown};
use crate::pins::{Board, MyPin};
use crate::play::{at, in_table, level_at, ran, Inputs, Outcome};
use crate::ports::{first_line, line};
use crate::state::{OutTestState, Shared};
use crate::tasks::{now, Features, Spawn, Task};

verus! {

/// Nothing but the output is different.
pub open spec fn only_output(before: Shared, after: Shared) -> bool {
    &&& after.led_on == before.led_on
    &&& after.bits == before.bits
    &&& after.rise == before.rise
    &&& after.fall == before.fall
    &&& after.tstate == before.tstate
    &&& after.estate == before.estate
    &&& after.gmode == before.gmode
    &&& after.socket == before.socket
    &&& after.socket_i == before.socket_i
    &&& after.answers == before.answers
    &&& after.rand == before.rand
    &&& after.rng == before.rng
}

/// The two tasks light and put out the lamps of a table.
pub open spec fn switches(board: &Board, on: Task, off: Task, pins: Seq<MyPin>) -> bool {
    ||| on == Task::SocketsOn && off == Task::SocketsOff && pins == board.out_socket@
    ||| on == Task::QuizOn && off == Task::QuizOff && pins == board.out_quiz@
    ||| on == Task::MapAOn && off == Task::MapAOff && pins == board.out_map_a@
    ||| on == Task::MapBOn && off == Task::MapBOff && pins == board.out_map_b@
    ||| on == Task::MapSOn && off == Task::MapSOff && pins == board.out_map_s@
    ||| on == Task::MapNOn && off == Task::MapNOff && pins == board.out_map_n@
}

/// A table that is lit and put out again: every lamp of it is lit, then out, every other lamp
/// stays as it was throughout, and neither task changes anything else or asks for anything.
pub proof fn law_on_then_off(
    a: Shared,
    b: Shared,
    c: Shared,
    board: &Board,
    features: Features,
    inputs: Inputs,
    on: Task,
    off: Task,
    pins: Seq<MyPin>,
    lighting: Outcome,
    darkening: Outcome,
    chip: int,
    bit: int,
)
    requires
        switches(board, on, off, pins),
        ran(a, b, board, features, inputs, on, lighting),
        ran(b, c, board, features, inputs, off, darkening),
        0 <= chip < 8,
        0 <= bit < 16,
    ensures
        (exists|i: int| 0 <= i < pins.len() && at(#[trigger] pins[i], chip, bit)) ==> line(
            b.output@,
            chip,
            bit,
        ) && !line(c.output@, chip, bit),
        (forall|i: int| 0 <= i < pins.len() ==> !at(#[trigger] pins[i], chip, bit)) ==> line(
            b.output@,
            chip,
            bit,
        ) == line(a.output@, chip, bit) && line(c.output@, chip, bit) == line(
            a.output@,
            chip,
            bit,
        ),
        only_output(a, b),
        only_output(b, c),
        lighting.spawns@.len() == 0,
        darkening.spawns@.len() == 0,
{
}

/// A lamp is lit by setting it, out after clearing it, and turned over by toggling it, so that
/// toggling it twice leaves it as it was; no other lamp changes, nor anything else.
pub proof fn law_one_lamp(
    a: Shared,
    b: Shared,
    c: Shared,
    board: &Board,
    features: Features,
    inputs: Inputs,
    task: Task,
    pin: MyPin,
    first: Outcome,
    second: Outcome,
    chip: int,
    bit: int,
)
    requires
        task == Task::SetOutput(pin) || task == Task::ClearOutput(pin) || task
            == Task::ToggleOutput(pin),
        ran(a, b, board, features, inputs, task, first),
        ran(b, c, board, features, inputs, task, second),
        0 <= chip < 8,
        0 <= bit < 16,
    ensures
        !at(pin, chip, bit) ==> line(b.output@, chip, bit) == line(a.output@, chip, bit),
        at(pin, chip, bit) && task == Task::SetOutput(pin) ==> line(b.output@, chip, bit) && line(
            c.output@,
            chip,
            bit,
        ),
        at(pin, chip, bit) && task == Task::ClearOutput(pin) ==> !line(b.output@, chip, bit)
            && !line(c.output@, chip, bit),
        at(pin, chip, bit) && task == Task::ToggleOutput(pin) ==> line(b.output@, chip, bit)
            != line(a.output@, chip, bit) && line(c.output@, chip, bit) == line(
            a.output@,
            chip,
            bit,
        ),
        only_output(a, b),
        first.spawns@.len() == 0,
{
}

/// Putting all out leaves every line low and lighting all leaves every line high, whatever they
/// were, and nothing else changes.
pub proof fn law_all_lamps(
    before: Shared,
    after: Shared,
    board: &Board,
    features: Features,
    inputs: Inputs,
    on: bool,
    outcome: Outcome,
    chip: int,
    bit: int,
)
    requires
        ran(
            before,
            after,
            board,
            features,
            inputs,
            if on {
                Task::OutOnes
            } else {
                Task::OutZero
            },
            outcome,
        ),
        0 <= chip < 8,
        0 <= bit < 16,
    ensures
        line(after.output@, chip, bit) == on,
        only_output(before, after),
        outcome.spawns@.len() == 0,
{
}

/// A poll notes the reading and says exactly whether some line fell, whether some rose, and, where
/// that is wanted, whether anything changed; it leaves the game alone.
pub proof fn law_poll(
    before: Shared,
    after: Shared,
    board: &Board,
    features: Features,
    inputs: Inputs,
    outcome: Outcome,
    chip: int,
    bit: int,
)
    requires
        ran(before, after, board, features, inputs, Task::IoPoll, outcome),
        0 <= chip < 8,
        0 <= bit < 16,
    ensures
        after.bits@ == inputs.reading@,
        line(after.fall@, chip, bit) <==> line(before.bits@, chip, bit) && !line(
            inputs.reading@,
            chip,
            bit,
        ),
        line(after.rise@, chip, bit) <==> !line(before.bits@, chip, bit) && line(
            inputs.reading@,
            chip,
            bit,
        ),
        line(after.fall@, chip, bit) ==> outcome.spawns@.contains(now(Task::InputEventFall)),
        line(after.rise@, chip, bit) ==> outcome.spawns@.contains(now(Task::InputEventRise)),
        outcome.spawns@.contains(now(Task::InputEventFall)) ==> exists|c: int, b: int|
            0 <= c < 8 && 0 <= b < 16 && #[trigger] line(after.fall@, c, b),
        outcome.spawns@.contains(now(Task::InputEventRise)) ==> exists|c: int, b: int|
            0 <= c < 8 && 0 <= b < 16 && #[trigger] line(after.rise@, c, b),
        outcome.spawns@.contains(now(Task::InputEventFall)) ==> outcome.spawns@[0] == now(
            Task::InputEventFall,
        ),
        outcome.spawns@.contains(now(Task::IoDebug)) <==> features.io_debug && before.bits@
            != inputs.reading@,
        forall|j: int, k: int|
            0 <= j < k < outcome.spawns@.len() ==> #[trigger] outcome.spawns@[j]
                != #[trigger] outcome.spawns@[k],
        forall|k: int|
            0 <= k < outcome.spawns@.len() ==> {
                ||| #[trigger] outcome.spawns@[k] == now(Task::InputEventFall)
                ||| outcome.spawns@[k] == now(Task::InputEventRise)
                ||| outcome.spawns@[k] == now(Task::IoDebug)
            },
        after.output == before.output,
        after.estate == before.estate,
        after.gmode == before.gmode,
        after.socket == before.socket,
        after.socket_i == before.socket_i,
        after.answers == before.answers,
        after.tstate == before.tstate,
        after.led_on == before.led_on,
        after.rand == before.rand,
        after.rng == before.rng,
{
    let spawns = outcome.spawns@;
    let n = spawns.len() as int;
    let fell: bool = exists|chip: int, bit: int|
        0 <= chip < 8 && 0 <= bit < 16 && #[trigger] line(before.bits@, chip, bit) && !line(
            inputs.reading@,
            chip,
            bit,
        );
    let rose: bool = exists|chip: int, bit: int|
        0 <= chip < 8 && 0 <= bit < 16 && !#[trigger] line(before.bits@, chip, bit) && line(
            inputs.reading@,
            chip,
            bit,
        );
    if fell {
        assert(spawns[0] == now(Task::InputEventFall));
        let (c, b) = choose|chip: int, bit: int|
            0 <= chip < 8 && 0 <= bit < 16 && #[trigger] line(before.bits@, chip, bit) && !line(
                inputs.reading@,
                chip,
                bit,
            );
        assert(line(after.fall@, c, b));
    }
    if rose {
        let i: int = if fell {
            1
        } else {
            0
        };
        assert(spawns[i] == now(Task::InputEventRise));
        let (c, b) = choose|chip: int, bit: int|
            0 <= chip < 8 && 0 <= bit < 16 && !#[trigger] line(before.bits@, chip, bit) && line(
                inputs.reading@,
                chip,
                bit,
            );
        assert(line(after.rise@, c, b));
    }
    if features.io_debug && before.bits@ != inputs.reading@ {
        assert(spawns[n - 1] == now(Task::IoDebug));
    }
}

/// When the inputs are polled twice and stayed as they were, the second poll marks no edge and asks
/// for nothing.
pub proof fn law_poll_twice(
    a: Shared,
    b: Shared,
    c: Shared,
    board: &Board,
    features: Features,
    inputs: Inputs,
    first: Outcome,
    second: Outcome,
    chip: int,
    bit: int,
)
    requires
        ran(a, b, board, features, inputs, Task::IoPoll, first),
        ran(b, c, board, features, inputs, Task::IoPoll, second),
        0 <= chip < 8,
        0 <= bit < 16,
    ensures
        second.spawns@.len() == 0,
        !line(c.rise@, chip, bit),
        !line(c.fall@, chip, bit),
        c.bits@ == b.bits@,
{
}

/// When lines have fallen, the contact on the lowest of them is touched; when none has, nothing
/// happens.
pub proof fn law_fall_touches(
    before: Shared,
    after: Shared,
    board: &Board,
    features: Features,
    inputs: Inputs,
    outcome: Outcome,
    chip: int,
    bit: int,
)
    requires
        ran(before, after, board, features, inputs, Task::InputEventFall, outcome),
        0 <= chip < 8,
        0 <= bit < 16,
    ensures
        line(before.fall@, chip, bit) && (forall|c: int, b: int|
            0 <= c < 8 && 0 <= b < 16 && c * 16 + b < chip * 16 + bit ==> !#[trigger] line(
                before.fall@,
                c,
                b,
            )) ==> touched(before, after, board, board.inputs[chip][bit], outcome.spawns@),
        (forall|c: int, b: int| 0 <= c < 8 && 0 <= b < 16 ==> !#[trigger] line(before.fall@, c, b))
            ==> after == before && outcome.spawns@.len() == 0,
        outcome.writes@.len() == 0,
{
    lemma_lowest(before.fall@, chip, bit);
}

/// When lines have risen, the contact on the lowest of them is let go; when none has, nothing
/// happens.
pub proof fn law_rise_lets_go(
    before: Shared,
    after: Shared,
    board: &Board,
    features: Features,
    inputs: Inputs,
    outcome: Outcome,
    chip: int,
    bit: int,
)
    requires
        ran(before, after, board, features, inputs, Task::InputEventRise, outcome),
        0 <= chip < 8,
        0 <= bit < 16,
    ensures
        line(before.rise@, chip, bit) && (forall|c: int, b: int|
            0 <= c < 8 && 0 <= b < 16 && c * 16 + b < chip * 16 + bit ==> !#[trigger] line(
                before.rise@,
                c,
                b,
            )) ==> let_go(before, after, board, board.inputs[chip][bit], outcome.spawns@),
        (forall|c: int, b: int| 0 <= c < 8 && 0 <= b < 16 ==> !#[trigger] line(before.rise@, c, b))
            ==> after == before && outcome.spawns@.len() == 0,
        outcome.writes@.len() == 0,
{
    lemma_lowest(before.rise@, chip, bit);
}

/// The lowest high line is the first one, and where none is high there is no first one.
proof fn lemma_lowest(bank: Seq<u16>, chip: int, bit: int)
    requires
        bank.len() == 8,
        0 <= chip < 8,
        0 <= bit < 16,
    ensures
        line(bank, chip, bit) && (forall|c: int, b: int|
            0 <= c < 8 && 0 <= b < 16 && c * 16 + b < chip * 16 + bit ==> !#[trigger] line(
                bank,
                c,
                b,
            )) ==> first_line(bank) == Some((chip, bit)),
        (forall|c: int, b: int| 0 <= c < 8 && 0 <= b < 16 ==> !#[trigger] line(bank, c, b))
            ==> first_line(bank) is None,
{
    if line(bank, chip, bit) {
        crate::line_laws::law_lowest_line(bank, chip, bit);
    }
    if forall|c: int, b: int| 0 <= c < 8 && 0 <= b < 16 ==> !#[trigger] line(bank, c, b) {
        assert forall|c: int| 0 <= c < 8 implies #[trigger] bank[c] == 0 by {
            assert forall|b: int| 0 <= b < 16 implies !#[trigger] crate::ports::high(
                bank[c],
                b,
            ) by {
                assert(!line(bank, c, b));
            }
            crate::ports::lemma_no_bit_set(bank[c]);
        }
    }
}

/// The easter egg never puts a lamp out by itself, lights no lamp outside the tables of the quiz,
/// the first two maps and the sockets, changes nothing of the game, and given twice for one contact
/// leaves the lamps as it left them the first time.
pub proof fn law_egg_runs(
    a: Shared,
    b: Shared,
    c: Shared,
    board: &Board,
    features: Features,
    inputs: Inputs,
    pin: MyPin,
    first: Outcome,
    second: Outcome,
    chip: int,
    bit: int,
)
    requires
        ran(a, b, board, features, inputs, Task::EasterEgg(pin), first),
        ran(b, c, board, features, inputs, Task::EasterEgg(pin), second),
        0 <= chip < 8,
        0 <= bit < 16,
    ensures
        line(a.output@, chip, bit) ==> line(b.output@, chip, bit),
        line(b.output@, chip, bit) && !line(a.output@, chip, bit) ==> {
            ||| pin == board.quiz01 && in_table(board.out_quiz@, chip, bit)
            ||| pin == board.quiz02 && in_table(board.out_map_a@, chip, bit)
            ||| pin == board.quiz03 && in_table(board.out_map_b@, chip, bit)
            ||| pin == board.quiz04 && in_table(board.out_socket@, chip, bit)
        },
        line(c.output@, chip, bit) == line(b.output@, chip, bit),
        c.rand == b.rand,
        only_output(Shared { rand: b.rand, ..a }, b),
        first.spawns@.len() <= 1,
        first.spawns@ == second.spawns@,
{
    assert(first.spawns@ =~= second.spawns@);
}

/// Started where it begins, the output test lights the tables of the quiz, of the first two maps
/// and of the sockets, one in each of four steps and in that order, and rings the bell in the
/// fifth.
pub proof fn law_test_runs(
    s: Seq<Shared>,
    o: Seq<Outcome>,
    board: &Board,
    features: Features,
    inputs: Inputs,
    chip: int,
    bit: int,
)
    requires
        s.len() == 6,
        o.len() == 5,
        features.test_output,
        s[0].tstate == OutTestState::TestQuiz,
        forall|k: int|
            0 <= k < 5 ==> ran(
                s[k],
                s[k + 1],
                board,
                features,
                inputs,
                Task::TestOutput,
                #[trigger] o[k],
            ),
        0 <= chip < 8,
        0 <= bit < 16,
    ensures
        line(s[1].output@, chip, bit) == (line(s[0].output@, chip, bit) || in_table(
            board.out_quiz@,
            chip,
            bit,
        )),
        line(s[2].output@, chip, bit) == (line(s[1].output@, chip, bit) || in_table(
            board.out_map_a@,
            chip,
            bit,
        )),
        line(s[3].output@, chip, bit) == (line(s[2].output@, chip, bit) || in_table(
            board.out_map_b@,
            chip,
            bit,
        )),
        line(s[4].output@, chip, bit) == (line(s[3].output@, chip, bit) || in_table(
            board.out_socket@,
            chip,
            bit,
        )),
        s[5] == s[4],
        forall|k: int|
            0 <= k < 5 ==> ((#[trigger] o[k]).spawns@.contains(now(Task::TingBell01)) <==> k == 4),
        forall|k: int|
            0 <= k < 5 ==> ((#[trigger] o[k]).spawns@.contains(
                Spawn { task: Task::TestOutput, delay_ms: 1000 },
            ) <==> k < 4),
{
    assert(ran(s[0], s[1], board, features, inputs, Task::TestOutput, o[0]));
    assert(ran(s[1], s[2], board, features, inputs, Task::TestOutput, o[1]));
    assert(ran(s[2], s[3], board, features, inputs, Task::TestOutput, o[2]));
    assert(ran(s[3], s[4], board, features, inputs, Task::TestOutput, o[3]));
    assert(ran(s[4], s[5], board, features, inputs, Task::TestOutput, o[4]));
    assert(s[4].tstate == OutTestState::Idle);
    assert forall|k: int| 0 <= k < 5 implies ((#[trigger] o[k]).spawns@.contains(
        now(Task::TingBell01),
    ) <==> k == 4) && (o[k].spawns@.contains(Spawn { task: Task::TestOutput, delay_ms: 1000 })
        <==> k < 4) by {
        if k < 4 {
            assert(o[k].spawns@[2] == (Spawn { task: Task::TestOutput, delay_ms: 1000 }));
        } else {
            assert(o[k].spawns@[0] == now(Task::TingBell01));
        }
    }
}

/// Each game is led in by its own first table: the first map quiz and the second by theirs, and the
/// quiz by that of the quiz.
pub proof fn law_lead_in_runs(
    before: Shared,
    after: Shared,
    board: &Board,
    features: Features,
    inputs: Inputs,
    task: Task,
    outcome: Outcome,
    ms: int,
    chip: int,
    bit: int,
)
    requires
        ran(before, after, board, features, inputs, task, outcome),
        task == Task::GamemodeMap1 || task == Task::GamemodeMap2 || task == Task::GamemodeQuiz,
        0 <= ms < 500,
        !at(board.relay01, chip, bit),
    ensures
        after == before,
        outcome.writes@.len() == 0,
        level_at(board, false, outcome.spawns@, ms, chip, bit) == in_table(
            if task == Task::GamemodeMap1 {
                board.out_map_a@
            } else if task == Task::GamemodeMap2 {
                board.out_map_b@
            } else {
                board.out_quiz@
            },
            chip,
            bit,
        ),
        level_at(board, false, outcome.spawns@, ms + 2000, chip, bit) == (in_table(
            board.out_socket@,
            chip,
            bit,
        ) || if task == Task::GamemodeQuiz {
            in_table(board.out_quiz@, chip, bit)
        } else {
            in_table(board.out_map_s@, chip, bit) || in_table(board.out_map_n@, chip, bit)
        }),
{
    law_map1_shown(board, ms, chip, bit);
    law_map2_shown(board, ms, chip, bit);
    law_quiz_shown(board, ms, chip, bit);
    law_map1_shown(board, ms + 2000, chip, bit);
    law_map2_shown(board, ms + 2000, chip, bit);
    law_quiz_shown(board, ms + 2000, chip, bit);
}

/// Without the output test nothing is lit and nothing asked for.
pub proof fn law_no_test(
    before: Shared,
    after: Shared,
    board: &Board,
    features: Features,
    inputs: Inputs,
    outcome: Outcome,
)
    requires
        ran(before, after, board, features, inputs, Task::TestOutput, outcome),
        !features.test_output,
    ensures
        after == before,
        outcome.writes@.len() == 0,
        outcome.spawns@.len() == 0,
{
}

} // verus!
