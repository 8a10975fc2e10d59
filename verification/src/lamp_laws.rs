//! What holds of the lamps over time, and of the tasks that drive them.

use vstd::prelude::*;
use crate::game_laws::{few_step, lemma_level_take};
use crate::lamps::{after_writes, table_writes, Drive, PortWrite};
use crate::pins::{all_drivable, Board, MyPin};
use crate::play::{at, in_table, law_lit, level_at, ran, Inputs, Outcome};
use crate::ports::line;
use crate::shows::{
    blinked, egg_rand, egg_show_spawns, egg_table, lit, next_test, rand_spawns, rng_word,
    seeded_word, test_spawns, test_table,
};
use crate::state::{flooded, switched, OutTestState, Shared};
use crate::tasks::{
    counted, first_spawns, map1_spawns, map2_spawns, now, quiz_spawns, Features, Spawn, Task,
};

verus! {

/// The first tasks of a list of eight, one after the other.
proof fn lemma_level_prefix(
    board: &Board,
    spawns: Seq<Spawn>,
    ms: int,
    chip: int,
    bit: int,
)
    requires
        spawns.len() == 8,
    ensures
        ({
            let l0 = false;
            let l1 = few_step(board, l0, spawns, 0, ms, chip, bit);
            let l2 = few_step(board, l1, spawns, 1, ms, chip, bit);
            let l3 = few_step(board, l2, spawns, 2, ms, chip, bit);
            let l4 = few_step(board, l3, spawns, 3, ms, chip, bit);
            let l5 = few_step(board, l4, spawns, 4, ms, chip, bit);
            let l6 = few_step(board, l5, spawns, 5, ms, chip, bit);
            let l7 = few_step(board, l6, spawns, 6, ms, chip, bit);
            let l8 = few_step(board, l7, spawns, 7, ms, chip, bit);
            &&& level_at(board, false, spawns.take(0), ms, chip, bit) == l0
            &&& level_at(board, false, spawns.take(1), ms, chip, bit) == l1
            &&& level_at(board, false, spawns.take(2), ms, chip, bit) == l2
            &&& level_at(board, false, spawns.take(3), ms, chip, bit) == l3
            &&& level_at(board, false, spawns.take(4), ms, chip, bit) == l4
            &&& level_at(board, false, spawns.take(5), ms, chip, bit) == l5
            &&& level_at(board, false, spawns.take(6), ms, chip, bit) == l6
            &&& level_at(board, false, spawns.take(7), ms, chip, bit) == l7
            &&& level_at(board, false, spawns, ms, chip, bit) == l8
        }),
{
    lemma_level_take(board, false, spawns, 0, ms, chip, bit);
    lemma_level_take(board, false, spawns, 1, ms, chip, bit);
    lemma_level_take(board, false, spawns, 2, ms, chip, bit);
    lemma_level_take(board, false, spawns, 3, ms, chip, bit);
    lemma_level_take(board, false, spawns, 4, ms, chip, bit);
    lemma_level_take(board, false, spawns, 5, ms, chip, bit);
    lemma_level_take(board, false, spawns, 6, ms, chip, bit);
    lemma_level_take(board, false, spawns, 7, ms, chip, bit);
    assert(spawns.take(8) =~= spawns);
    assert(spawns.take(0).len() == 0);
}

/// While the quiz is led in from all lamps out, the lamps of the quiz, and no others, are lit for
/// the first half second and for the half second that follows the first second; two seconds after
/// the start they are lit again, together with those of the sockets, and stay so.
pub proof fn law_quiz_shown(board: &Board, ms: int, chip: int, bit: int)
    requires
        ms >= 0,
        !at(board.relay01, chip, bit),
    ensures
        level_at(board, false, quiz_spawns(), ms, chip, bit) == ((in_table(
            board.out_quiz@,
            chip,
            bit,
        ) && (ms < 500 || 1000 <= ms < 1500 || 2000 <= ms)) || (in_table(
            board.out_socket@,
            chip,
            bit,
        ) && 2000 <= ms)),
{
    lemma_level_prefix(board, quiz_spawns(), ms, chip, bit);
}

/// No step on the way into the quiz lights a lamp that is not one of the quiz, but for the last
/// one, which lights the sockets.
pub proof fn law_quiz_steps(board: &Board, n: int, ms: int, chip: int, bit: int)
    requires
        0 <= n <= 8,
        ms >= 2000,
        !at(board.relay01, chip, bit),
        level_at(board, false, quiz_spawns().take(n), ms, chip, bit),
    ensures
        in_table(board.out_quiz@, chip, bit) || n == 8 && in_table(board.out_socket@, chip, bit),
{
    lemma_level_prefix(board, quiz_spawns(), ms, chip, bit);
    assert(quiz_spawns().take(8) =~= quiz_spawns());
}

/// While the first map quiz is led in from all lamps out, the lamps of the first map table, and no
/// others, are lit for the first half second, those of the southern half for the half second that
/// follows the first second, and from two seconds on those of both halves and of the sockets.
pub proof fn law_map1_shown(board: &Board, ms: int, chip: int, bit: int)
    requires
        ms >= 0,
        !at(board.relay01, chip, bit),
    ensures
        ms < 500 ==> level_at(board, false, map1_spawns(), ms, chip, bit) == in_table(
            board.out_map_a@,
            chip,
            bit,
        ),
        500 <= ms < 1000 || 1500 <= ms < 2000 ==> !level_at(
            board,
            false,
            map1_spawns(),
            ms,
            chip,
            bit,
        ),
        1000 <= ms < 1500 ==> level_at(board, false, map1_spawns(), ms, chip, bit) == in_table(
            board.out_map_s@,
            chip,
            bit,
        ),
        2000 <= ms ==> level_at(board, false, map1_spawns(), ms, chip, bit) == (in_table(
            board.out_map_s@,
            chip,
            bit,
        ) || in_table(board.out_map_n@, chip, bit) || in_table(board.out_socket@, chip, bit)),
{
    lemma_level_prefix(board, map1_spawns(), ms, chip, bit);
}

/// While the second map quiz is led in from all lamps out, the lamps of the second map table, and
/// no others, are lit for the first half second, those of the northern half for the half second
/// that follows the first second, and from two seconds on those of both halves and of the sockets.
pub proof fn law_map2_shown(board: &Board, ms: int, chip: int, bit: int)
    requires
        ms >= 0,
        !at(board.relay01, chip, bit),
    ensures
        ms < 500 ==> level_at(board, false, map2_spawns(), ms, chip, bit) == in_table(
            board.out_map_b@,
            chip,
            bit,
        ),
        500 <= ms < 1000 || 1500 <= ms < 2000 ==> !level_at(
            board,
            false,
            map2_spawns(),
            ms,
            chip,
            bit,
        ),
        1000 <= ms < 1500 ==> level_at(board, false, map2_spawns(), ms, chip, bit) == in_table(
            board.out_map_n@,
            chip,
            bit,
        ),
        2000 <= ms ==> level_at(board, false, map2_spawns(), ms, chip, bit) == (in_table(
            board.out_map_s@,
            chip,
            bit,
        ) || in_table(board.out_map_n@, chip, bit) || in_table(board.out_socket@, chip, bit)),
{
    lemma_level_prefix(board, map2_spawns(), ms, chip, bit);
}

/// No step on the way into a map quiz lights a lamp that the game does not show: the first
/// three steps light those of its first table only, the next three those of its half only.
pub proof fn law_map_steps(board: &Board, n: int, ms: int, chip: int, bit: int)
    requires
        0 <= n <= 6,
        ms >= 2000,
        !at(board.relay01, chip, bit),
    ensures
        level_at(board, false, map1_spawns().take(n), ms, chip, bit) ==> if n <= 3 {
            in_table(board.out_map_a@, chip, bit)
        } else {
            in_table(board.out_map_s@, chip, bit)
        },
        level_at(board, false, map2_spawns().take(n), ms, chip, bit) ==> if n <= 3 {
            in_table(board.out_map_b@, chip, bit)
        } else {
            in_table(board.out_map_n@, chip, bit)
        },
{
    lemma_level_prefix(board, map1_spawns(), ms, chip, bit);
    lemma_level_prefix(board, map2_spawns(), ms, chip, bit);
}

/// A lead-in clicks when it starts and a second later, and never else; it takes eight tasks, none
/// due before the one in front of it, and asks for nothing but lamps and clicks.
pub open spec fn clicks_twice(spawns: Seq<Spawn>) -> bool {
    &&& spawns.len() == 8
    &&& exists|j: int, k: int|
        {
            &&& 0 <= j < k < 8
            &&& (#[trigger] spawns[j]).task == Task::ClickRelay01 && spawns[j].delay_ms == 0
            &&& (#[trigger] spawns[k]).task == Task::ClickRelay01 && spawns[k].delay_ms == 1000
            &&& forall|i: int|
                0 <= i < 8 && (#[trigger] spawns[i]).task == Task::ClickRelay01 ==> i == j || i == k
        }
    &&& forall|i: int, j: int|
        0 <= i < j < 8 ==> (#[trigger] spawns[i]).delay_ms <= (#[trigger] spawns[j]).delay_ms
    &&& forall|i: int|
        0 <= i < 8 ==> (#[trigger] spawns[i]).task == Task::ClickRelay01 || crate::play::drives_lamps(
            spawns[i].task,
        ) || spawns[i].task == Task::MapAllOn
}

/// Each lead-in clicks when it starts and a second later.
pub proof fn law_lead_in_clicks()
    ensures
        clicks_twice(map1_spawns()),
        clicks_twice(map2_spawns()),
        clicks_twice(quiz_spawns()),
{
    let a = map1_spawns();
    let b = map2_spawns();
    let q = quiz_spawns();
    assert(a[1].task == Task::ClickRelay01 && a[4].task == Task::ClickRelay01);
    assert(b[1].task == Task::ClickRelay01 && b[4].task == Task::ClickRelay01);
    assert(q[1].task == Task::ClickRelay01 && q[4].task == Task::ClickRelay01);
}

/// After the easter egg for one of the first four contacts of the quiz, from any output before,
/// every line of the table that the contact stands for is high and every other line is as it was;
/// for every other contact all lines are as they were.
pub proof fn law_egg_lamps(
    before: Seq<u16>,
    after: Seq<u16>,
    writes: Seq<PortWrite>,
    board: &Board,
    pin: MyPin,
    chip: int,
    bit: int,
)
    requires
        before.len() == 8,
        board.wf(),
        lit(before, after, writes, egg_table(board, pin)),
        0 <= chip < 8,
        0 <= bit < 16,
    ensures
        pin.code == board.quiz01.code ==> line(after, chip, bit) == (line(before, chip, bit)
            || in_table(board.out_quiz@, chip, bit)),
        pin.code == board.quiz02.code && pin.code != board.quiz01.code ==> line(after, chip, bit)
            == (line(before, chip, bit) || in_table(board.out_map_a@, chip, bit)),
        pin.code == board.quiz03.code && pin.code != board.quiz01.code && pin.code
            != board.quiz02.code ==> line(after, chip, bit) == (line(before, chip, bit) || in_table(
            board.out_map_b@,
            chip,
            bit,
        )),
        pin.code == board.quiz04.code && pin.code != board.quiz01.code && pin.code
            != board.quiz02.code && pin.code != board.quiz03.code ==> line(after, chip, bit) == (
        line(before, chip, bit) || in_table(board.out_socket@, chip, bit)),
        pin.code != board.quiz01.code && pin.code != board.quiz02.code && pin.code
            != board.quiz03.code && pin.code != board.quiz04.code ==> line(after, chip, bit)
            == line(before, chip, bit) && writes.len() == 0,
{
    if let Some(pins) = egg_table(board, pin) {
        law_lit(before, after, writes, pins);
    }
}

/// What the easter egg does besides: the fifth contact puts all lamps out at once, the last but
/// one starts the random lamps, the last stops them, and no other contact changes or asks for
/// anything.
pub proof fn law_egg_choice(board: &Board, pin: MyPin, rand: bool)
    requires
        board.quiz23.code != board.quiz01.code,
        board.quiz23.code != board.quiz02.code,
        board.quiz23.code != board.quiz03.code,
        board.quiz23.code != board.quiz04.code,
        board.quiz23.code != board.quiz05.code,
        board.quiz24.code != board.quiz01.code,
        board.quiz24.code != board.quiz02.code,
        board.quiz24.code != board.quiz03.code,
        board.quiz24.code != board.quiz04.code,
        board.quiz24.code != board.quiz05.code,
        board.quiz24.code != board.quiz23.code,
        board.quiz05.code != board.quiz01.code,
        board.quiz05.code != board.quiz02.code,
        board.quiz05.code != board.quiz03.code,
        board.quiz05.code != board.quiz04.code,
    ensures
        egg_rand(board, pin, rand) <==> pin.code == board.quiz23.code || rand && pin.code
            != board.quiz24.code,
        egg_show_spawns(board, pin).len() == if pin.code == board.quiz05.code || pin.code
            == board.quiz23.code {
            1int
        } else {
            0
        },
        egg_show_spawns(board, pin).contains(now(Task::OutZero)) <==> pin.code
            == board.quiz05.code,
        egg_show_spawns(board, pin).contains(now(Task::RandOutput)) <==> pin.code
            == board.quiz23.code,
{
    if pin == board.quiz05 {
        assert(egg_show_spawns(board, pin)[0] == now(Task::OutZero));
    }
    if pin == board.quiz23 {
        assert(egg_show_spawns(board, pin)[0] == now(Task::RandOutput));
    }
}

/// After a step of the output test, from any output before, every line of its table is high and
/// every other line is as it was: the quiz first, then the two map tables, then the sockets, and
/// after them the test lights nothing.
pub proof fn law_test_lamps(
    before: Seq<u16>,
    after: Seq<u16>,
    writes: Seq<PortWrite>,
    board: &Board,
    tstate: OutTestState,
    chip: int,
    bit: int,
)
    requires
        before.len() == 8,
        board.wf(),
        lit(before, after, writes, test_table(board, tstate)),
        0 <= chip < 8,
        0 <= bit < 16,
    ensures
        tstate == OutTestState::TestQuiz ==> line(after, chip, bit) == (line(before, chip, bit)
            || in_table(board.out_quiz@, chip, bit)),
        tstate == OutTestState::TestMapA ==> line(after, chip, bit) == (line(before, chip, bit)
            || in_table(board.out_map_a@, chip, bit)),
        tstate == OutTestState::TestMapB ==> line(after, chip, bit) == (line(before, chip, bit)
            || in_table(board.out_map_b@, chip, bit)),
        tstate == OutTestState::TestSocket ==> line(after, chip, bit) == (line(before, chip, bit)
            || in_table(board.out_socket@, chip, bit)),
        tstate == OutTestState::Idle ==> line(after, chip, bit) == line(before, chip, bit)
            && writes.len() == 0,
{
    if let Some(pins) = test_table(board, tstate) {
        law_lit(before, after, writes, pins);
    }
}

/// Each step of the output test leads to the next one a second later and clicks at once; its
/// lamps are lit for nine tenths of that second. After the fourth step the test rings the bell
/// once and asks for nothing more, however often it is run.
pub proof fn law_test_walk(
    board: &Board,
    tstate: OutTestState,
    level: bool,
    ms: int,
    chip: int,
    bit: int,
)
    requires
        ms >= 0,
        !at(board.relay01, chip, bit),
        !at(board.bell01, chip, bit),
    ensures
        next_test(tstate) == OutTestState::TestMapA <==> tstate == OutTestState::TestQuiz,
        next_test(tstate) == OutTestState::TestMapB <==> tstate == OutTestState::TestMapA,
        next_test(tstate) == OutTestState::TestSocket <==> tstate == OutTestState::TestMapB,
        next_test(tstate) != OutTestState::TestQuiz,
        test_spawns(tstate).contains(now(Task::TingBell01)) <==> tstate == OutTestState::Idle,
        test_spawns(tstate).contains(now(Task::ClickRelay01)) <==> tstate != OutTestState::Idle,
        test_spawns(tstate).contains(Spawn { task: Task::TestOutput, delay_ms: 1000 }) <==> tstate
            != OutTestState::Idle,
        test_spawns(tstate).len() == if tstate == OutTestState::Idle {
            1int
        } else {
            3
        },
        level_at(board, level, test_spawns(tstate), ms, chip, bit) == (level && (ms < 900 || tstate
            == OutTestState::Idle)),
{
    let spawns = test_spawns(tstate);
    lemma_level_take(board, level, spawns, 0, ms, chip, bit);
    lemma_level_take(board, level, spawns, 1, ms, chip, bit);
    lemma_level_take(board, level, spawns, 2, ms, chip, bit);
    assert(spawns.take(spawns.len() as int) =~= spawns);
    assert(spawns.take(0).len() == 0);
    if tstate == OutTestState::Idle {
        assert(spawns[0] == now(Task::TingBell01));
    } else {
        assert(spawns[0] == now(Task::ClickRelay01));
        assert(spawns[2].delay_ms == 1000);
    }
}

/// A lamp that was chosen at random is the one of the input that the first byte names by its chip
/// and the second by its bit; it is lit for half a second and out from then on, and no other lamp
/// changes. An input that is connected to nothing changes no lamp.
pub proof fn law_rand_shown(
    board: &Board,
    r: Seq<u8>,
    rand: bool,
    level: bool,
    ms: int,
    chip: int,
    bit: int,
)
    requires
        r.len() == 2,
        ms >= 0,
    ensures
        ({
            let pin = board.inputs[r[0] as int % 8][r[1] as int % 16].pin;
            level_at(board, level, rand_spawns(board, r, rand), ms, chip, bit) == if pin.code
                != board.unknown_pin.code && at(pin, chip, bit) {
                ms < 500
            } else {
                level
            }
        }),
{
    let spawns = rand_spawns(board, r, rand);
    lemma_level_take(board, level, spawns, 0, ms, chip, bit);
    lemma_level_take(board, level, spawns, 1, ms, chip, bit);
    lemma_level_take(board, level, spawns, 2, ms, chip, bit);
    assert(spawns.take(spawns.len() as int) =~= spawns);
    assert(spawns.take(0).len() == 0);
}

/// Random lamps go on, a twentieth of a second later, exactly while they are wanted; beside that
/// only one lamp is lit and put out.
pub proof fn law_rand_asks(board: &Board, r: Seq<u8>, rand: bool)
    requires
        r.len() == 2,
    ensures
        ({
            let pin = board.inputs[r[0] as int % 8][r[1] as int % 16].pin;
            let spawns = rand_spawns(board, r, rand);
            &&& spawns.contains(Spawn { task: Task::RandOutput, delay_ms: 50 }) <==> rand
            &&& spawns.len() == (if rand {
                1int
            } else {
                0
            }) + (if pin.code == board.unknown_pin.code {
                0int
            } else {
                2
            })
            &&& forall|k: int|
                0 <= k < spawns.len() ==> match (#[trigger] spawns[k]).task {
                    Task::RandOutput => rand && spawns[k].delay_ms == 50,
                    Task::SetOutput(p) => p == pin && spawns[k].delay_ms == 0,
                    Task::ClearOutput(p) => p == pin && spawns[k].delay_ms == 500,
                    _ => false,
                }
        }),
{
    let spawns = rand_spawns(board, r, rand);
    if rand {
        assert(spawns[spawns.len() - 1] == (Spawn { task: Task::RandOutput, delay_ms: 50 }));
    }
}

/// The word that the next random lamp is chosen by: the next one of the generator, or the first of
/// one seeded with the ticks where there is none yet. Its two lower bytes choose, the generator is
/// one word further, and nothing else changes, least of all whether random lamps are wanted.
pub proof fn law_rand_word(
    before: Shared,
    after: Shared,
    board: &Board,
    ticks: u64,
    spawns: Seq<Spawn>,
    i: nat,
)
    requires
        blinked(before, after, board, ticks, spawns),
    ensures
        ({
            let word: u32 = if before.rng is Some {
                rng_word(before.rng->0, 0)
            } else {
                seeded_word(ticks, 0)
            };
            let low: u8 = (word % 256) as u8;
            let next: u8 = (word / 256 % 256) as u8;
            spawns == rand_spawns(board, seq![low, next], before.rand)
        }),
        after.rng is Some,
        rng_word(after.rng->0, i) == if before.rng is Some {
            rng_word(before.rng->0, i + 1)
        } else {
            seeded_word(ticks, i + 1)
        },
        after.rand == before.rand,
        after.output == before.output,
        after.led_on == before.led_on,
        after.bits == before.bits,
        after.rise == before.rise,
        after.fall == before.fall,
        after.tstate == before.tstate,
        after.estate == before.estate,
        after.gmode == before.gmode,
        after.socket == before.socket,
        after.socket_i == before.socket_i,
        after.answers == before.answers,
{
}

/// The game starts by blinking the led and giving a sign of life at once, testing the outputs
/// after a second and watching the inputs after ten, each where it is wanted, and with no more.
pub proof fn law_first_tasks(features: Features)
    ensures
        ({
            let spawns = first_spawns(features);
            &&& spawns[spawns.len() - 2] == now(Task::LedBlink)
            &&& spawns[spawns.len() - 1] == now(Task::Alive)
            &&& spawns.contains(Spawn { task: Task::TestOutput, delay_ms: 1000 })
                <==> features.test_output
            &&& spawns.contains(Spawn { task: Task::EnableIoIrq, delay_ms: 10_000 })
                <==> features.io_irq
            &&& spawns.contains(Spawn { task: Task::IoNoirq, delay_ms: 10_000 })
                <==> features.io_noirq
            &&& spawns.len() == 2 + (if features.test_output {
                1int
            } else {
                0
            }) + (if features.io_irq {
                1int
            } else {
                0
            }) + (if features.io_noirq {
                1int
            } else {
                0
            })
        }),
{
    let spawns = first_spawns(features);
    let n = spawns.len() as int;
    assert(spawns[n - 2] == now(Task::LedBlink));
    assert(spawns[n - 1] == now(Task::Alive));
    if features.test_output {
        assert(spawns[0] == (Spawn { task: Task::TestOutput, delay_ms: 1000 }));
    }
    if features.io_noirq {
        assert(spawns[n - 3] == (Spawn { task: Task::IoNoirq, delay_ms: 10_000 }));
    }
    if features.io_irq {
        let i: int = if features.test_output {
            1
        } else {
            0
        };
        assert(spawns[i] == (Spawn { task: Task::EnableIoIrq, delay_ms: 10_000 }));
    }
}

/// Two interrupts count two, and each asks for a poll at once and for the interrupt to be enabled
/// again a fifth of a second later, and for nothing else.
pub proof fn law_two_interrupts(
    a: u32,
    b: u32,
    c: u32,
    first: Seq<Spawn>,
    second: Seq<Spawn>,
)
    requires
        counted(a, b, first),
        counted(b, c, second),
    ensures
        b as int - a as int == 1,
        c as int - a as int == 2,
        first == second,
        first.len() == 2,
        first.contains(now(Task::IoPoll)),
        first.contains(Spawn { task: Task::EnableIoIrq, delay_ms: 200 }),
{
    assert(first[0] == (Spawn { task: Task::EnableIoIrq, delay_ms: 200 }));
    assert(first[1] == now(Task::IoPoll));
}

/// A task that keeps the game going asks for itself again, once and after its own time, and a poll
/// is asked for at once wherever the inputs are watched.
pub proof fn law_goes_on(
    before: Shared,
    after: Shared,
    board: &Board,
    features: Features,
    inputs: Inputs,
    task: Task,
    outcome: Outcome,
)
    requires
        ran(before, after, board, features, inputs, task, outcome),
        task == Task::LedBlink || task == Task::Alive || task == Task::IoNoirq || task
            == Task::EnableIoIrq,
    ensures
        outcome.writes@.len() == 0,
        after.output == before.output,
        task == Task::LedBlink ==> outcome.spawns@.contains(Spawn { task, delay_ms: 1000 }),
        task == Task::Alive ==> outcome.spawns@.contains(Spawn { task, delay_ms: 5000 }),
        task == Task::IoNoirq ==> outcome.spawns@.contains(Spawn { task, delay_ms: 100 }),
        outcome.spawns@.contains(now(Task::IoPoll)) <==> task == Task::IoNoirq || task
            == Task::EnableIoIrq,
        outcome.spawns@.len() == if task == Task::IoNoirq {
            2int
        } else {
            1
        },
{
    let spawns = outcome.spawns@;
    assert(spawns.contains(spawns[0]));
    if task == Task::IoNoirq {
        assert(spawns.contains(spawns[1]));
    }
}

/// The led blinks: each time it is driven the other way than the time before.
pub proof fn law_led_alternates(
    a: Shared,
    b: Shared,
    c: Shared,
    board: &Board,
    features: Features,
    inputs: Inputs,
    first: Outcome,
    second: Outcome,
)
    requires
        ran(a, b, board, features, inputs, Task::LedBlink, first),
        ran(b, c, board, features, inputs, Task::LedBlink, second),
    ensures
        first.led is Some && second.led is Some,
        first.led->0 != second.led->0,
        first.led->0 == a.led_on,
        c == a,
{
}

/// A click sounds the relay, and a ting the bell, for a tenth of a second; neither touches any
/// other line.
pub proof fn law_sounds(
    before: Shared,
    after: Shared,
    board: &Board,
    features: Features,
    inputs: Inputs,
    bell: bool,
    outcome: Outcome,
    level: bool,
    ms: int,
    chip: int,
    bit: int,
)
    requires
        ran(
            before,
            after,
            board,
            features,
            inputs,
            if bell {
                Task::TingBell01
            } else {
                Task::ClickRelay01
            },
            outcome,
        ),
        ms >= 0,
    ensures
        after == before,
        outcome.writes@.len() == 0,
        level_at(board, level, outcome.spawns@, ms, chip, bit) == if at(
            if bell {
                board.bell01
            } else {
                board.relay01
            },
            chip,
            bit,
        ) {
            ms < 100
        } else {
            level
        },
        outcome.spawns@.len() == 2,
{
    let spawns = outcome.spawns@;
    lemma_level_take(board, level, spawns, 0, ms, chip, bit);
    lemma_level_take(board, level, spawns, 1, ms, chip, bit);
    assert(spawns.take(2) =~= spawns);
    assert(spawns.take(0).len() == 0);
}

/// Switching the whole map switches both of its halves at once and nothing else.
pub proof fn law_whole_map(
    before: Shared,
    after: Shared,
    board: &Board,
    features: Features,
    inputs: Inputs,
    on: bool,
    outcome: Outcome,
    level: bool,
    ms: int,
    chip: int,
    bit: int,
)
    requires
        ran(
            before,
            after,
            board,
            features,
            inputs,
            if on {
                Task::MapAllOn
            } else {
                Task::MapAllOff
            },
            outcome,
        ),
        ms >= 0,
    ensures
        after == before,
        level_at(board, level, outcome.spawns@, ms, chip, bit) == if in_table(
            board.out_map_s@,
            chip,
            bit,
        ) || in_table(board.out_map_n@, chip, bit) {
            on
        } else {
            level
        },
{
    let spawns = outcome.spawns@;
    lemma_level_take(board, level, spawns, 0, ms, chip, bit);
    lemma_level_take(board, level, spawns, 1, ms, chip, bit);
    assert(spawns.take(2) =~= spawns);
    assert(spawns.take(0).len() == 0);
}

/// Ports hold what was written to them last, and where nothing was written what they held.
pub proof fn law_last_write(ports: Seq<u16>, writes: Seq<PortWrite>, chip: int, k: int)
    requires
        0 <= chip < ports.len(),
        -1 <= k < writes.len(),
        k >= 0 ==> writes[k].chip == chip,
        forall|i: int| k < i < writes.len() ==> (#[trigger] writes[i]).chip != chip,
        forall|i: int| 0 <= i < writes.len() ==> (#[trigger] writes[i]).chip < ports.len(),
    ensures
        after_writes(ports, writes).len() == ports.len(),
        after_writes(ports, writes)[chip] == if k >= 0 {
            writes[k].value
        } else {
            ports[chip]
        },
    decreases writes.len(),
{
    lemma_after_writes_len(ports, writes);
    if writes.len() > 0 {
        let init = writes.drop_last();
        assert(forall|i: int| 0 <= i < init.len() ==> #[trigger] init[i] == writes[i]);
        assert(writes[writes.len() - 1].chip < ports.len());
        lemma_after_writes_len(ports, init);
        if k < init.len() {
            assert(writes[writes.len() - 1].chip != chip);
            assert forall|i: int| k < i < init.len() implies (#[trigger] init[i]).chip != chip by {
                assert(init[i] == writes[i]);
            }
            law_last_write(ports, init, chip, k);
        }
    }
}

/// Ports stay as many as they were.
proof fn lemma_after_writes_len(ports: Seq<u16>, writes: Seq<PortWrite>)
    requires
        forall|i: int| 0 <= i < writes.len() ==> (#[trigger] writes[i]).chip < ports.len(),
    ensures
        after_writes(ports, writes).len() == ports.len(),
    decreases writes.len(),
{
    if writes.len() > 0 {
        let init = writes.drop_last();
        assert(forall|i: int| 0 <= i < init.len() ==> #[trigger] init[i] == writes[i]);
        assert(writes[writes.len() - 1].chip < ports.len());
        lemma_after_writes_len(ports, init);
    }
}

/// Putting all lamps out, or lighting all, writes to each of the eight chips once, in their order.
pub proof fn law_flood_writes(
    before: Shared,
    after: Shared,
    writes: Seq<PortWrite>,
    word: u16,
    chip: int,
)
    requires
        flooded(before, after, writes, word),
        0 <= chip < 8,
    ensures
        writes.len() == 8,
        writes[chip].chip as int == chip,
        writes[chip].value == word,
        after.output@[chip] == word,
{
}

/// A table that was switched, on or off, was written out pin by pin: as many writes as pins, each
/// to the chip of its own pin, and the last one to a chip holds what the output holds.
pub proof fn law_switched_writes(
    before: Shared,
    after: Shared,
    writes: Seq<PortWrite>,
    pins: Seq<MyPin>,
    drive: Drive,
    i: int,
)
    requires
        switched(before, after, writes, pins, drive),
        all_drivable(pins),
        0 <= i < pins.len(),
        forall|k: int| i < k < pins.len() ==> (#[trigger] writes[k]).chip != writes[i].chip,
    ensures
        writes.len() == pins.len(),
        writes[i].chip as int == pins[i].code as int / 256 % 256,
        writes[i].value == after.output@[writes[i].chip as int],
{
    assert(pins[i].drivable());
    assert forall|k: int| 0 <= k < writes.len() implies (#[trigger] writes[k]).chip < 8 by {
        assert(pins[k].drivable());
    }
    law_last_write(before.output@, writes, writes[i].chip as int, i);
}

/// Driving a table writes once for each of its pins, in their order: to the pin's own chip, a word
/// in which the pin's own bit is as told.
pub proof fn law_writes_of_table(
    bank: Seq<u16>,
    pins: Seq<MyPin>,
    on: bool,
    i: int,
    bit: int,
)
    requires
        bank.len() == 8,
        all_drivable(pins),
        0 <= i < pins.len(),
        0 <= bit < 16,
    ensures
        ({
            let writes = table_writes(
                bank,
                pins,
                if on {
                    Drive::High
                } else {
                    Drive::Low
                },
            );
            &&& writes.len() == pins.len()
            &&& at(pins[i], writes[i].chip as int, bit) ==> crate::ports::high(writes[i].value, bit)
                == on
            &&& writes[i].chip as int == pins[i].code as int / 256 % 256
        }),
{
    let drive = if on {
        Drive::High
    } else {
        Drive::Low
    };
    let init = pins.take(i);
    let some = pins.take(i + 1);
    assert(some.drop_last() =~= init);
    assert(some.last() == pins[i]);
    assert(pins[i].drivable());
    assert(forall|k: int| 0 <= k < init.len() ==> #[trigger] init[k] == pins[k]);
    crate::lamps::lemma_drive_pins_len(bank, init, drive);
    let chip = pins[i].chip_spec();
    crate::play::lemma_at(pins[i], chip, bit);
    crate::lamps::law_drive_pin(
        crate::lamps::drive_pins(bank, init, drive),
        pins[i],
        drive,
        chip,
        bit,
    );
}

} // verus!
