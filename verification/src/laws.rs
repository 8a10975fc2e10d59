//! What holds of the game as a whole.

use vstd::prelude::*;
use crate::game::{
    answers_right, connects, egg_spawns, ignored, let_go, mode_answers, next_egg, next_mode, touch_spawns,
    touched,
};
use crate::lamps::{
    drive_pin, drive_pins, has_pin, law_drive_pin, law_drive_pins, lemma_drive_pins_len, Drive,
};
use crate::pins::{all_drivable, Board, Contact, MyPin};
use crate::ports::{
    all_zero, fallen, first_line, high, is_first_line, law_edges, law_edges_replay, law_first_line,
    lemma_no_bit_set, lemma_zero_low, line, risen,
};
use crate::report::{alive_text, banner_text, binary_row, decimal, edge_text, io_text};
use crate::shows::{
    blinked, coming_word, low_bytes, next_test, rand_contact, rand_spawns, test_spawns, test_table,
};
use crate::state::{
    flooded, poll_spawns, EasterEggState, GameMode, OutTestState, Shared,
};
use crate::tasks::{after, map1_spawns, map2_spawns, now, quiz_spawns, Spawn, Task};

verus! {

/// The mode switch goes round the three games and never leaves them.
pub proof fn law_mode_cycle(gmode: GameMode)
    ensures
        next_mode(gmode) != GameMode::NoGame,
        gmode != GameMode::NoGame ==> next_mode(next_mode(next_mode(gmode))) == gmode,
        gmode != GameMode::NoGame ==> next_mode(gmode) != gmode && next_mode(next_mode(gmode))
            != gmode,
        next_mode(GameMode::NoGame) == GameMode::MapQuiz1,
{
}

/// The bell rings for a touched contact exactly where it is the right answer.
pub proof fn law_bell(shared: &Shared, board: &Board, contact: Contact)
    ensures
        touch_spawns(shared, board, contact).contains(now(Task::TingBell01)) <==> answers_right(
            shared,
            board,
            contact,
        ),
{
    let spawns = touch_spawns(shared, board, contact);
    if answers_right(shared, board, contact) {
        assert(spawns[1] == now(Task::TingBell01));
    }
}

/// A socket is touched and then the contact that answers it: the bell rings, the lamps of both go
/// out, and the answer is found. Any other contact rings no bell and finds nothing.
pub proof fn law_question_and_answer(
    first: Shared,
    second: Shared,
    third: Shared,
    board: &Board,
    socket: Contact,
    answer: Contact,
    spawns: Seq<Spawn>,
    more: Seq<Spawn>,
)
    requires
        first.wf(),
        second.wf(),
        touched(first, second, board, socket, spawns),
        touched(second, third, board, answer, more),
        connects(board, socket),
        first.gmode != GameMode::NoGame,
        !ignored(board, answer.pin),
        answer.socket is None,
    ensures
        first.answers[socket.socket->0 as int] == Some(answer.pin) ==> {
            &&& more.contains(now(Task::TingBell01))
            &&& more.contains(now(Task::ClearOutput(answer.pin)))
            &&& more.contains(now(Task::ClearOutput(socket.pin)))
            &&& third.answers@ == first.answers@.update(socket.socket->0 as int, None)
        },
        first.answers[socket.socket->0 as int] != Some(answer.pin) ==> {
            &&& !more.contains(now(Task::TingBell01))
            &&& third.answers@ == first.answers@
        },
{
    let eggs: int = egg_spawns(second.estate, answer.pin).len() as int;
    if first.answers[socket.socket->0 as int] == Some(answer.pin) {
        assert(more[eggs + 1] == now(Task::TingBell01));
        assert(more[eggs + 2] == now(Task::ClearOutput(answer.pin)));
        assert(more[eggs + 3] == now(Task::ClearOutput(socket.pin)));
    }
}

/// A right answer counts once: touched again, the same contact is no answer any more.
pub proof fn law_answer_once(
    before: Shared,
    after: Shared,
    board: &Board,
    contact: Contact,
    spawns: Seq<Spawn>,
)
    requires
        before.wf(),
        touched(before, after, board, contact, spawns),
    ensures
        !answers_right(&after, board, contact),
{
}

/// Touching a contact takes no more than the one answer that it found, and brings none back.
pub proof fn law_answers_only_go(
    before: Shared,
    after: Shared,
    board: &Board,
    contact: Contact,
    spawns: Seq<Spawn>,
    i: int,
)
    requires
        before.wf(),
        touched(before, after, board, contact, spawns),
        0 <= i < 24,
    ensures
        after.answers[i] == before.answers[i] || (after.answers[i] is None && before.answers[i]
            == Some(contact.pin) && before.socket_i == Some(i as usize)),
{
}

/// While no socket is connected there is no right answer, and letting a socket go disconnects it.
pub proof fn law_disconnected(
    before: Shared,
    after: Shared,
    board: &Board,
    contact: Contact,
    spawns: Seq<Spawn>,
    next: Contact,
)
    requires
        let_go(before, after, board, contact, spawns),
        contact.socket is Some,
    ensures
        !answers_right(&after, board, next),
{
}

/// The answers and the mode stay as they are when anything but the mode switch is let go; the
/// switch brings the answers of the next mode.
pub proof fn law_mode_switch_only(
    before: Shared,
    after: Shared,
    board: &Board,
    contact: Contact,
    spawns: Seq<Spawn>,
)
    requires
        let_go(before, after, board, contact, spawns),
    ensures
        contact.pin != board.mode01 ==> after.gmode == before.gmode && after.answers@
            == before.answers@,
        contact.pin == board.mode01 ==> after.gmode == next_mode(before.gmode) && after.answers@
            == mode_answers(board, after.gmode),
{
}

/// How far the secret sequence is after contacts were touched, one after the other.
pub open spec fn egg_after(board: &Board, estate: EasterEggState, pins: Seq<MyPin>) -> EasterEggState
    decreases pins.len(),
{
    if pins.len() == 0 {
        estate
    } else {
        next_egg(board, egg_after(board, estate, pins.drop_last()), pins.last())
    }
}

/// The secret sequence: Turku, Tammisaari, Turku, Tammisaari.
pub open spec fn secret(board: &Board) -> Seq<MyPin> {
    seq![
        board.map05_turku,
        board.map01_tammisaari,
        board.map05_turku,
        board.map01_tammisaari,
    ]
}

/// The secret sequence opens the easter egg for whatever is touched next, and then is over.
pub proof fn law_egg_opens(board: &Board, pin: MyPin)
    ensures
        egg_after(board, EasterEggState::Start, secret(board)) == EasterEggState::Go,
        egg_spawns(EasterEggState::Go, pin) == seq![now(Task::EasterEgg(pin))],
        next_egg(board, EasterEggState::Go, pin) == EasterEggState::Start,
{
    let s = secret(board);
    let s3 = s.drop_last();
    let s2 = s3.drop_last();
    let s1 = s2.drop_last();
    assert(s1.drop_last().len() == 0);
    assert(egg_after(board, EasterEggState::Start, s1.drop_last()) == EasterEggState::Start);
    assert(s1.last() == board.map05_turku);
    assert(egg_after(board, EasterEggState::Start, s1) == EasterEggState::Phase1);
    assert(s2.last() == board.map01_tammisaari);
    assert(egg_after(board, EasterEggState::Start, s2) == EasterEggState::Phase2);
    assert(s3.last() == board.map05_turku);
    assert(egg_after(board, EasterEggState::Start, s3) == EasterEggState::Phase3);
    assert(s.last() == board.map01_tammisaari);
}

/// The number of contacts of the secret sequence that a state stands for.
pub open spec fn egg_depth(estate: EasterEggState) -> nat {
    match estate {
        EasterEggState::Start => 0,
        EasterEggState::Phase1 => 1,
        EasterEggState::Phase2 => 2,
        EasterEggState::Phase3 => 3,
        EasterEggState::Go => 4,
    }
}

/// The easter egg opens only where the contacts touched last were the secret sequence; on the way
/// there they were the beginning of it.
pub proof fn law_egg_only_by_secret(board: &Board, pins: Seq<MyPin>)
    ensures
        ({
            let depth = egg_depth(egg_after(board, EasterEggState::Start, pins));
            depth <= pins.len() && pins.skip(pins.len() - depth) == secret(board).take(depth as int)
        }),
    decreases pins.len(),
{
    let depth = egg_depth(egg_after(board, EasterEggState::Start, pins));
    if pins.len() == 0 {
        assert(pins.skip(0) =~= secret(board).take(0));
    } else {
        let init = pins.drop_last();
        law_egg_only_by_secret(board, init);
        let d = egg_depth(egg_after(board, EasterEggState::Start, init));
        if depth == 0 {
            assert(pins.skip(pins.len() as int) =~= secret(board).take(0));
        } else {
            assert(depth == d + 1);
            assert(pins.skip(pins.len() - depth) =~= init.skip(init.len() - d).push(pins.last()));
            assert(secret(board).take(depth as int) =~= secret(board).take(d as int).push(
                secret(board)[d as int],
            ));
        }
    }
}

/// The easter egg is asked for exactly where the secret sequence was complete before the touch.
pub proof fn law_egg_asked(
    before: Shared,
    after: Shared,
    board: &Board,
    contact: Contact,
    spawns: Seq<Spawn>,
)
    requires
        touched(before, after, board, contact, spawns),
    ensures
        spawns.contains(now(Task::EasterEgg(contact.pin))) <==> before.estate
            == EasterEggState::Go,
{
    if before.estate == EasterEggState::Go {
        assert(spawns[0] == now(Task::EasterEgg(contact.pin)));
    }
}

/// The test of the outputs goes on, with a table at every step, and is over after four steps at
/// most; then it only rings the bell.
pub proof fn law_test_ends(board: &Board, tstate: OutTestState)
    ensures
        next_test(next_test(next_test(next_test(tstate)))) == OutTestState::Idle,
        tstate != OutTestState::Idle ==> next_test(tstate) != tstate,
        test_table(board, tstate) is Some <==> tstate != OutTestState::Idle,
        test_spawns(tstate).contains(after(1000, Task::TestOutput)) <==> tstate
            != OutTestState::Idle,
        test_spawns(tstate).contains(now(Task::TingBell01)) <==> tstate == OutTestState::Idle,
{
    if tstate != OutTestState::Idle {
        assert(test_spawns(tstate)[2] == after(1000, Task::TestOutput));
    } else {
        assert(test_spawns(tstate)[0] == now(Task::TingBell01));
    }
}

/// Lamps go on being lit at random while they are wanted, and no longer.
pub proof fn law_rand_goes_on(board: &Board, r: Seq<u8>, rand: bool)
    ensures
        rand_spawns(board, r, rand).contains(after(50, Task::RandOutput)) <==> rand,
{
    let spawns = rand_spawns(board, r, rand);
    if rand {
        assert(spawns.last() == after(50, Task::RandOutput));
    }
}

/// The generator is seeded once: later lamps follow the same words, whatever the clock says.
pub proof fn law_seeded_once(
    first: Shared,
    second: Shared,
    third: Shared,
    board: &Board,
    ticks: u64,
    later: u64,
    spawns: Seq<Spawn>,
    more: Seq<Spawn>,
)
    requires
        blinked(first, second, board, ticks, spawns),
        blinked(second, third, board, later, more),
    ensures
        more == rand_spawns(board, low_bytes(coming_word(first.rng, ticks, 1)), first.rand),
        forall|i: nat| #[trigger]
            coming_word(third.rng, later, i) == coming_word(first.rng, ticks, i + 2),
{
    assert forall|i: nat| #[trigger]
        coming_word(third.rng, later, i) == coming_word(first.rng, ticks, i + 2) by {
        assert(crate::shows::rng_word(third.rng->0, i) == coming_word(second.rng, later, i + 1));
        assert(crate::shows::rng_word(second.rng->0, i + 1) == coming_word(first.rng, ticks, i + 2));
    }
}

/// Where the inputs did not change, a poll asks for nothing.
pub proof fn law_quiet_poll(bits: Seq<u16>, io_debug: bool)
    requires
        bits.len() == 8,
    ensures
        poll_spawns(bits, bits, io_debug).len() == 0,
{
    assert forall|i: int| 0 <= i < 8 implies fallen(#[trigger] bits[i], bits[i]) == 0 && risen(
        bits[i],
        bits[i],
    ) == 0 by {
        law_edges_replay(bits[i], bits[i]);
    }
}

/// A poll asks for falls to be handled exactly where a line fell, and for rises exactly where a
/// line rose.
pub proof fn law_poll_edges(before: Seq<u16>, after: Seq<u16>, io_debug: bool)
    requires
        before.len() == 8,
        after.len() == 8,
    ensures
        poll_spawns(before, after, io_debug).contains(now(Task::InputEventFall)) <==> exists|
            chip: int,
            bit: int,
        |
            0 <= chip < 8 && 0 <= bit < 16 && #[trigger] line(before, chip, bit) && !line(
                after,
                chip,
                bit,
            ),
        poll_spawns(before, after, io_debug).contains(now(Task::InputEventRise)) <==> exists|
            chip: int,
            bit: int,
        |
            0 <= chip < 8 && 0 <= bit < 16 && !#[trigger] line(before, chip, bit) && line(
                after,
                chip,
                bit,
            ),
{
    let spawns = poll_spawns(before, after, io_debug);
    let fell = exists|i: int| 0 <= i < 8 && fallen(#[trigger] before[i], after[i]) != 0;
    let rose = exists|i: int| 0 <= i < 8 && risen(#[trigger] before[i], after[i]) != 0;
    if fell {
        let i = choose|i: int| 0 <= i < 8 && fallen(#[trigger] before[i], after[i]) != 0;
        let bit = lemma_some_bit(fallen(before[i], after[i]));
        law_edges(before[i], after[i], bit);
        assert(line(before, i, bit) && !line(after, i, bit));
        assert(spawns[0] == now(Task::InputEventFall));
    }
    if rose {
        let i = choose|i: int| 0 <= i < 8 && risen(#[trigger] before[i], after[i]) != 0;
        let bit = lemma_some_bit(risen(before[i], after[i]));
        law_edges(before[i], after[i], bit);
        assert(!line(before, i, bit) && line(after, i, bit));
        assert(spawns[if fell {
            1int
        } else {
            0int
        }] == now(Task::InputEventRise));
    }
    assert forall|chip: int, bit: int|
        0 <= chip < 8 && 0 <= bit < 16 && #[trigger] line(before, chip, bit) != line(
            after,
            chip,
            bit,
        ) implies (if line(before, chip, bit) {
        fell
    } else {
        rose
    }) by {
        law_edges(before[chip], after[chip], bit);
        lemma_zero_low(bit);
    }
}

/// The first line that fell between two readings is the one that is handled as touched, and the
/// first that rose the one that is handled as let go.
pub proof fn law_first_edge(
    before: Seq<u16>,
    after: Seq<u16>,
    fall: Seq<u16>,
    rise: Seq<u16>,
    chip: int,
    bit: int,
)
    requires
        before.len() == 8,
        after.len() == 8,
        fall.len() == 8,
        rise.len() == 8,
        forall|i: int| 0 <= i < 8 ==> #[trigger] fall[i] == fallen(before[i], after[i]),
        forall|i: int| 0 <= i < 8 ==> #[trigger] rise[i] == risen(before[i], after[i]),
        0 <= chip < 8,
        0 <= bit < 16,
    ensures
        first_line(fall) == Some((chip, bit)) <==> {
            &&& line(before, chip, bit) && !line(after, chip, bit)
            &&& forall|c: int, b: int|
                0 <= c < 8 && 0 <= b < 16 && comes_before(c, b, chip, bit) ==> !(#[trigger] line(
                    before,
                    c,
                    b,
                ) && !line(after, c, b))
        },
        first_line(rise) == Some((chip, bit)) <==> {
            &&& !line(before, chip, bit) && line(after, chip, bit)
            &&& forall|c: int, b: int|
                0 <= c < 8 && 0 <= b < 16 && comes_before(c, b, chip, bit) ==> !(!#[trigger] line(
                    before,
                    c,
                    b,
                ) && line(after, c, b))
        },
{
    assert forall|c: int, b: int| 0 <= c < 8 && 0 <= b < 16 implies #[trigger] line(fall, c, b) == (
    line(before, c, b) && !line(after, c, b)) by {
        law_edges(before[c], after[c], b);
    }
    assert forall|c: int, b: int| 0 <= c < 8 && 0 <= b < 16 implies #[trigger] line(rise, c, b) == (
    !line(before, c, b) && line(after, c, b)) by {
        law_edges(before[c], after[c], b);
    }
    lemma_first_line_iff(fall, chip, bit);
    lemma_first_line_iff(rise, chip, bit);
    assert(forall|c: int, b: int|
        #![trigger line(before, c, b)]
        0 <= c < 8 && 0 <= b < 16 ==> {
            &&& line(fall, c, b) == (line(before, c, b) && !line(after, c, b))
            &&& line(rise, c, b) == (!line(before, c, b) && line(after, c, b))
        });
}

/// A line comes before another, by chip and then by bit.
pub open spec fn comes_before(c: int, b: int, chip: int, bit: int) -> bool {
    c < chip || c == chip && b < bit
}

/// The first high line is the one that no high line comes before.
proof fn lemma_first_line_iff(bank: Seq<u16>, chip: int, bit: int)
    requires
        bank.len() == 8,
        0 <= chip < 8,
        0 <= bit < 16,
    ensures
        first_line(bank) == Some((chip, bit)) <==> {
            &&& line(bank, chip, bit)
            &&& forall|c: int, b: int|
                0 <= c < 8 && 0 <= b < 16 && comes_before(c, b, chip, bit) ==> !#[trigger] line(
                    bank,
                    c,
                    b,
                )
        },
{
    if first_line(bank) == Some((chip, bit)) {
        law_some_first_line(bank);
    }
    if line(bank, chip, bit) && forall|c: int, b: int|
        0 <= c < 8 && 0 <= b < 16 && comes_before(c, b, chip, bit) ==> !#[trigger] line(
            bank,
            c,
            b,
        ) {
        assert(is_first_line(bank, chip, bit));
        law_first_line(bank, chip, bit);
    }
}

/// A word that is not zero has a set bit.
proof fn lemma_some_bit(word: u16) -> (bit: int)
    requires
        word != 0,
    ensures
        0 <= bit < 16,
        high(word, bit),
{
    if forall|b: int| 0 <= b < 16 ==> !#[trigger] high(word, b) {
        lemma_no_bit_set(word);
    }
    choose|b: int| 0 <= b < 16 && #[trigger] high(word, b)
}

/// Where not all words are zero, there is a first high line.
pub proof fn law_some_first_line(bank: Seq<u16>)
    requires
        !all_zero(bank),
    ensures
        first_line(bank) matches Some(at) && is_first_line(bank, at.0, at.1),
{
    lemma_has_first_line(bank, 0);
}

/// Where the words before a place are zero, and not all are, there is a first high line.
proof fn lemma_has_first_line(bank: Seq<u16>, chip: int)
    requires
        0 <= chip <= bank.len(),
        forall|c: int| 0 <= c < chip ==> #[trigger] bank[c] == 0,
        !all_zero(bank),
    ensures
        first_line(bank) matches Some(at) && is_first_line(bank, at.0, at.1),
    decreases bank.len() - chip,
{
    assert(chip < bank.len());
    if bank[chip] == 0 {
        lemma_has_first_line(bank, chip + 1);
    } else {
        let bit = lemma_lowest_bit(bank[chip], 0);
        assert forall|c: int, b: int| 0 <= c < chip && 0 <= b < 16 implies !#[trigger] line(
            bank,
            c,
            b,
        ) by {
            lemma_zero_low(b);
        }
        assert(is_first_line(bank, chip, bit));
        law_first_line(bank, chip, bit);
    }
}

/// Where the bits below a place are low, and the word is not zero, there is a lowest set bit.
proof fn lemma_lowest_bit(word: u16, from: int) -> (bit: int)
    requires
        0 <= from <= 16,
        forall|b: int| 0 <= b < from ==> !#[trigger] high(word, b),
        word != 0,
    ensures
        0 <= bit < 16,
        high(word, bit),
        forall|b: int| 0 <= b < bit ==> !#[trigger] high(word, b),
    decreases 16 - from,
{
    if from == 16 {
        lemma_no_bit_set(word);
        from
    } else if high(word, from) {
        from
    } else {
        lemma_lowest_bit(word, from + 1)
    }
}

/// Putting out every lamp leaves every line low, and lighting every lamp leaves every line high.
pub proof fn law_flood(
    before: Shared,
    zero: Shared,
    ones: Shared,
    zero_writes: Seq<crate::lamps::PortWrite>,
    ones_writes: Seq<crate::lamps::PortWrite>,
    chip: int,
    bit: int,
)
    requires
        flooded(before, zero, zero_writes, 0),
        flooded(before, ones, ones_writes, 0xFFFF),
        0 <= chip < 8,
        0 <= bit < 16,
    ensures
        !line(zero.output@, chip, bit),
        line(ones.output@, chip, bit),
{
    lemma_zero_low(bit);
    let b: u16 = bit as u16;
    assert(0xFFFFu16 & (1u16 << b) != 0) by (bit_vector)
        requires
            b < 16,
    ;
}

/// Banks whose lines are the same are the same.
proof fn lemma_same_lines(a: Seq<u16>, b: Seq<u16>)
    requires
        a.len() == b.len(),
        forall|chip: int, bit: int|
            0 <= chip < a.len() && 0 <= bit < 16 ==> #[trigger] line(a, chip, bit) == line(
                b,
                chip,
                bit,
            ),
    ensures
        a == b,
{
    assert forall|chip: int| 0 <= chip < a.len() implies a[chip] == b[chip] by {
        let x: u16 = a[chip];
        let y: u16 = b[chip];
        assert forall|bit: int| 0 <= bit < 16 implies !#[trigger] high(x ^ y, bit) by {
            assert(line(a, chip, bit) == line(b, chip, bit));
            let k: u16 = bit as u16;
            assert((x ^ y) & (1u16 << k) == 0) by (bit_vector)
                requires
                    k < 16,
                    (x & (1u16 << k) != 0) == (y & (1u16 << k) != 0),
            ;
        }
        lemma_no_bit_set(x ^ y);
        assert(x == y) by (bit_vector)
            requires
                x ^ y == 0,
        ;
    }
    assert(a =~= b);
}

/// Switching a table off undoes switching it on, but for lamps of it that were lit before: those
/// are out, as if it had been switched off at once.
pub proof fn law_on_off(bank: Seq<u16>, pins: Seq<MyPin>)
    requires
        bank.len() == 8,
        all_drivable(pins),
    ensures
        drive_pins(drive_pins(bank, pins, Drive::High), pins, Drive::Low) == drive_pins(
            bank,
            pins,
            Drive::Low,
        ),
{
    let on = drive_pins(bank, pins, Drive::High);
    lemma_drive_pins_len(bank, pins, Drive::High);
    lemma_drive_pins_len(bank, pins, Drive::Low);
    lemma_drive_pins_len(on, pins, Drive::Low);
    let off = drive_pins(on, pins, Drive::Low);
    assert forall|chip: int, bit: int| 0 <= chip < 8 && 0 <= bit < 16 implies #[trigger] line(
        off,
        chip,
        bit,
    ) == line(drive_pins(bank, pins, Drive::Low), chip, bit) by {
        law_drive_pins(bank, pins, true, chip, bit);
        law_drive_pins(on, pins, false, chip, bit);
        law_drive_pins(bank, pins, false, chip, bit);
    }
    lemma_same_lines(off, drive_pins(bank, pins, Drive::Low));
}

/// The output after a task that leads in a game was run to its end, a click until it is over.
pub open spec fn lamps_after(board: &Board, bank: Seq<u16>, task: Task) -> Seq<u16> {
    match task {
        Task::SocketsOn => drive_pins(bank, board.out_socket@, Drive::High),
        Task::QuizOn => drive_pins(bank, board.out_quiz@, Drive::High),
        Task::QuizOff => drive_pins(bank, board.out_quiz@, Drive::Low),
        Task::MapAOn => drive_pins(bank, board.out_map_a@, Drive::High),
        Task::MapAOff => drive_pins(bank, board.out_map_a@, Drive::Low),
        Task::MapBOn => drive_pins(bank, board.out_map_b@, Drive::High),
        Task::MapBOff => drive_pins(bank, board.out_map_b@, Drive::Low),
        Task::MapSOn => drive_pins(bank, board.out_map_s@, Drive::High),
        Task::MapSOff => drive_pins(bank, board.out_map_s@, Drive::Low),
        Task::MapNOn => drive_pins(bank, board.out_map_n@, Drive::High),
        Task::MapNOff => drive_pins(bank, board.out_map_n@, Drive::Low),
        Task::MapAllOn => drive_pins(
            drive_pins(bank, board.out_map_s@, Drive::High),
            board.out_map_n@,
            Drive::High,
        ),
        Task::ClickRelay01 => drive_pin(
            drive_pin(bank, board.relay01, Drive::High),
            board.relay01,
            Drive::Low,
        ),
        _ => bank,
    }
}

/// The output after tasks that lead in a game were run in their order.
pub open spec fn played(board: &Board, bank: Seq<u16>, spawns: Seq<Spawn>) -> Seq<u16>
    decreases spawns.len(),
{
    if spawns.len() == 0 {
        bank
    } else {
        lamps_after(board, played(board, bank, spawns.drop_last()), spawns.last().task)
    }
}

/// Tasks stand in the order in which they are due, and a click of a tenth of a second is over
/// before a task that is due later.
pub open spec fn in_order(spawns: Seq<Spawn>) -> bool {
    forall|i: int, j: int|
        0 <= i < j < spawns.len() ==> (#[trigger] spawns[i]).delay_ms == (
        #[trigger] spawns[j]).delay_ms || spawns[i].delay_ms + 100 < spawns[j].delay_ms
}

/// The level of a line after a task that leads in a game, from the level before.
spec fn level_after(board: &Board, level: bool, task: Task, chip: int, bit: int) -> bool {
    match task {
        Task::SocketsOn => level || has_pin(board.out_socket@, chip, bit),
        Task::QuizOn => level || has_pin(board.out_quiz@, chip, bit),
        Task::QuizOff => level && !has_pin(board.out_quiz@, chip, bit),
        Task::MapAOn => level || has_pin(board.out_map_a@, chip, bit),
        Task::MapAOff => level && !has_pin(board.out_map_a@, chip, bit),
        Task::MapBOn => level || has_pin(board.out_map_b@, chip, bit),
        Task::MapBOff => level && !has_pin(board.out_map_b@, chip, bit),
        Task::MapSOn => level || has_pin(board.out_map_s@, chip, bit),
        Task::MapSOff => level && !has_pin(board.out_map_s@, chip, bit),
        Task::MapNOn => level || has_pin(board.out_map_n@, chip, bit),
        Task::MapNOff => level && !has_pin(board.out_map_n@, chip, bit),
        Task::MapAllOn => level || has_pin(board.out_map_s@, chip, bit) || has_pin(
            board.out_map_n@,
            chip,
            bit,
        ),
        Task::ClickRelay01 => level && !(chip == board.relay01.chip_spec() && bit
            == board.relay01.bit_spec()),
        _ => level,
    }
}

/// Switching a table changes the levels of its lines only.
proof fn lemma_switch_level(bank: Seq<u16>, pins: Seq<MyPin>, chip: int, bit: int)
    requires
        bank.len() == 8,
        all_drivable(pins),
        0 <= chip < 8,
        0 <= bit < 16,
    ensures
        drive_pins(bank, pins, Drive::High).len() == 8,
        drive_pins(bank, pins, Drive::Low).len() == 8,
        line(drive_pins(bank, pins, Drive::High), chip, bit) == (line(bank, chip, bit) || has_pin(
            pins,
            chip,
            bit,
        )),
        line(drive_pins(bank, pins, Drive::Low), chip, bit) == (line(bank, chip, bit) && !has_pin(
            pins,
            chip,
            bit,
        )),
{
    lemma_drive_pins_len(bank, pins, Drive::High);
    lemma_drive_pins_len(bank, pins, Drive::Low);
    law_drive_pins(bank, pins, true, chip, bit);
    law_drive_pins(bank, pins, false, chip, bit);
}

/// One task that leads in a game changes a line as `level_after` says.
proof fn lemma_level_after(board: &Board, bank: Seq<u16>, task: Task, chip: int, bit: int)
    requires
        board.wf(),
        bank.len() == 8,
        0 <= chip < 8,
        0 <= bit < 16,
    ensures
        lamps_after(board, bank, task).len() == 8,
        line(lamps_after(board, bank, task), chip, bit) == level_after(
            board,
            line(bank, chip, bit),
            task,
            chip,
            bit,
        ),
{
    lemma_switch_level(bank, board.out_socket@, chip, bit);
    lemma_switch_level(bank, board.out_quiz@, chip, bit);
    lemma_switch_level(bank, board.out_map_a@, chip, bit);
    lemma_switch_level(bank, board.out_map_b@, chip, bit);
    lemma_switch_level(bank, board.out_map_s@, chip, bit);
    lemma_switch_level(bank, board.out_map_n@, chip, bit);
    let south = drive_pins(bank, board.out_map_s@, Drive::High);
    lemma_switch_level(south, board.out_map_n@, chip, bit);
    law_drive_pin(bank, board.relay01, Drive::High, chip, bit);
    let on = drive_pin(bank, board.relay01, Drive::High);
    law_drive_pin(on, board.relay01, Drive::Low, chip, bit);
}

/// One task more changes a line as `level_after` says.
proof fn lemma_played_push(
    board: &Board,
    bank: Seq<u16>,
    spawns: Seq<Spawn>,
    spawn: Spawn,
    chip: int,
    bit: int,
)
    requires
        board.wf(),
        played(board, bank, spawns).len() == 8,
        0 <= chip < 8,
        0 <= bit < 16,
    ensures
        played(board, bank, spawns.push(spawn)).len() == 8,
        line(played(board, bank, spawns.push(spawn)), chip, bit) == level_after(
            board,
            line(played(board, bank, spawns), chip, bit),
            spawn.task,
            chip,
            bit,
        ),
{
    assert(spawns.push(spawn).drop_last() =~= spawns);
    lemma_level_after(board, played(board, bank, spawns), spawn.task, chip, bit);
}

/// Eight tasks change a line one after the other.
proof fn lemma_played_eight(board: &Board, bank: Seq<u16>, spawns: Seq<Spawn>, chip: int, bit: int)
    requires
        board.wf(),
        bank.len() == 8,
        spawns.len() == 8,
        0 <= chip < 8,
        0 <= bit < 16,
    ensures
        ({
            let l1 = level_after(board, line(bank, chip, bit), spawns[0].task, chip, bit);
            let l2 = level_after(board, l1, spawns[1].task, chip, bit);
            let l3 = level_after(board, l2, spawns[2].task, chip, bit);
            let l4 = level_after(board, l3, spawns[3].task, chip, bit);
            let l5 = level_after(board, l4, spawns[4].task, chip, bit);
            let l6 = level_after(board, l5, spawns[5].task, chip, bit);
            let l7 = level_after(board, l6, spawns[6].task, chip, bit);
            line(played(board, bank, spawns), chip, bit) == level_after(
                board,
                l7,
                spawns[7].task,
                chip,
                bit,
            )
        }),
{
    let s0 = Seq::<Spawn>::empty();
    let s1 = s0.push(spawns[0]);
    let s2 = s1.push(spawns[1]);
    let s3 = s2.push(spawns[2]);
    let s4 = s3.push(spawns[3]);
    let s5 = s4.push(spawns[4]);
    let s6 = s5.push(spawns[5]);
    let s7 = s6.push(spawns[6]);
    lemma_played_push(board, bank, s0, spawns[0], chip, bit);
    lemma_played_push(board, bank, s1, spawns[1], chip, bit);
    lemma_played_push(board, bank, s2, spawns[2], chip, bit);
    lemma_played_push(board, bank, s3, spawns[3], chip, bit);
    lemma_played_push(board, bank, s4, spawns[4], chip, bit);
    lemma_played_push(board, bank, s5, spawns[5], chip, bit);
    lemma_played_push(board, bank, s6, spawns[6], chip, bit);
    lemma_played_push(board, bank, s7, spawns[7], chip, bit);
    assert(s7.push(spawns[7]) =~= spawns);
}

/// When a map quiz was led in from all lamps out, exactly the lamps of both halves of the map and
/// of the sockets are lit.
pub proof fn law_map_led_in(board: &Board, bank: Seq<u16>, chip: int, bit: int)
    requires
        board.wf(),
        bank.len() == 8,
        all_zero(bank),
        0 <= chip < 8,
        0 <= bit < 16,
    ensures
        in_order(map1_spawns()),
        in_order(map2_spawns()),
        line(played(board, bank, map1_spawns()), chip, bit) == (has_pin(
            board.out_map_s@,
            chip,
            bit,
        ) || has_pin(board.out_map_n@, chip, bit) || has_pin(board.out_socket@, chip, bit)),
        line(played(board, bank, map2_spawns()), chip, bit) == (has_pin(
            board.out_map_s@,
            chip,
            bit,
        ) || has_pin(board.out_map_n@, chip, bit) || has_pin(board.out_socket@, chip, bit)),
{
    lemma_zero_low(bit);
    assert(bank[chip] == 0);
    lemma_played_eight(board, bank, map1_spawns(), chip, bit);
    lemma_played_eight(board, bank, map2_spawns(), chip, bit);
}

/// When the quiz was led in from all lamps out, exactly the lamps of the quiz and of the sockets
/// are lit.
pub proof fn law_quiz_led_in(board: &Board, bank: Seq<u16>, chip: int, bit: int)
    requires
        board.wf(),
        bank.len() == 8,
        all_zero(bank),
        0 <= chip < 8,
        0 <= bit < 16,
    ensures
        in_order(quiz_spawns()),
        line(played(board, bank, quiz_spawns()), chip, bit) == (has_pin(board.out_quiz@, chip, bit)
            || has_pin(board.out_socket@, chip, bit)),
{
    lemma_zero_low(bit);
    assert(bank[chip] == 0);
    lemma_played_eight(board, bank, quiz_spawns(), chip, bit);
}

/// A task that drives a pin drives one that can be driven.
pub open spec fn runnable(task: Task) -> bool {
    match task {
        Task::SetOutput(pin) => pin.drivable(),
        Task::ToggleOutput(pin) => pin.drivable(),
        Task::ClearOutput(pin) => pin.drivable(),
        _ => true,
    }
}

/// Every task can be run.
pub open spec fn all_runnable(spawns: Seq<Spawn>) -> bool {
    forall|i: int| 0 <= i < spawns.len() ==> runnable((#[trigger] spawns[i]).task)
}

/// A contact that the game may have to show has a lamp.
pub open spec fn has_lamp(board: &Board, contact: Contact) -> bool {
    (!ignored(board, contact.pin) || contact.socket is Some) ==> contact.pin.drivable()
}

/// Where every contact has a lamp, touching one asks for no task that cannot be run, and the
/// socket that is then connected has a lamp too.
pub proof fn law_touch_runnable(
    before: Shared,
    after: Shared,
    board: &Board,
    contact: Contact,
    spawns: Seq<Spawn>,
)
    requires
        before.wf(),
        touched(before, after, board, contact, spawns),
        has_lamp(board, contact),
        before.socket is Some ==> before.socket->0.drivable(),
    ensures
        all_runnable(spawns),
        after.socket is Some ==> after.socket->0.drivable(),
{
}

/// Where every contact has a lamp, letting one go asks for no task that cannot be run.
pub proof fn law_let_go_runnable(
    before: Shared,
    after: Shared,
    board: &Board,
    contact: Contact,
    spawns: Seq<Spawn>,
)
    requires
        let_go(before, after, board, contact, spawns),
        has_lamp(board, contact),
        before.socket is Some ==> before.socket->0.drivable(),
    ensures
        all_runnable(spawns),
        after.socket is Some ==> after.socket->0.drivable(),
{
}

/// Where the pin that the random bytes point at is unknown or has a lamp, no task is asked for that
/// cannot be run.
pub proof fn law_rand_runnable(board: &Board, r: Seq<u8>, rand: bool)
    requires
        rand_contact(board, r).pin == board.unknown_pin || rand_contact(
            board,
            r,
        ).pin.drivable(),
    ensures
        all_runnable(rand_spawns(board, r, rand)),
{
}

/// The number of digits of a decimal number.
proof fn lemma_decimal_len(n: nat, digits: nat)
    requires
        digits >= 1,
        n < vstd::arithmetic::power::pow(10, digits),
    ensures
        1 <= decimal(n).len() <= digits,
    decreases digits,
{
    vstd::arithmetic::power::lemma_pow1(10);
    if n >= 10 {
        if digits == 1 {
            assert(false);
        }
        let less = (digits - 1) as nat;
        assert(n / 10 < vstd::arithmetic::power::pow(10, less)) by {
            reveal(vstd::arithmetic::power::pow);
            assert(vstd::arithmetic::power::pow(10, digits) == 10 * vstd::arithmetic::power::pow(
                10,
                less,
            ));
        }
        lemma_decimal_len(n / 10, less);
    }
}

/// A row of words in binary takes seventeen characters for each.
proof fn lemma_row_len(words: Seq<u16>)
    ensures
        binary_row(words).len() == 17 * words.len(),
    decreases words.len(),
{
    reveal_strlit(" ");
    if words.len() > 0 {
        lemma_row_len(words.drop_last());
    }
}

/// A sign of life fits into the sixty-four characters that are sent for it.
pub proof fn law_alive_fits(seconds: u64, irqc: u32, sw_pin: bool)
    ensures
        alive_text(seconds as nat, irqc as nat, sw_pin).len() <= 64,
{
    reveal_strlit(": irqc = ");
    reveal_strlit(", swpin = ");
    reveal_strlit("\r\n");
    assert(vstd::arithmetic::power::pow(10, 20) > u64::MAX && vstd::arithmetic::power::pow(10, 10)
        > u32::MAX && vstd::arithmetic::power::pow(10, 1) == 10) by {
        reveal_with_fuel(vstd::arithmetic::power::pow, 21);
    }
    lemma_decimal_len(seconds as nat, 20);
    lemma_decimal_len(irqc as nat, 10);
    lemma_decimal_len(
        if sw_pin {
            1
        } else {
            0
        },
        1,
    );
}

/// A report of an input that rose or fell fits into the eighty characters that are sent for it,
/// with a name of the pin of up to forty-three.
pub proof fn law_edge_fits(rising: bool, chip: u8, bit: u8, irqc: u32, pin: Seq<char>)
    requires
        chip < 8,
        bit < 16,
        pin.len() <= 43,
    ensures
        edge_text(rising, chip as nat, bit as nat, irqc as nat, pin).len() <= 80,
{
    reveal_strlit("Rising edge: c");
    reveal_strlit("Falling edge: c");
    reveal_strlit(" b");
    reveal_strlit(" c");
    reveal_strlit(" ");
    reveal_strlit("\r\n\r\n");
    assert(vstd::arithmetic::power::pow(10, 10) > u32::MAX && vstd::arithmetic::power::pow(10, 2)
        == 100 && vstd::arithmetic::power::pow(10, 1) == 10) by {
        reveal_with_fuel(vstd::arithmetic::power::pow, 11);
    }
    lemma_decimal_len(chip as nat, 1);
    lemma_decimal_len(bit as nat, 2);
    lemma_decimal_len(irqc as nat, 10);
}

/// A report of the inputs fits into the five hundred and twelve characters that are sent for it.
pub proof fn law_io_debug_fits(bits: Seq<u16>, fall: Seq<u16>, rise: Seq<u16>)
    requires
        bits.len() == 8,
        fall.len() == 8,
        rise.len() == 8,
    ensures
        io_text(bits, fall, rise).len() <= 512,
{
    reveal_strlit("bits0: ");
    reveal_strlit("\r\nfall0: ");
    reveal_strlit("\r\nrise0: ");
    reveal_strlit("\r\n\r\nbits1: ");
    reveal_strlit("\r\nfall1: ");
    reveal_strlit("\r\nrise1: ");
    reveal_strlit("\r\n\r\n");
    lemma_row_len(bits.subrange(0, 4));
    lemma_row_len(fall.subrange(0, 4));
    lemma_row_len(rise.subrange(0, 4));
    lemma_row_len(bits.subrange(4, 8));
    lemma_row_len(fall.subrange(4, 8));
    lemma_row_len(rise.subrange(4, 8));
}

/// The greeting fits into the eighty characters that are sent for it, with a version of up to
/// thirty-one.
pub proof fn law_banner_fits(version: Seq<char>)
    requires
        version.len() <= 31,
    ensures
        banner_text(version).len() <= 80,
{
    reveal_strlit("\r\n\r\n*** Starting up Suomipeli\r\n    firmware v");
    reveal_strlit("\r\n\r\n");
}

} // verus!
