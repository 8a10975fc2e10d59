//! What holds of touching contacts and letting them go, whatever came before.

use vstd::prelude::*;
use crate::game::{let_go, touched};
use crate::laws::{egg_after, law_egg_opens, secret};
use crate::pins::{Board, Contact, MyPin};
use crate::play::{at, level_at, line_after};
use crate::state::{fresh, EasterEggState, GameMode, OutTestState, Shared};
use crate::tasks::{after, now, Spawn, Task};

verus! {

/// The mode switch, or an input that is connected to nothing.
pub open spec fn mute(board: &Board, contact: Contact) -> bool {
    contact.pin.code == board.mode01.code || contact.pin.code == board.unknown_pin.code
}

/// A game is on, a socket is connected, and the contact is what is still wanted for it.
pub open spec fn finds(shared: Shared, board: &Board, contact: Contact) -> bool {
    match (shared.gmode, shared.socket_i, contact.socket) {
        (GameMode::NoGame, _, _) => false,
        (_, Some(i), None) => !mute(board, contact) && shared.answers[i as int] == Some(
            contact.pin,
        ),
        _ => false,
    }
}

/// One task more.
pub proof fn lemma_level_push(
    board: &Board,
    level: bool,
    spawns: Seq<Spawn>,
    spawn: Spawn,
    ms: int,
    chip: int,
    bit: int,
)
    ensures
        level_at(board, level, spawns.push(spawn), ms, chip, bit) == if spawn.delay_ms <= ms {
            line_after(
                board,
                level_at(board, level, spawns, ms, chip, bit),
                spawn.task,
                chip,
                bit,
            )
        } else {
            level_at(board, level, spawns, ms, chip, bit)
        },
{
    assert(spawns.push(spawn).drop_last() =~= spawns);
}

/// Up to five tasks, one after the other.
proof fn lemma_level_few(
    board: &Board,
    level: bool,
    spawns: Seq<Spawn>,
    ms: int,
    chip: int,
    bit: int,
)
    requires
        spawns.len() <= 5,
    ensures
        ({
            let l0 = level;
            let l1 = few_step(board, l0, spawns, 0, ms, chip, bit);
            let l2 = few_step(board, l1, spawns, 1, ms, chip, bit);
            let l3 = few_step(board, l2, spawns, 2, ms, chip, bit);
            let l4 = few_step(board, l3, spawns, 3, ms, chip, bit);
            level_at(board, level, spawns, ms, chip, bit) == few_step(
                board,
                l4,
                spawns,
                4,
                ms,
                chip,
                bit,
            )
        }),
{
    lemma_level_take(board, level, spawns, 0, ms, chip, bit);
    lemma_level_take(board, level, spawns, 1, ms, chip, bit);
    lemma_level_take(board, level, spawns, 2, ms, chip, bit);
    lemma_level_take(board, level, spawns, 3, ms, chip, bit);
    lemma_level_take(board, level, spawns, 4, ms, chip, bit);
    assert(spawns.take(spawns.len() as int) =~= spawns);
    assert(spawns.take(0).len() == 0);
}

/// The level after the task in a place, or the same level where there is none.
pub open spec fn few_step(
    board: &Board,
    level: bool,
    spawns: Seq<Spawn>,
    n: int,
    ms: int,
    chip: int,
    bit: int,
) -> bool {
    if n < spawns.len() && spawns[n].delay_ms <= ms {
        line_after(board, level, spawns[n].task, chip, bit)
    } else {
        level
    }
}

/// One place further in a list of tasks.
pub proof fn lemma_level_take(
    board: &Board,
    level: bool,
    spawns: Seq<Spawn>,
    n: int,
    ms: int,
    chip: int,
    bit: int,
)
    requires
        n >= 0,
    ensures
        n < spawns.len() ==> level_at(board, level, spawns.take(n + 1), ms, chip, bit) == few_step(
            board,
            level_at(board, level, spawns.take(n), ms, chip, bit),
            spawns,
            n,
            ms,
            chip,
            bit,
        ),
{
    if n < spawns.len() {
        assert(spawns.take(n + 1) =~= spawns.take(n).push(spawns[n]));
        lemma_level_push(board, level, spawns.take(n), spawns[n], ms, chip, bit);
    }
}

/// Touching moves the secret sequence by the pin alone, in every game mode: each step is reached
/// from the one before it by its own contact and in no other way, and whatever is touched when the
/// sequence is complete asks for the easter egg.
pub proof fn law_touch_egg(
    before: Shared,
    after: Shared,
    board: &Board,
    contact: Contact,
    spawns: Seq<Spawn>,
)
    requires
        touched(before, after, board, contact, spawns),
    ensures
        after.estate == EasterEggState::Phase1 <==> before.estate == EasterEggState::Start
            && contact.pin.code == board.map05_turku.code,
        after.estate == EasterEggState::Phase2 <==> before.estate == EasterEggState::Phase1
            && contact.pin.code == board.map01_tammisaari.code,
        after.estate == EasterEggState::Phase3 <==> before.estate == EasterEggState::Phase2
            && contact.pin.code == board.map05_turku.code,
        after.estate == EasterEggState::Go <==> before.estate == EasterEggState::Phase3
            && contact.pin.code == board.map01_tammisaari.code,
        forall|p: MyPin| #[trigger]
            spawns.contains(now(Task::EasterEgg(p))) <==> before.estate == EasterEggState::Go && p
                == contact.pin,
{
    if before.estate == EasterEggState::Go {
        assert(spawns[0] == now(Task::EasterEgg(contact.pin)));
    }
}

/// The connected socket is the one touched last: touching a socket connects it, touching anything
/// else leaves it.
pub proof fn law_touch_socket(
    before: Shared,
    after: Shared,
    board: &Board,
    contact: Contact,
    spawns: Seq<Spawn>,
)
    requires
        touched(before, after, board, contact, spawns),
    ensures
        !mute(board, contact) && contact.socket is Some ==> after.socket == Some(contact.pin)
            && after.socket_i == contact.socket,
        mute(board, contact) || contact.socket is None ==> after.socket == before.socket
            && after.socket_i == before.socket_i,
{
}

/// A touch strikes the answer that it finds, of the connected socket, and no other.
pub proof fn law_touch_answers(
    before: Shared,
    after: Shared,
    board: &Board,
    contact: Contact,
    spawns: Seq<Spawn>,
    i: usize,
)
    requires
        before.wf(),
        touched(before, after, board, contact, spawns),
        i < 24,
    ensures
        finds(before, board, contact) && before.socket_i == Some(i) ==> after.answers[i as int] is None,
        !(finds(before, board, contact) && before.socket_i == Some(i)) ==> after.answers[i as int]
            == before.answers[i as int],
{
}

/// A touch leaves the led, the inputs, the output, the test, the mode and the random lamps alone.
pub proof fn law_touch_leaves(
    before: Shared,
    after: Shared,
    board: &Board,
    contact: Contact,
    spawns: Seq<Spawn>,
)
    requires
        touched(before, after, board, contact, spawns),
    ensures
        after.led_on == before.led_on,
        after.bits == before.bits,
        after.rise == before.rise,
        after.fall == before.fall,
        after.output == before.output,
        after.tstate == before.tstate,
        after.gmode == before.gmode,
        after.rand == before.rand,
        after.rng == before.rng,
{
}

/// What the lamps show after a touch, at every moment, relay and bell aside: a socket is turned
/// over for a fifth of a second; a found answer and its socket are out at once and stay out; every
/// other lamp, and every lamp at any other touch, stays as it was.
pub proof fn law_touch_lamps(
    before: Shared,
    after: Shared,
    board: &Board,
    contact: Contact,
    spawns: Seq<Spawn>,
    level: bool,
    ms: int,
    chip: int,
    bit: int,
)
    requires
        before.wf(),
        touched(before, after, board, contact, spawns),
        ms >= 0,
        !at(board.relay01, chip, bit),
        !at(board.bell01, chip, bit),
    ensures
        mute(board, contact) ==> level_at(board, level, spawns, ms, chip, bit) == level,
        !mute(board, contact) && contact.socket is Some ==> level_at(
            board,
            level,
            spawns,
            ms,
            chip,
            bit,
        ) == (level != (at(contact.pin, chip, bit) && ms < 200)),
        finds(before, board, contact) ==> level_at(board, level, spawns, ms, chip, bit) == (level
            && !at(contact.pin, chip, bit) && !at(before.socket->0, chip, bit)),
        !mute(board, contact) && contact.socket is None && !finds(before, board, contact)
            ==> level_at(board, level, spawns, ms, chip, bit) == level,
{
    lemma_level_few(board, level, spawns, ms, chip, bit);
}

/// What a touch asks for, besides the easter egg: nothing for the mode switch and for inputs that
/// are connected to nothing; else one click, at once; the bell, once and at once, exactly where an
/// answer is found; two turns of the lamp exactly for a socket; and putting lamps out only for a
/// found answer and its socket. The easter egg comes first, then the click, then the bell, and the
/// lamps last.
pub proof fn law_touch_asks(
    before: Shared,
    after: Shared,
    board: &Board,
    contact: Contact,
    spawns: Seq<Spawn>,
)
    requires
        before.wf(),
        touched(before, after, board, contact, spawns),
    ensures
        spawns.len() == (if before.estate == EasterEggState::Go {
            1int
        } else {
            0
        }) + (if mute(board, contact) {
            0int
        } else if contact.socket is Some {
            3
        } else if finds(before, board, contact) {
            4
        } else {
            1
        }),
        spawns.contains(now(Task::ClickRelay01)) <==> !mute(board, contact),
        spawns.contains(now(Task::TingBell01)) <==> finds(before, board, contact),
        finds(before, board, contact) ==> {
            &&& spawns.contains(now(Task::ClearOutput(contact.pin)))
            &&& spawns.contains(now(Task::ClearOutput(before.socket->0)))
        },
        !mute(board, contact) && contact.socket is Some ==> {
            &&& spawns.contains(now(Task::ToggleOutput(contact.pin)))
            &&& spawns.contains(after_ms(200, Task::ToggleOutput(contact.pin)))
        },
        forall|k: int|
            0 <= k < spawns.len() ==> match (#[trigger] spawns[k]).task {
                Task::EasterEgg(p) => before.estate == EasterEggState::Go && p == contact.pin
                    && spawns[k].delay_ms == 0,
                Task::ClickRelay01 => spawns[k].delay_ms == 0,
                Task::TingBell01 => spawns[k].delay_ms == 0,
                Task::ClearOutput(p) => finds(before, board, contact) && spawns[k].delay_ms == 0
                    && (p == contact.pin || p == before.socket->0),
                Task::ToggleOutput(p) => contact.socket is Some && p == contact.pin,
                _ => false,
            },
        forall|j: int, k: int|
            0 <= j < k < spawns.len() && (#[trigger] spawns[j]).task == Task::ClickRelay01 ==> (
            #[trigger] spawns[k]).task != Task::ClickRelay01,
        forall|j: int, k: int|
            0 <= j < k < spawns.len() && (#[trigger] spawns[j]).task == Task::TingBell01 ==> (
            #[trigger] spawns[k]).task != Task::TingBell01,
        before.estate == EasterEggState::Go ==> spawns[0].task == Task::EasterEgg(contact.pin),
        forall|j: int, k: int|
            0 <= j < k < spawns.len() ==> touch_rank((#[trigger] spawns[j]).task) <= touch_rank(
                (#[trigger] spawns[k]).task,
            ) && spawns[j].delay_ms <= spawns[k].delay_ms,
        finds(before, board, contact) ==> spawns[spawns.len() - 1].task == Task::ClearOutput(
            before.socket->0,
        ),
{
    let e: int = if before.estate == EasterEggState::Go {
        1
    } else {
        0
    };
    if !mute(board, contact) {
        assert(spawns[e] == now(Task::ClickRelay01));
        if contact.socket is Some {
            assert(spawns[e + 1] == now(Task::ToggleOutput(contact.pin)));
            assert(spawns[e + 2] == after_ms(200, Task::ToggleOutput(contact.pin)));
        } else if finds(before, board, contact) {
            assert(spawns[e + 1] == now(Task::TingBell01));
            assert(spawns[e + 2] == now(Task::ClearOutput(contact.pin)));
            assert(spawns[e + 3] == now(Task::ClearOutput(before.socket->0)));
        }
    }
}

/// The place of a task among those that a touch asks for.
pub open spec fn touch_rank(task: Task) -> int {
    match task {
        Task::EasterEgg(_) => 0,
        Task::ClickRelay01 => 1,
        Task::TingBell01 => 2,
        _ => 3,
    }
}

/// A task after a delay.
pub open spec fn after_ms(ms: u64, task: Task) -> Spawn {
    Spawn { task, delay_ms: ms }
}

/// Letting a socket go disconnects whatever socket was connected; letting anything else go leaves
/// the connected socket and its number as they were.
pub proof fn law_let_go_socket(
    before: Shared,
    after: Shared,
    board: &Board,
    contact: Contact,
    spawns: Seq<Spawn>,
)
    requires
        let_go(before, after, board, contact, spawns),
    ensures
        contact.socket is Some ==> after.socket is None && after.socket_i is None,
        contact.socket is None ==> after.socket == before.socket && after.socket_i
            == before.socket_i,
{
}

/// Letting the mode switch go, and nothing else, leads from no game to the first map, from there
/// to the second, from there to the quiz, and from there to the first map, each with all of its
/// answers still to be found.
pub proof fn law_let_go_mode(
    before: Shared,
    after: Shared,
    board: &Board,
    contact: Contact,
    spawns: Seq<Spawn>,
)
    requires
        let_go(before, after, board, contact, spawns),
    ensures
        contact.pin.code != board.mode01.code ==> after.gmode == before.gmode && after.answers@
            == before.answers@,
        contact.pin.code == board.mode01.code && (before.gmode == GameMode::NoGame || before.gmode
            == GameMode::Quiz) ==> after.gmode == GameMode::MapQuiz1 && after.answers@
            == board.answers_map_a@,
        contact.pin.code == board.mode01.code && before.gmode == GameMode::MapQuiz1 ==> after.gmode
            == GameMode::MapQuiz2 && after.answers@ == board.answers_map_b@,
        contact.pin.code == board.mode01.code && before.gmode == GameMode::MapQuiz2 ==> after.gmode
            == GameMode::Quiz && after.answers@ == board.answers_quiz@,
{
}

/// Letting go leaves the secret sequence, the led, the inputs, the output, the test and the random
/// lamps alone.
pub proof fn law_let_go_leaves(
    before: Shared,
    after: Shared,
    board: &Board,
    contact: Contact,
    spawns: Seq<Spawn>,
)
    requires
        let_go(before, after, board, contact, spawns),
    ensures
        after.estate == before.estate,
        after.led_on == before.led_on,
        after.bits == before.bits,
        after.rise == before.rise,
        after.fall == before.fall,
        after.output == before.output,
        after.tstate == before.tstate,
        after.rand == before.rand,
        after.rng == before.rng,
{
}

/// What the lamps show after a contact was let go, at every moment: a socket is turned over for a
/// fifth of a second; the mode switch puts all lamps out until the game is led in half a second
/// later; nothing else changes a lamp.
pub proof fn law_let_go_lamps(
    before: Shared,
    after: Shared,
    board: &Board,
    contact: Contact,
    spawns: Seq<Spawn>,
    level: bool,
    ms: int,
    chip: int,
    bit: int,
)
    requires
        let_go(before, after, board, contact, spawns),
        ms >= 0,
    ensures
        contact.pin.code != board.mode01.code ==> level_at(board, level, spawns, ms, chip, bit) == (
        level != (contact.socket is Some && at(contact.pin, chip, bit) && ms < 200)),
        contact.pin.code == board.mode01.code && contact.socket is None ==> !level_at(
            board,
            level,
            spawns,
            ms,
            chip,
            bit,
        ),
{
    lemma_level_few(board, level, spawns, ms, chip, bit);
}

/// What letting go asks for: two turns of the lamp exactly for a socket; all lamps out, and the
/// lead-in of the mode that is then on half a second later, exactly for the mode switch; nothing
/// else. The socket comes before the mode.
pub proof fn law_let_go_asks(
    before: Shared,
    after: Shared,
    board: &Board,
    contact: Contact,
    spawns: Seq<Spawn>,
)
    requires
        let_go(before, after, board, contact, spawns),
    ensures
        spawns.len() == (if contact.socket is Some {
            2int
        } else {
            0
        }) + (if contact.pin.code == board.mode01.code {
            2int
        } else {
            0
        }),
        contact.socket is Some ==> {
            &&& spawns.contains(now(Task::ToggleOutput(contact.pin)))
            &&& spawns.contains(after_ms(200, Task::ToggleOutput(contact.pin)))
        },
        contact.pin.code == board.mode01.code ==> {
            &&& spawns.contains(now(Task::OutZero))
            &&& after.gmode == GameMode::MapQuiz1 ==> spawns.contains(
                after_ms(500, Task::GamemodeMap1),
            )
            &&& after.gmode == GameMode::MapQuiz2 ==> spawns.contains(
                after_ms(500, Task::GamemodeMap2),
            )
            &&& after.gmode == GameMode::Quiz ==> spawns.contains(after_ms(500, Task::GamemodeQuiz))
            &&& after.gmode != GameMode::NoGame
        },
        contact.socket is Some ==> spawns[0] == now(Task::ToggleOutput(contact.pin)) && spawns[1]
            == after_ms(200, Task::ToggleOutput(contact.pin)),
{
    let e: int = if contact.socket is Some {
        2
    } else {
        0
    };
    if contact.socket is Some {
        assert(spawns[0] == now(Task::ToggleOutput(contact.pin)));
        assert(spawns[1] == after_ms(200, Task::ToggleOutput(contact.pin)));
    }
    if contact.pin == board.mode01 {
        assert(spawns[e] == now(Task::OutZero));
        assert(spawns[e + 1].delay_ms == 500);
        assert(spawns.contains(spawns[e + 1]));
    }
}

/// Something that happens to a contact.
pub enum Event {
    Touch(Contact),
    LetGo(Contact),
}

/// The contact that an event happens to.
pub open spec fn contact_of(event: Event) -> Contact {
    match event {
        Event::Touch(contact) => contact,
        Event::LetGo(contact) => contact,
    }
}

/// One event led from one state to the next.
pub open spec fn stepped(
    before: Shared,
    after: Shared,
    board: &Board,
    event: Event,
    spawns: Seq<Spawn>,
) -> bool {
    match event {
        Event::Touch(contact) => touched(before, after, board, contact, spawns),
        Event::LetGo(contact) => let_go(before, after, board, contact, spawns),
    }
}

/// Events led from each state to the next, and these are the tasks that they asked for.
pub open spec fn history(
    board: &Board,
    states: Seq<Shared>,
    events: Seq<Event>,
    asked: Seq<Seq<Spawn>>,
) -> bool {
    &&& states.len() == events.len() + 1
    &&& asked.len() == events.len()
    &&& forall|k: int|
        0 <= k < events.len() ==> stepped(
            states[k],
            states[k + 1],
            board,
            #[trigger] events[k],
            asked[k],
        )
}

/// A connected socket stays the one that is asked for while contacts that are no sockets are
/// touched and let go, however many and in whatever order.
pub proof fn law_socket_stays(
    board: &Board,
    states: Seq<Shared>,
    events: Seq<Event>,
    asked: Seq<Seq<Spawn>>,
    n: int,
)
    requires
        history(board, states, events, asked),
        0 <= n <= events.len(),
        forall|k: int| 0 <= k < n ==> contact_of(#[trigger] events[k]).socket is None,
    ensures
        states[n].socket == states[0].socket,
        states[n].socket_i == states[0].socket_i,
    decreases n,
{
    if n > 0 {
        law_socket_stays(board, states, events, asked, n - 1);
        let event = events[n - 1];
        match event {
            Event::Touch(contact) => {
                law_touch_socket(states[n - 1], states[n], board, contact, asked[n - 1]);
            },
            Event::LetGo(contact) => {
                law_let_go_socket(states[n - 1], states[n], board, contact, asked[n - 1]);
            },
        }
    }
}

/// After a socket was connected, its right answer rings the bell and is struck whenever it is
/// touched: whatever contacts that are neither sockets nor the answer were touched and let go
/// meanwhile, as long as the mode switch was not let go.
pub proof fn law_answer_any_time(
    board: &Board,
    states: Seq<Shared>,
    events: Seq<Event>,
    asked: Seq<Seq<Spawn>>,
    n: int,
    i: usize,
    answer: Contact,
)
    requires
        history(board, states, events, asked),
        0 <= n < events.len(),
        i < 24,
        states[0].wf(),
        states[0].socket_i == Some(i),
        states[0].gmode != GameMode::NoGame,
        states[0].answers[i as int] == Some(answer.pin),
        answer.socket is None,
        !mute(board, answer),
        forall|k: int| 0 <= k < n ==> contact_of(#[trigger] events[k]).socket is None,
        forall|k: int|
            0 <= k < n ==> match #[trigger] events[k] {
                Event::Touch(contact) => contact.pin != answer.pin,
                Event::LetGo(contact) => contact.pin.code != board.mode01.code,
            },
        events[n] == Event::Touch(answer),
    ensures
        asked[n].contains(now(Task::TingBell01)),
        asked[n].contains(now(Task::ClearOutput(answer.pin))),
        asked[n].contains(now(Task::ClearOutput(states[0].socket->0))),
        states[n + 1].answers[i as int] is None,
{
    lemma_answer_kept(board, states, events, asked, n, i, answer);
    law_touch_asks(states[n], states[n + 1], board, answer, asked[n]);
    law_touch_answers(states[n], states[n + 1], board, answer, asked[n], i);
}

/// Until its answer is touched, a connected socket keeps it.
proof fn lemma_answer_kept(
    board: &Board,
    states: Seq<Shared>,
    events: Seq<Event>,
    asked: Seq<Seq<Spawn>>,
    n: int,
    i: usize,
    answer: Contact,
)
    requires
        history(board, states, events, asked),
        0 <= n <= events.len(),
        i < 24,
        states[0].wf(),
        states[0].socket_i == Some(i),
        states[0].gmode != GameMode::NoGame,
        states[0].answers[i as int] == Some(answer.pin),
        forall|k: int| 0 <= k < n ==> contact_of(#[trigger] events[k]).socket is None,
        forall|k: int|
            0 <= k < n ==> match #[trigger] events[k] {
                Event::Touch(contact) => contact.pin != answer.pin,
                Event::LetGo(contact) => contact.pin.code != board.mode01.code,
            },
    ensures
        states[n].wf(),
        states[n].socket == states[0].socket,
        states[n].socket_i == Some(i),
        states[n].gmode == states[0].gmode,
        states[n].answers[i as int] == Some(answer.pin),
    decreases n,
{
    if n > 0 {
        lemma_answer_kept(board, states, events, asked, n - 1, i, answer);
        law_socket_stays(board, states, events, asked, n);
        let (a, b) = (states[n - 1], states[n]);
        match events[n - 1] {
            Event::Touch(contact) => {
                law_touch_answers(a, b, board, contact, asked[n - 1], i);
                law_touch_leaves(a, b, board, contact, asked[n - 1]);
            },
            Event::LetGo(contact) => {
                law_let_go_mode(a, b, board, contact, asked[n - 1]);
                assert(b.answers@[i as int] == a.answers@[i as int]);
            },
        }
    }
}

/// The pins that were touched, in their order.
pub open spec fn touched_pins(events: Seq<Event>) -> Seq<MyPin>
    decreases events.len(),
{
    if events.len() == 0 {
        seq![]
    } else {
        match events.last() {
            Event::Touch(contact) => touched_pins(events.drop_last()).push(contact.pin),
            Event::LetGo(contact) => touched_pins(events.drop_last()),
        }
    }
}

/// The progress of the secret sequence is that of the pins touched, whatever was let go between and
/// whatever the game mode was.
pub proof fn law_egg_by_pins(
    board: &Board,
    states: Seq<Shared>,
    events: Seq<Event>,
    asked: Seq<Seq<Spawn>>,
    n: int,
)
    requires
        history(board, states, events, asked),
        0 <= n <= events.len(),
    ensures
        states[n].estate == egg_after(board, states[0].estate, touched_pins(events.take(n))),
    decreases n,
{
    if n > 0 {
        law_egg_by_pins(board, states, events, asked, n - 1);
        let e = events.take(n);
        assert(e.drop_last() =~= events.take(n - 1));
        assert(e.last() == events[n - 1]);
        let pins = touched_pins(e.drop_last());
        match events[n - 1] {
            Event::Touch(contact) => {
                assert(pins.push(contact.pin).drop_last() =~= pins);
                law_touch_egg(states[n - 1], states[n], board, contact, asked[n - 1]);
            },
            Event::LetGo(contact) => {
                law_let_go_leaves(states[n - 1], states[n], board, contact, asked[n - 1]);
            },
        }
    }
}

/// In every game mode, when nothing but Turku, Tammisaari, Turku and Tammisaari was touched since
/// the sequence stood at its start, whatever is touched next asks for the easter egg for itself and
/// puts the sequence back to its start.
pub proof fn law_egg_any_mode(
    board: &Board,
    states: Seq<Shared>,
    events: Seq<Event>,
    asked: Seq<Seq<Spawn>>,
    n: int,
    fifth: Contact,
)
    requires
        history(board, states, events, asked),
        0 <= n < events.len(),
        states[0].estate == EasterEggState::Start,
        touched_pins(events.take(n)) == seq![
            board.map05_turku,
            board.map01_tammisaari,
            board.map05_turku,
            board.map01_tammisaari,
        ],
        events[n] == Event::Touch(fifth),
    ensures
        asked[n].contains(now(Task::EasterEgg(fifth.pin))),
        states[n + 1].estate == EasterEggState::Start,
{
    law_egg_by_pins(board, states, events, asked, n);
    law_egg_opens(board, fifth.pin);
    assert(touched_pins(events.take(n)) == secret(board));
    law_touch_egg(states[n], states[n + 1], board, fifth, asked[n]);
}

/// The start of the game: all lamps are out, no touch finds an answer or asks for the easter egg,
/// the output test begins with the quiz, and the mode switch leads to the first map.
pub proof fn law_start(
    start: Shared,
    bits: [u16; 8],
    next: Shared,
    board: &Board,
    contact: Contact,
    spawns: Seq<Spawn>,
    chip: int,
    bit: int,
)
    requires
        fresh(start, bits),
        0 <= chip < 8,
        0 <= bit < 16,
        stepped(start, next, board, Event::Touch(contact), spawns) || stepped(
            start,
            next,
            board,
            Event::LetGo(contact),
            spawns,
        ),
    ensures
        start.bits == bits,
        !crate::ports::line(start.output@, chip, bit),
        !crate::ports::line(start.rise@, chip, bit),
        !crate::ports::line(start.fall@, chip, bit),
        !spawns.contains(now(Task::TingBell01)),
        forall|p: MyPin| !#[trigger] spawns.contains(now(Task::EasterEgg(p))),
        next.gmode == GameMode::NoGame || next.gmode == GameMode::MapQuiz1 && contact.pin
            == board.mode01,
        start.tstate == OutTestState::TestQuiz,
        start.socket is None && start.socket_i is None,
        forall|i: int| 0 <= i < 24 ==> #[trigger] start.answers[i] is None,
        !start.led_on && !start.rand && start.rng is None,
{
    crate::ports::lemma_zero_low(bit);
    assert(start.output@[chip] == 0 && start.rise@[chip] == 0 && start.fall@[chip] == 0);
}

} // verus!
