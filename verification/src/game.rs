//! What touching a contact and letting it go do to the game.

use vstd::prelude::*;
use crate::pins::{Board, Contact, MyPin};
use crate::ports::{first_edge, first_line};
use crate::state::{EasterEggState, GameMode, Shared};
use crate::tasks::{after, now, Spawn, Task};

verus! {

/// How far the secret sequence is after a contact was touched.
pub open spec fn next_egg(board: &Board, estate: EasterEggState, pin: MyPin) -> EasterEggState {
    match estate {
        EasterEggState::Start if pin == board.map05_turku => EasterEggState::Phase1,
        EasterEggState::Phase1 if pin == board.map01_tammisaari => EasterEggState::Phase2,
        EasterEggState::Phase2 if pin == board.map05_turku => EasterEggState::Phase3,
        EasterEggState::Phase3 if pin == board.map01_tammisaari => EasterEggState::Go,
        _ => EasterEggState::Start,
    }
}

/// What the secret sequence asks for when a contact is touched.
pub open spec fn egg_spawns(estate: EasterEggState, pin: MyPin) -> Seq<Spawn> {
    if estate == EasterEggState::Go {
        seq![now(Task::EasterEgg(pin))]
    } else {
        seq![]
    }
}

/// Touching the pin means nothing to the game.
pub open spec fn ignored(board: &Board, pin: MyPin) -> bool {
    pin == board.mode01 || pin == board.unknown_pin
}

/// The contact is a socket that the game takes note of.
pub open spec fn connects(board: &Board, contact: Contact) -> bool {
    !ignored(board, contact.pin) && contact.socket is Some
}

/// The contact is the right answer to the socket that is connected.
pub open spec fn answers_right(shared: &Shared, board: &Board, contact: Contact) -> bool {
    &&& !ignored(board, contact.pin)
    &&& contact.socket is None
    &&& shared.gmode != GameMode::NoGame
    &&& shared.socket_i matches Some(i)
    &&& shared.answers[i as int] == Some(contact.pin)
}

/// A lamp that is turned over, and turned over again a moment later.
pub open spec fn blink_spawns(pin: MyPin) -> Seq<Spawn> {
    seq![now(Task::ToggleOutput(pin)), after(200, Task::ToggleOutput(pin))]
}

/// What the game asks for when a contact is touched.
pub open spec fn touch_spawns(shared: &Shared, board: &Board, contact: Contact) -> Seq<Spawn> {
    if ignored(board, contact.pin) {
        seq![]
    } else if contact.socket is Some {
        seq![now(Task::ClickRelay01)] + blink_spawns(contact.pin)
    } else if answers_right(shared, board, contact) {
        seq![
            now(Task::ClickRelay01),
            now(Task::TingBell01),
            now(Task::ClearOutput(contact.pin)),
            now(Task::ClearOutput(shared.socket->0)),
        ]
    } else {
        seq![now(Task::ClickRelay01)]
    }
}

/// A contact was touched: this is what becomes of the state and what is asked for.
pub open spec fn touched(
    before: Shared,
    after: Shared,
    board: &Board,
    contact: Contact,
    spawns: Seq<Spawn>,
) -> bool {
    &&& after.estate == next_egg(board, before.estate, contact.pin)
    &&& after.socket == if connects(board, contact) {
        Some(contact.pin)
    } else {
        before.socket
    }
    &&& after.socket_i == if connects(board, contact) {
        contact.socket
    } else {
        before.socket_i
    }
    &&& after.answers@ == if answers_right(&before, board, contact) {
        before.answers@.update(before.socket_i->0 as int, None)
    } else {
        before.answers@
    }
    &&& after == (Shared {
        estate: after.estate,
        socket: after.socket,
        socket_i: after.socket_i,
        answers: after.answers,
        ..before
    })
    &&& spawns == egg_spawns(before.estate, contact.pin) + touch_spawns(&before, board, contact)
}

/// The mode that the mode switch leads to.
pub open spec fn next_mode(gmode: GameMode) -> GameMode {
    match gmode {
        GameMode::NoGame => GameMode::MapQuiz1,
        GameMode::MapQuiz1 => GameMode::MapQuiz2,
        GameMode::MapQuiz2 => GameMode::Quiz,
        GameMode::Quiz => GameMode::MapQuiz1,
    }
}

/// The answers that a mode begins with.
pub open spec fn mode_answers(board: &Board, gmode: GameMode) -> Seq<Option<MyPin>> {
    match gmode {
        GameMode::NoGame => Seq::new(24, |i: int| None),
        GameMode::MapQuiz1 => board.answers_map_a@,
        GameMode::MapQuiz2 => board.answers_map_b@,
        GameMode::Quiz => board.answers_quiz@,
    }
}

/// What a mode begins with: all lamps go out, and half a second later it is led in.
pub open spec fn mode_spawns(gmode: GameMode) -> Seq<Spawn> {
    seq![
        now(Task::OutZero),
        after(
            500,
            match gmode {
                GameMode::MapQuiz1 => Task::GamemodeMap1,
                GameMode::MapQuiz2 => Task::GamemodeMap2,
                _ => Task::GamemodeQuiz,
            },
        ),
    ]
}

/// A contact was let go: this is what becomes of the state and what is asked for.
pub open spec fn let_go(
    before: Shared,
    after: Shared,
    board: &Board,
    contact: Contact,
    spawns: Seq<Spawn>,
) -> bool {
    let is_socket = contact.socket is Some;
    let is_mode = contact.pin == board.mode01;
    &&& after.socket == if is_socket {
        None
    } else {
        before.socket
    }
    &&& after.socket_i == if is_socket {
        None
    } else {
        before.socket_i
    }
    &&& after.gmode == if is_mode {
        next_mode(before.gmode)
    } else {
        before.gmode
    }
    &&& after.answers@ == if is_mode {
        mode_answers(board, next_mode(before.gmode))
    } else {
        before.answers@
    }
    &&& after == (Shared {
        socket: after.socket,
        socket_i: after.socket_i,
        gmode: after.gmode,
        answers: after.answers,
        ..before
    })
    &&& spawns == (if is_socket {
        blink_spawns(contact.pin)
    } else {
        seq![]
    }) + (if is_mode {
        mode_spawns(next_mode(before.gmode))
    } else {
        seq![]
    })
}

/// Whether touching a pin means nothing to the game.
fn is_ignored(board: &Board, pin: MyPin) -> (yes: bool)
    ensures
        yes == ignored(board, pin),
{
    pin == board.mode01 || pin == board.unknown_pin
}

impl Shared {
    /// Takes the secret sequence one contact further.
    fn step_egg(&mut self, board: &Board, pin: MyPin) -> (spawns: Vec<Spawn>)
        ensures
            *final(self) == (Shared {
                estate: next_egg(board, old(self).estate, pin),
                ..*old(self)
            }),
            spawns@ == egg_spawns(old(self).estate, pin),
    {
        let mut spawns: Vec<Spawn> = Vec::new();
        match self.estate {
            EasterEggState::Start => {
                if pin == board.map05_turku {
                    self.estate = EasterEggState::Phase1;
                }
            },
            EasterEggState::Phase1 => {
                if pin == board.map01_tammisaari {
                    self.estate = EasterEggState::Phase2;
                } else {
                    self.estate = EasterEggState::Start;
                }
            },
            EasterEggState::Phase2 => {
                if pin == board.map05_turku {
                    self.estate = EasterEggState::Phase3;
                } else {
                    self.estate = EasterEggState::Start;
                }
            },
            EasterEggState::Phase3 => {
                if pin == board.map01_tammisaari {
                    self.estate = EasterEggState::Go;
                } else {
                    self.estate = EasterEggState::Start;
                }
            },
            EasterEggState::Go => {
                self.estate = EasterEggState::Start;
                spawns.push(now(Task::EasterEgg(pin)));
            },
        }
        spawns
    }

    /// Plays on when a contact was touched.
    pub fn touch(&mut self, board: &Board, contact: Contact) -> (spawns: Vec<Spawn>)
        requires
            old(self).wf(),
            contact.socket is Some ==> contact.socket->0 < 24,
        ensures
            final(self).wf(),
            touched(*old(self), *final(self), board, contact, spawns@),
    {
        let pin: MyPin = contact.pin;
        let mut spawns = self.step_egg(board, pin);
        if !is_ignored(board, pin) {
            spawns.push(now(Task::ClickRelay01));
            if let Some(i) = contact.socket {
                self.socket = Some(pin);
                self.socket_i = Some(i);
                spawns.push(now(Task::ToggleOutput(pin)));
                spawns.push(after(200, Task::ToggleOutput(pin)));
            } else if let Some(i) = self.socket_i {
                let socket: MyPin = self.socket.unwrap_or(board.unknown_pin);
                match self.gmode {
                    GameMode::MapQuiz1 | GameMode::MapQuiz2 | GameMode::Quiz => {
                        if pin == self.answers[i].unwrap_or(board.unknown_pin) {
                            spawns.push(now(Task::TingBell01));
                            spawns.push(now(Task::ClearOutput(pin)));
                            spawns.push(now(Task::ClearOutput(socket)));
                            self.answers[i] = None;
                        }
                    },
                    GameMode::NoGame => {},
                }
            }
        }
        assert(spawns@ =~= egg_spawns(old(self).estate, pin) + touch_spawns(
            old(self),
            board,
            contact,
        ));
        spawns
    }

    /// Plays on when a contact was let go.
    pub fn release(&mut self, board: &Board, contact: Contact) -> (spawns: Vec<Spawn>)
        ensures
            old(self).wf() ==> final(self).wf(),
            let_go(*old(self), *final(self), board, contact, spawns@),
    {
        let mut spawns: Vec<Spawn> = Vec::new();
        if contact.socket.is_some() {
            self.socket = None;
            self.socket_i = None;
            spawns.push(now(Task::ToggleOutput(contact.pin)));
            spawns.push(after(200, Task::ToggleOutput(contact.pin)));
        }
        if contact.pin == board.mode01 {
            spawns.push(now(Task::OutZero));
            match self.gmode {
                GameMode::NoGame | GameMode::Quiz => {
                    self.gmode = GameMode::MapQuiz1;
                    self.answers = board.answers_map_a;
                    spawns.push(after(500, Task::GamemodeMap1));
                },
                GameMode::MapQuiz1 => {
                    self.gmode = GameMode::MapQuiz2;
                    self.answers = board.answers_map_b;
                    spawns.push(after(500, Task::GamemodeMap2));
                },
                GameMode::MapQuiz2 => {
                    self.gmode = GameMode::Quiz;
                    self.answers = board.answers_quiz;
                    spawns.push(after(500, Task::GamemodeQuiz));
                },
            }
        }
        assert(spawns@ =~= (if contact.socket is Some {
            blink_spawns(contact.pin)
        } else {
            seq![]
        }) + (if contact.pin == board.mode01 {
            mode_spawns(next_mode(old(self).gmode))
        } else {
            seq![]
        }));
        spawns
    }

    /// Plays on when inputs have fallen: the first of them was touched.
    pub fn input_event_fall(&mut self, board: &Board) -> (spawns: Vec<Spawn>)
        requires
            old(self).wf(),
            board.sockets_wf(),
        ensures
            final(self).wf(),
            match first_line(old(self).fall@) {
                None => *final(self) == *old(self) && spawns@.len() == 0,
                Some(at) => touched(
                    *old(self),
                    *final(self),
                    board,
                    board.contact(at.0, at.1),
                    spawns@,
                ),
            },
    {
        match first_edge(&self.fall) {
            None => Vec::new(),
            Some((chip, bit)) => {
                let contact = board.contact_at(chip, bit);
                self.touch(board, contact)
            },
        }
    }

    /// Plays on when inputs have risen: the first of them was let go.
    pub fn input_event_rise(&mut self, board: &Board) -> (spawns: Vec<Spawn>)
        ensures
            old(self).wf() ==> final(self).wf(),
            match first_line(old(self).rise@) {
                None => *final(self) == *old(self) && spawns@.len() == 0,
                Some(at) => let_go(
                    *old(self),
                    *final(self),
                    board,
                    board.contact(at.0, at.1),
                    spawns@,
                ),
            },
    {
        match first_edge(&self.rise) {
            None => Vec::new(),
            Some((chip, bit)) => {
                let contact = board.contact_at(chip, bit);
                self.release(board, contact)
            },
        }
    }
}

} // verus!
