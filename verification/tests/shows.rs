use rand::rngs::StdRng;
use rand::{RngCore, SeedableRng};
use suomipeli_core::lamps::PortWrite;
use suomipeli_core::pins::{Board, Contact, MyPin};
use suomipeli_core::shows::rand_blink;
use suomipeli_core::state::{OutTestState, Shared};
use suomipeli_core::tasks::{after, now, Features, Task};

fn pin(chip: u32, bit: u32) -> MyPin {
    MyPin { code: chip << 8 | bit }
}

fn table(from: u32) -> [MyPin; 24] {
    let mut pins = [pin(0, 0); 24];
    for i in 0..24 {
        pins[i as usize] = pin((from + i) / 16, (from + i) % 16);
    }
    pins
}

const UNKNOWN: MyPin = MyPin { code: 0xFFFF };

fn board() -> Board {
    let mut inputs = [[Contact { pin: UNKNOWN, socket: None }; 16]; 8];
    for chip in 0..8u32 {
        for bit in 0..16u32 {
            let line = chip * 16 + bit;
            if line < 99 {
                let socket = if line < 24 { Some(line as usize) } else { None };
                inputs[chip as usize][bit as usize] = Contact { pin: pin(chip, bit), socket };
            }
        }
    }
    inputs[7][15].pin = pin(7, 15);
    let sockets = table(0);
    let quiz = table(24);
    let map_a = table(48);
    let map_b = table(72);
    let mut map_s = map_a;
    let mut map_n = map_b;
    for i in 0..12 {
        map_s[i] = map_b[i];
        map_n[i] = map_a[i];
    }
    Board {
        unknown_pin: UNKNOWN,
        mode01: pin(7, 15),
        relay01: pin(6, 8),
        bell01: pin(6, 9),
        map01_tammisaari: map_a[0],
        map05_turku: map_a[4],
        quiz01: quiz[0],
        quiz02: quiz[1],
        quiz03: quiz[2],
        quiz04: quiz[3],
        quiz05: quiz[4],
        quiz23: quiz[22],
        quiz24: quiz[23],
        inputs,
        out_socket: sockets,
        out_quiz: quiz,
        out_map_a: map_a,
        out_map_b: map_b,
        out_map_s: map_s,
        out_map_n: map_n,
        answers_map_a: map_a.map(Some),
        answers_map_b: map_b.map(Some),
        answers_quiz: quiz.map(Some),
    }
}

fn apply(ports: &mut [u16; 8], writes: &[PortWrite]) {
    for w in writes {
        ports[w.chip as usize] = w.value;
    }
}

const ON: Features =
    Features { test_output: true, io_irq: false, io_noirq: false, io_debug: false };
const OFF: Features =
    Features { test_output: false, io_irq: false, io_noirq: false, io_debug: false };

#[test]
fn outputs_are_tested_table_by_table() {
    let b = board();
    let mut s = Shared::new([0; 8]);
    let mut ports = [0u16; 8];
    let step =
        vec![now(Task::ClickRelay01), after(900, Task::OutZero), after(1000, Task::TestOutput)];
    let wanted = [
        (OutTestState::TestMapA, [0, 0xFF00, 0xFFFF, 0, 0, 0, 0, 0]),
        (OutTestState::TestMapB, [0, 0, 0, 0xFFFF, 0x00FF, 0, 0, 0]),
        (OutTestState::TestSocket, [0, 0, 0, 0, 0xFF00, 0xFFFF, 0, 0]),
        (OutTestState::Idle, [0xFFFF, 0x00FF, 0, 0, 0, 0, 0, 0]),
    ];
    for (tstate, output) in wanted {
        let effects = s.test_output(&b, &ON);
        apply(&mut ports, &effects.writes);
        assert_eq!(effects.writes.len(), 24);
        assert_eq!(effects.spawns, step);
        assert_eq!(s.tstate, tstate);
        assert_eq!((ports, s.output), (output, output));
        apply(&mut ports, &s.out_zero());
    }
    for _ in 0..2 {
        let effects = s.test_output(&b, &ON);
        assert!(effects.writes.is_empty());
        assert_eq!(effects.spawns, vec![now(Task::TingBell01)]);
        assert_eq!(s.tstate, OutTestState::Idle);
    }
}

#[test]
fn outputs_are_not_tested() {
    let mut s = Shared::new([0; 8]);
    let effects = s.test_output(&board(), &OFF);
    assert!(effects.writes.is_empty() && effects.spawns.is_empty());
    assert_eq!(s.tstate, OutTestState::TestQuiz);
    assert_eq!(s.output, [0; 8]);
}

#[test]
fn easter_egg_lights_tables() {
    let b = board();
    let wanted = [
        (b.quiz01, [0, 0xFF00, 0xFFFF, 0, 0, 0, 0, 0]),
        (b.quiz02, [0, 0, 0, 0xFFFF, 0x00FF, 0, 0, 0]),
        (b.quiz03, [0, 0, 0, 0, 0xFF00, 0xFFFF, 0, 0]),
        (b.quiz04, [0xFFFF, 0x00FF, 0, 0, 0, 0, 0, 0]),
    ];
    for (p, output) in wanted {
        let mut s = Shared::new([0; 8]);
        let effects = s.easter_egg(&b, p);
        let mut ports = [0u16; 8];
        apply(&mut ports, &effects.writes);
        assert_eq!((ports, s.output), (output, output));
        assert!(effects.spawns.is_empty());
        assert!(!s.rand);
    }
}

#[test]
fn easter_egg_asks() {
    let b = board();
    let mut s = Shared::new([0; 8]);
    let effects = s.easter_egg(&b, b.quiz05);
    assert_eq!(effects.spawns, vec![now(Task::OutZero)]);
    assert!(effects.writes.is_empty() && !s.rand);
    let effects = s.easter_egg(&b, b.quiz23);
    assert_eq!(effects.spawns, vec![now(Task::RandOutput)]);
    assert!(effects.writes.is_empty() && s.rand);
    let effects = s.easter_egg(&b, pin(0, 0));
    assert!(effects.spawns.is_empty() && effects.writes.is_empty() && s.rand);
    let effects = s.easter_egg(&b, b.quiz24);
    assert!(effects.spawns.is_empty() && effects.writes.is_empty() && !s.rand);
}

#[test]
fn random_bytes_point_at_inputs() {
    let b = board();
    let p = pin(3, 12);
    assert_eq!(
        rand_blink(&b, &[0xFB, 0xAC], true),
        vec![
            now(Task::SetOutput(p)),
            after(500, Task::ClearOutput(p)),
            after(50, Task::RandOutput),
        ]
    );
    assert_eq!(
        rand_blink(&b, &[3, 12], false),
        vec![now(Task::SetOutput(p)), after(500, Task::ClearOutput(p))]
    );
    assert_eq!(rand_blink(&b, &[7, 0], true), vec![after(50, Task::RandOutput)]);
    assert_eq!(rand_blink(&b, &[7, 0], false), vec![]);
}

#[test]
fn random_lamps_follow_the_generator() {
    let b = board();
    let mut s = Shared::new([0; 8]);
    s.rand = true;
    let mut rng = StdRng::seed_from_u64(1234);
    for ticks in [1234, 99, 100, 101, 102, 103, 104, 105] {
        let mut r = [0u8; 2];
        rng.fill_bytes(&mut r);
        assert_eq!(s.rand_output(&b, ticks), rand_blink(&b, &r, true));
    }
    s.rand = false;
    let mut r = [0u8; 2];
    rng.fill_bytes(&mut r);
    assert_eq!(s.rand_output(&b, 0), rand_blink(&b, &r, false));
}

#[test]
fn two_bytes_take_one_word() {
    let mut bytes = StdRng::seed_from_u64(77);
    let mut words = StdRng::seed_from_u64(77);
    for _ in 0..200 {
        let mut r = [0u8; 2];
        bytes.fill_bytes(&mut r);
        let word = words.next_u32();
        assert_eq!(r, [(word % 256) as u8, (word / 256 % 256) as u8]);
    }
}
