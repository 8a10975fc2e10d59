use suomipeli_core::lamps::PortWrite;
use suomipeli_core::pins::{is_all_drivable, Board, Contact, MyPin};
use suomipeli_core::state::{EasterEggState, GameMode, OutTestState, Shared};
use suomipeli_core::tables::{click_relay01, ting_bell01};
use suomipeli_core::tasks::{
    after, alive, enable_io_irq, gamemode_map1, gamemode_map2, gamemode_quiz, io_irq, io_noirq,
    map_all_off, map_all_on, now, startup_spawns, Features, Spawn, Task,
};

fn pin(chip: u32, bit: u32) -> MyPin {
    MyPin { code: chip << 8 | bit }
}

fn table(from: u32) -> [MyPin; 24] {
    let mut pins = [pin(0, 0); 24];
    for i in 0..24 {
        pins[i as usize] = pin((from + i) / 16, (from + i) % 16);
    }
    pins
}

const UNKNOWN: MyPin = MyPin { code: 0xFFFF };

fn board() -> Board {
    let mut inputs = [[Contact { pin: UNKNOWN, socket: None }; 16]; 8];
    for chip in 0..8u32 {
        for bit in 0..16u32 {
            let line = chip * 16 + bit;
            if line < 99 {
                let socket = if line < 24 { Some(line as usize) } else { None };
                inputs[chip as usize][bit as usize] = Contact { pin: pin(chip, bit), socket };
            }
        }
    }
    inputs[7][15].pin = pin(7, 15);
    let sockets = table(0);
    let quiz = table(24);
    let map_a = table(48);
    let map_b = table(72);
    let mut map_s = map_a;
    let mut map_n = map_b;
    for i in 0..12 {
        map_s[i] = map_b[i];
        map_n[i] = map_a[i];
    }
    Board {
        unknown_pin: UNKNOWN,
        mode01: pin(7, 15),
        relay01: pin(6, 8),
        bell01: pin(6, 9),
        map01_tammisaari: map_a[0],
        map05_turku: map_a[4],
        quiz01: quiz[0],
        quiz02: quiz[1],
        quiz03: quiz[2],
        quiz04: quiz[3],
        quiz05: quiz[4],
        quiz23: quiz[22],
        quiz24: quiz[23],
        inputs,
        out_socket: sockets,
        out_quiz: quiz,
        out_map_a: map_a,
        out_map_b: map_b,
        out_map_s: map_s,
        out_map_n: map_n,
        answers_map_a: map_a.map(Some),
        answers_map_b: map_b.map(Some),
        answers_quiz: quiz.map(Some),
    }
}

fn apply(ports: &mut [u16; 8], writes: &[PortWrite]) {
    for w in writes {
        ports[w.chip as usize] = w.value;
    }
}

fn contact(p: MyPin) -> Contact {
    board().inputs[p.chip()][p.bit() as usize]
}

fn fall(s: &mut Shared, p: MyPin) -> Vec<Spawn> {
    s.fall = [0; 8];
    s.fall[p.chip()] = 1 << p.bit();
    s.input_event_fall(&board())
}

fn rise(s: &mut Shared, p: MyPin) -> Vec<Spawn> {
    s.rise = [0; 8];
    s.rise[p.chip()] = 1 << p.bit();
    s.input_event_rise(&board())
}

#[test]
fn start() {
    let s = Shared::new([0xA5A5; 8]);
    assert_eq!(s.bits, [0xA5A5; 8]);
    assert_eq!((s.rise, s.fall, s.output), ([0; 8], [0; 8], [0; 8]));
    assert_eq!(s.tstate, OutTestState::TestQuiz);
    assert_eq!(s.estate, EasterEggState::Start);
    assert_eq!(s.gmode, GameMode::NoGame);
    assert_eq!((s.socket, s.socket_i), (None, None));
    assert_eq!(s.answers, [None; 24]);
    assert!(!s.rand && s.rng.is_none() && !s.led_on);
}

#[test]
fn start_tasks() {
    let all = Features { test_output: true, io_irq: true, io_noirq: true, io_debug: true };
    assert_eq!(
        startup_spawns(&all),
        vec![
            after(1000, Task::TestOutput),
            after(10_000, Task::EnableIoIrq),
            after(10_000, Task::IoNoirq),
            now(Task::LedBlink),
            now(Task::Alive),
        ]
    );
    let none = Features { test_output: false, io_irq: false, io_noirq: false, io_debug: false };
    assert_eq!(startup_spawns(&none), vec![now(Task::LedBlink), now(Task::Alive)]);
}

#[test]
fn board_is_checked() {
    let mut b = board();
    assert!(b.is_sockets_wf());
    b.inputs[5][5].socket = Some(24);
    assert!(!b.is_sockets_wf());
    assert!(is_all_drivable(&b.out_map_n));
    b.out_map_n[23] = UNKNOWN;
    assert!(!is_all_drivable(&b.out_map_n));
    assert_eq!(board().contact_at(1, 7), Contact { pin: pin(1, 7), socket: Some(23) });
    assert_eq!(board().contact_at(1, 8), Contact { pin: pin(1, 8), socket: None });
}

#[test]
fn led_turns_over() {
    let mut s = Shared::new([0; 8]);
    assert_eq!(s.led_blink(), (false, vec![after(1000, Task::LedBlink)]));
    assert!(s.led_on);
    assert_eq!(s.led_blink().0, true);
    assert_eq!(s.led_blink().0, false);
}

#[test]
fn interrupts() {
    let mut irqc = 41;
    assert_eq!(io_irq(&mut irqc), vec![after(200, Task::EnableIoIrq), now(Task::IoPoll)]);
    assert_eq!(irqc, 42);
    assert_eq!(enable_io_irq(), vec![now(Task::IoPoll)]);
    assert_eq!(io_noirq(), vec![now(Task::IoPoll), after(100, Task::IoNoirq)]);
    assert_eq!(alive(), vec![after(5000, Task::Alive)]);
}

#[test]
fn no_edge_no_event() {
    let mut s = Shared::new([0; 8]);
    assert_eq!(s.input_event_fall(&board()), vec![]);
    assert_eq!(s.input_event_rise(&board()), vec![]);
}

#[test]
fn mode_switch_goes_round() {
    let b = board();
    let mut s = Shared::new([0; 8]);
    let wanted = [
        (GameMode::MapQuiz1, b.answers_map_a, Task::GamemodeMap1),
        (GameMode::MapQuiz2, b.answers_map_b, Task::GamemodeMap2),
        (GameMode::Quiz, b.answers_quiz, Task::GamemodeQuiz),
        (GameMode::MapQuiz1, b.answers_map_a, Task::GamemodeMap1),
    ];
    for (mode, answers, task) in wanted {
        // pressing the switch does nothing, letting it go does
        assert_eq!(fall(&mut s, b.mode01), vec![]);
        assert_eq!(rise(&mut s, b.mode01), vec![now(Task::OutZero), after(500, task)]);
        assert_eq!(s.gmode, mode);
        assert_eq!(s.answers, answers);
    }
}

#[test]
fn socket_blinks() {
    let mut s = Shared::new([0; 8]);
    let p = pin(0, 5);
    let blink = vec![now(Task::ToggleOutput(p)), after(200, Task::ToggleOutput(p))];
    let mut wanted = vec![now(Task::ClickRelay01)];
    wanted.extend(blink.clone());
    assert_eq!(fall(&mut s, p), wanted);
    assert_eq!((s.socket, s.socket_i), (Some(p), Some(5)));
    assert_eq!(rise(&mut s, p), blink);
    assert_eq!((s.socket, s.socket_i), (None, None));
}

#[test]
fn right_answer_counts_once() {
    let b = board();
    let mut s = Shared::new([0; 8]);
    rise(&mut s, b.mode01);
    let socket = pin(0, 7);
    let answer = b.out_map_a[7];
    fall(&mut s, socket);
    assert_eq!(
        fall(&mut s, answer),
        vec![
            now(Task::ClickRelay01),
            now(Task::TingBell01),
            now(Task::ClearOutput(answer)),
            now(Task::ClearOutput(socket)),
        ]
    );
    assert_eq!(s.answers[7], None);
    assert_eq!(s.answers[6], Some(b.out_map_a[6]));
    assert_eq!(fall(&mut s, answer), vec![now(Task::ClickRelay01)]);
}

#[test]
fn wrong_answer_only_clicks() {
    let b = board();
    let mut s = Shared::new([0; 8]);
    // no game, though the socket is connected
    fall(&mut s, pin(0, 7));
    assert_eq!(fall(&mut s, b.out_map_a[7]), vec![now(Task::ClickRelay01)]);
    rise(&mut s, b.mode01);
    assert_eq!(fall(&mut s, b.out_map_a[8]), vec![now(Task::ClickRelay01)]);
    assert_eq!(s.answers, b.answers_map_a);
    // no socket
    rise(&mut s, pin(0, 7));
    assert_eq!(fall(&mut s, b.out_map_a[7]), vec![now(Task::ClickRelay01)]);
    assert_eq!(s.answers, b.answers_map_a);
    // nothing is connected to this input
    assert_eq!(contact(pin(7, 0)).pin, UNKNOWN);
    assert_eq!(fall(&mut s, pin(7, 0)), vec![]);
}

#[test]
fn first_fallen_line_counts() {
    let mut s = Shared::new([0; 8]);
    s.fall = [0, 0x0002, 0, 0x0001, 0, 0, 0, 0];
    s.input_event_fall(&board());
    assert_eq!((s.socket, s.socket_i), (Some(pin(1, 1)), Some(17)));
}

#[test]
fn easter_egg_opens() {
    let b = board();
    let (t, m) = (b.map05_turku, b.map01_tammisaari);
    let mut s = Shared::new([0; 8]);
    for (p, state) in [
        (t, EasterEggState::Phase1),
        (m, EasterEggState::Phase2),
        (t, EasterEggState::Phase3),
        (m, EasterEggState::Go),
    ] {
        assert_eq!(fall(&mut s, p), vec![now(Task::ClickRelay01)]);
        assert_eq!(s.estate, state);
    }
    assert_eq!(
        fall(&mut s, b.quiz23),
        vec![now(Task::EasterEgg(b.quiz23)), now(Task::ClickRelay01)]
    );
    assert_eq!(s.estate, EasterEggState::Start);
}

#[test]
fn easter_egg_starts_over() {
    let b = board();
    let (t, m) = (b.map05_turku, b.map01_tammisaari);
    let mut s = Shared::new([0; 8]);
    for p in [t, t, m, t, m, t, b.quiz01] {
        fall(&mut s, p);
        assert_ne!(s.estate, EasterEggState::Go);
    }
    assert_eq!(s.estate, EasterEggState::Start);
    fall(&mut s, m);
    assert_eq!(s.estate, EasterEggState::Start);
}

#[test]
fn relay_and_bell() {
    let b = board();
    assert_eq!(
        click_relay01(&b),
        vec![now(Task::SetOutput(b.relay01)), after(100, Task::ClearOutput(b.relay01))]
    );
    assert_eq!(
        ting_bell01(&b),
        vec![now(Task::SetOutput(b.bell01)), after(100, Task::ClearOutput(b.bell01))]
    );
}

#[test]
fn single_lamps() {
    let mut s = Shared::new([0; 8]);
    let p = pin(4, 9);
    assert_eq!(s.set_output(p), PortWrite { chip: 4, value: 0x0200 });
    assert_eq!(s.toggle_output(pin(4, 8)), PortWrite { chip: 4, value: 0x0300 });
    assert_eq!(s.toggle_output(pin(4, 8)), PortWrite { chip: 4, value: 0x0200 });
    assert_eq!(s.clear_output(p), PortWrite { chip: 4, value: 0 });
    assert_eq!(s.output, [0; 8]);
}

#[test]
fn all_lamps() {
    let mut s = Shared::new([0; 8]);
    let mut ports = [0u16; 8];
    let writes = s.out_ones();
    assert_eq!(writes.len(), 8);
    apply(&mut ports, &writes);
    assert_eq!((ports, s.output), ([0xFFFF; 8], [0xFFFF; 8]));
    let writes = s.out_zero();
    assert_eq!(writes[5], PortWrite { chip: 5, value: 0 });
    apply(&mut ports, &writes);
    assert_eq!((ports, s.output), ([0; 8], [0; 8]));
}

#[test]
fn tables_go_on_and_off() {
    let b = board();
    let mut s = Shared::new([0; 8]);
    let mut ports = [0u16; 8];
    apply(&mut ports, &s.sockets_on(&b));
    assert_eq!(s.output, [0xFFFF, 0x00FF, 0, 0, 0, 0, 0, 0]);
    apply(&mut ports, &s.quiz_on(&b));
    assert_eq!(s.output, [0xFFFF, 0xFFFF, 0xFFFF, 0, 0, 0, 0, 0]);
    assert_eq!(ports, s.output);
    apply(&mut ports, &s.sockets_off(&b));
    assert_eq!(s.output, [0, 0xFF00, 0xFFFF, 0, 0, 0, 0, 0]);
    apply(&mut ports, &s.quiz_off(&b));
    assert_eq!(s.output, [0; 8]);
    apply(&mut ports, &s.map_a_on(&b));
    assert_eq!(s.output, [0, 0, 0, 0xFFFF, 0x00FF, 0, 0, 0]);
    apply(&mut ports, &s.map_b_on(&b));
    assert_eq!(s.output, [0, 0, 0, 0xFFFF, 0xFFFF, 0xFFFF, 0, 0]);
    apply(&mut ports, &s.map_s_off(&b));
    assert_eq!(s.output, [0, 0, 0, 0x0FFF, 0x0000, 0xFFF0, 0, 0]);
    apply(&mut ports, &s.map_n_off(&b));
    assert_eq!(s.output, [0; 8]);
    apply(&mut ports, &s.map_s_on(&b));
    apply(&mut ports, &s.map_n_on(&b));
    assert_eq!(s.output, [0, 0, 0, 0xFFFF, 0xFFFF, 0xFFFF, 0, 0]);
    apply(&mut ports, &s.map_a_off(&b));
    apply(&mut ports, &s.map_b_off(&b));
    assert_eq!((ports, s.output), ([0; 8], [0; 8]));
}

#[test]
fn maps_together() {
    assert_eq!(map_all_on(), vec![now(Task::MapSOn), now(Task::MapNOn)]);
    assert_eq!(map_all_off(), vec![now(Task::MapSOff), now(Task::MapNOff)]);
}

#[test]
fn map_one_is_led_in() {
    assert_eq!(
        gamemode_map1(),
        vec![
            now(Task::MapAOn),
            now(Task::ClickRelay01),
            after(500, Task::MapAOff),
            after(1000, Task::MapSOn),
            after(1000, Task::ClickRelay01),
            after(1500, Task::MapSOff),
            after(2000, Task::MapAllOn),
            after(2000, Task::SocketsOn),
        ]
    );
}

#[test]
fn map_two_is_led_in() {
    assert_eq!(
        gamemode_map2(),
        vec![
            now(Task::MapBOn),
            now(Task::ClickRelay01),
            after(500, Task::MapBOff),
            after(1000, Task::MapNOn),
            after(1000, Task::ClickRelay01),
            after(1500, Task::MapNOff),
            after(2000, Task::MapAllOn),
            after(2000, Task::SocketsOn),
        ]
    );
}

fn run(s: &mut Shared, b: &Board, task: Task) {
    match task {
        Task::MapAOn => {
            s.map_a_on(b);
        }
        Task::MapAOff => {
            s.map_a_off(b);
        }
        Task::MapSOn => {
            s.map_s_on(b);
        }
        Task::MapSOff => {
            s.map_s_off(b);
        }
        Task::MapNOn => {
            s.map_n_on(b);
        }
        Task::QuizOn => {
            s.quiz_on(b);
        }
        Task::QuizOff => {
            s.quiz_off(b);
        }
        Task::SocketsOn => {
            s.sockets_on(b);
        }
        Task::SetOutput(p) => {
            s.set_output(p);
        }
        Task::ClearOutput(p) => {
            s.clear_output(p);
        }
        Task::ClickRelay01 => {
            for spawn in click_relay01(b) {
                run(s, b, spawn.task);
            }
        }
        Task::MapAllOn => {
            for spawn in map_all_on() {
                run(s, b, spawn.task);
            }
        }
        other => panic!("{:?}", other),
    }
}

#[test]
fn lamps_after_lead_in() {
    let b = board();
    let mut s = Shared::new([0; 8]);
    for spawn in gamemode_map1() {
        run(&mut s, &b, spawn.task);
    }
    assert_eq!(s.output, [0xFFFF, 0x00FF, 0, 0xFFFF, 0xFFFF, 0xFFFF, 0, 0]);
    s.out_zero();
    for spawn in gamemode_quiz() {
        run(&mut s, &b, spawn.task);
    }
    assert_eq!(s.output, [0xFFFF, 0xFFFF, 0xFFFF, 0, 0, 0, 0, 0]);
}

#[test]
fn asked_tasks_can_be_run() {
    let b = board();
    let mut s = Shared::new([0; 8]);
    rise(&mut s, b.mode01);
    for chip in 0..8 {
        for bit in 0..16 {
            let p = pin(chip, bit);
            let mut spawns = fall(&mut s, p);
            spawns.extend(fall(&mut s, b.out_map_a[3]));
            if p != b.mode01 {
                spawns.extend(rise(&mut s, p));
                assert_eq!(s.gmode, GameMode::MapQuiz1);
            }
            for spawn in spawns {
                match spawn.task {
                    Task::SetOutput(p) | Task::ToggleOutput(p) | Task::ClearOutput(p) => {
                        assert!(p.is_drivable())
                    }
                    _ => {}
                }
            }
        }
    }
    // the answer of the fourth socket was found, and no other
    for i in 0..24 {
        assert_eq!(s.answers[i].is_none(), i == 3);
    }
}
