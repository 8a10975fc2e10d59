//! Tasks that the game asks to be run, now or after a while.

use vstd::prelude::*;
use crate::pins::MyPin;

verus! {

/// A task of the game.
#[derive(Clone, Copy, Debug, PartialEq, Eq)]
pub enum Task {
    LedBlink,
    Alive,
    IoNoirq,
    EnableIoIrq,
    IoPoll,
    IoDebug,
    InputEventFall,
    InputEventRise,
    TestOutput,
    RandOutput,
    EasterEgg(MyPin),
    SetOutput(MyPin),
    ToggleOutput(MyPin),
    ClearOutput(MyPin),
    OutZero,
    OutOnes,
    ClickRelay01,
    TingBell01,
    SocketsOn,
    SocketsOff,
    QuizOn,
    QuizOff,
    MapAOn,
    MapAOff,
    MapBOn,
    MapBOff,
    MapSOn,
    MapSOff,
    MapNOn,
    MapNOff,
    MapAllOn,
    MapAllOff,
    GamemodeMap1,
    GamemodeMap2,
    GamemodeQuiz,
}

/// A task and the milliseconds after which it is to run; a task without delay is to run at once.
#[derive(Clone, Copy, Debug, PartialEq, Eq)]
pub struct Spawn {
    pub task: Task,
    pub delay_ms: u64,
}

/// A task to be run at once.
pub open spec fn now_spec(task: Task) -> Spawn {
    Spawn { task, delay_ms: 0 }
}

/// A task to be run after a delay.
pub open spec fn after_spec(delay_ms: u64, task: Task) -> Spawn {
    Spawn { task, delay_ms }
}

/// A task to be run at once.
#[verifier::when_used_as_spec(now_spec)]
pub fn now(task: Task) -> (spawn: Spawn)
    ensures
        spawn == now(task),
{
    Spawn { task, delay_ms: 0 }
}

/// A task to be run after a delay.
#[verifier::when_used_as_spec(after_spec)]
pub fn after(delay_ms: u64, task: Task) -> (spawn: Spawn)
    ensures
        spawn == after(delay_ms, task),
{
    Spawn { task, delay_ms }
}

/// The parts of the game that can be left out.
#[derive(Clone, Copy, Debug, PartialEq, Eq)]
pub struct Features {
    /// Light all lamps, table by table, at the start.
    pub test_output: bool,
    /// Poll the inputs when the port expanders interrupt.
    pub io_irq: bool,
    /// Poll the inputs at fixed times.
    pub io_noirq: bool,
    /// Report every change of the inputs.
    pub io_debug: bool,
}

/// The tasks that the game starts with.
pub open spec fn first_spawns(features: Features) -> Seq<Spawn> {
    (if features.test_output {
        seq![after(1000, Task::TestOutput)]
    } else {
        seq![]
    }) + (if features.io_irq {
        seq![after(10_000, Task::EnableIoIrq)]
    } else {
        seq![]
    }) + (if features.io_noirq {
        seq![after(10_000, Task::IoNoirq)]
    } else {
        seq![]
    }) + seq![now(Task::LedBlink), now(Task::Alive)]
}

/// The tasks that the game starts with.
pub fn startup_spawns(features: &Features) -> (spawns: Vec<Spawn>)
    ensures
        spawns@ == first_spawns(*features),
{
    let mut spawns: Vec<Spawn> = Vec::new();
    if features.test_output {
        spawns.push(after(1000, Task::TestOutput));
    }
    if features.io_irq {
        spawns.push(after(10_000, Task::EnableIoIrq));
    }
    if features.io_noirq {
        spawns.push(after(10_000, Task::IoNoirq));
    }
    spawns.push(now(Task::LedBlink));
    spawns.push(now(Task::Alive));
    spawns
}

/// Asks for a poll, and for the next one a tenth of a second later.
pub fn io_noirq() -> (spawns: Vec<Spawn>)
    ensures
        spawns@ == seq![now(Task::IoPoll), after(100, Task::IoNoirq)],
{
    vec![now(Task::IoPoll), after(100, Task::IoNoirq)]
}

/// An interrupt was counted: this is the count before and after, and what is asked for.
pub open spec fn counted(before: u32, after: u32, spawns: Seq<Spawn>) -> bool {
    &&& after == before + 1
    &&& spawns == seq![crate::tasks::after(200, Task::EnableIoIrq), now(Task::IoPoll)]
}

/// Counts an interrupt of the inputs; asks for a poll, and for the interrupt to be enabled again
/// when the contacts have stopped bouncing.
pub fn io_irq(irqc: &mut u32) -> (spawns: Vec<Spawn>)
    requires
        *old(irqc) < u32::MAX,
    ensures
        counted(*old(irqc), *final(irqc), spawns@),
{
    *irqc = *irqc + 1;
    vec![after(200, Task::EnableIoIrq), now(Task::IoPoll)]
}

/// Asks for a poll whenever the interrupt of the inputs is enabled.
pub fn enable_io_irq() -> (spawns: Vec<Spawn>)
    ensures
        spawns@ == seq![now(Task::IoPoll)],
{
    vec![now(Task::IoPoll)]
}

/// Asks for the next sign of life.
pub fn alive() -> (spawns: Vec<Spawn>)
    ensures
        spawns@ == seq![after(5000, Task::Alive)],
{
    vec![after(5000, Task::Alive)]
}

/// Lights both halves of the map.
pub fn map_all_on() -> (spawns: Vec<Spawn>)
    ensures
        spawns@ == seq![now(Task::MapSOn), now(Task::MapNOn)],
{
    vec![now(Task::MapSOn), now(Task::MapNOn)]
}

/// Puts out both halves of the map.
pub fn map_all_off() -> (spawns: Vec<Spawn>)
    ensures
        spawns@ == seq![now(Task::MapSOff), now(Task::MapNOff)],
{
    vec![now(Task::MapSOff), now(Task::MapNOff)]
}

/// What leads in the first map quiz.
pub open spec fn map1_spawns() -> Seq<Spawn> {
    seq![
        now(Task::MapAOn),
        now(Task::ClickRelay01),
        after(500, Task::MapAOff),
        after(1000, Task::MapSOn),
        after(1000, Task::ClickRelay01),
        after(1500, Task::MapSOff),
        after(2000, Task::MapAllOn),
        after(2000, Task::SocketsOn),
    ]
}

/// What leads in the second map quiz.
pub open spec fn map2_spawns() -> Seq<Spawn> {
    seq![
        now(Task::MapBOn),
        now(Task::ClickRelay01),
        after(500, Task::MapBOff),
        after(1000, Task::MapNOn),
        after(1000, Task::ClickRelay01),
        after(1500, Task::MapNOff),
        after(2000, Task::MapAllOn),
        after(2000, Task::SocketsOn),
    ]
}

/// What leads in the quiz.
pub open spec fn quiz_spawns() -> Seq<Spawn> {
    seq![
        now(Task::QuizOn),
        now(Task::ClickRelay01),
        after(500, Task::QuizOff),
        after(1000, Task::QuizOn),
        after(1000, Task::ClickRelay01),
        after(1500, Task::QuizOff),
        after(2000, Task::QuizOn),
        after(2000, Task::SocketsOn),
    ]
}

/// Leads in the first map quiz.
pub fn gamemode_map1() -> (spawns: Vec<Spawn>)
    ensures
        spawns@ == map1_spawns(),
{
    vec![
        now(Task::MapAOn),
        now(Task::ClickRelay01),
        after(500, Task::MapAOff),
        after(1000, Task::MapSOn),
        after(1000, Task::ClickRelay01),
        after(1500, Task::MapSOff),
        after(2000, Task::MapAllOn),
        after(2000, Task::SocketsOn),
    ]
}

/// Leads in the second map quiz.
pub fn gamemode_map2() -> (spawns: Vec<Spawn>)
    ensures
        spawns@ == map2_spawns(),
{
    vec![
        now(Task::MapBOn),
        now(Task::ClickRelay01),
        after(500, Task::MapBOff),
        after(1000, Task::MapNOn),
        after(1000, Task::ClickRelay01),
        after(1500, Task::MapNOff),
        after(2000, Task::MapAllOn),
        after(2000, Task::SocketsOn),
    ]
}

/// Leads in the quiz.
pub fn gamemode_quiz() -> (spawns: Vec<Spawn>)
    ensures
        spawns@ == quiz_spawns(),
{
    vec![
        now(Task::QuizOn),
        now(Task::ClickRelay01),
        after(500, Task::QuizOff),
        after(1000, Task::QuizOn),
        after(1000, Task::ClickRelay01),
        after(1500, Task::QuizOff),
        after(2000, Task::QuizOn),
        after(2000, Task::SocketsOn),
    ]
}

} // verus!
