//! The lamps of the board, table by table, and its relay and bell.

use vstd::prelude::*;
use crate::lamps::{Drive, PortWrite};
use crate::pins::{all_drivable, Board};
use crate::state::{switched, Shared};
use crate::tasks::{after, now, Spawn, Task};

verus! {

/// Clicks the relay: on, and off a tenth of a second later.
pub fn click_relay01(board: &Board) -> (spawns: Vec<Spawn>)
    ensures
        spawns@ == seq![
            now(Task::SetOutput(board.relay01)),
            after(100, Task::ClearOutput(board.relay01)),
        ],
{
    vec![now(Task::SetOutput(board.relay01)), after(100, Task::ClearOutput(board.relay01))]
}

/// Rings the bell: on, and off a tenth of a second later.
pub fn ting_bell01(board: &Board) -> (spawns: Vec<Spawn>)
    ensures
        spawns@ == seq![
            now(Task::SetOutput(board.bell01)),
            after(100, Task::ClearOutput(board.bell01)),
        ],
{
    vec![now(Task::SetOutput(board.bell01)), after(100, Task::ClearOutput(board.bell01))]
}

impl Shared {
    /// Lights the lamps of the sockets.
    pub fn sockets_on(&mut self, board: &Board) -> (writes: Vec<PortWrite>)
        requires
            all_drivable(board.out_socket@),
        ensures
            switched(*old(self), *final(self), writes@, board.out_socket@, Drive::High),
    {
        self.switch(&board.out_socket, Drive::High)
    }

    /// Puts out the lamps of the sockets.
    pub fn sockets_off(&mut self, board: &Board) -> (writes: Vec<PortWrite>)
        requires
            all_drivable(board.out_socket@),
        ensures
            switched(*old(self), *final(self), writes@, board.out_socket@, Drive::Low),
    {
        self.switch(&board.out_socket, Drive::Low)
    }

    /// Lights the lamps of the quiz.
    pub fn quiz_on(&mut self, board: &Board) -> (writes: Vec<PortWrite>)
        requires
            all_drivable(board.out_quiz@),
        ensures
            switched(*old(self), *final(self), writes@, board.out_quiz@, Drive::High),
    {
        self.switch(&board.out_quiz, Drive::High)
    }

    /// Puts out the lamps of the quiz.
    pub fn quiz_off(&mut self, board: &Board) -> (writes: Vec<PortWrite>)
        requires
            all_drivable(board.out_quiz@),
        ensures
            switched(*old(self), *final(self), writes@, board.out_quiz@, Drive::Low),
    {
        self.switch(&board.out_quiz, Drive::Low)
    }

    /// Lights the lamps of map A.
    pub fn map_a_on(&mut self, board: &Board) -> (writes: Vec<PortWrite>)
        requires
            all_drivable(board.out_map_a@),
        ensures
            switched(*old(self), *final(self), writes@, board.out_map_a@, Drive::High),
    {
        self.switch(&board.out_map_a, Drive::High)
    }

    /// Puts out the lamps of map A.
    pub fn map_a_off(&mut self, board: &Board) -> (writes: Vec<PortWrite>)
        requires
            all_drivable(board.out_map_a@),
        ensures
            switched(*old(self), *final(self), writes@, board.out_map_a@, Drive::Low),
    {
        self.switch(&board.out_map_a, Drive::Low)
    }

    /// Lights the lamps of map B.
    pub fn map_b_on(&mut self, board: &Board) -> (writes: Vec<PortWrite>)
        requires
            all_drivable(board.out_map_b@),
        ensures
            switched(*old(self), *final(self), writes@, board.out_map_b@, Drive::High),
    {
        self.switch(&board.out_map_b, Drive::High)
    }

    /// Puts out the lamps of map B.
    pub fn map_b_off(&mut self, board: &Board) -> (writes: Vec<PortWrite>)
        requires
            all_drivable(board.out_map_b@),
        ensures
            switched(*old(self), *final(self), writes@, board.out_map_b@, Drive::Low),
    {
        self.switch(&board.out_map_b, Drive::Low)
    }

    /// Lights the lamps of the south of the map.
    pub fn map_s_on(&mut self, board: &Board) -> (writes: Vec<PortWrite>)
        requires
            all_drivable(board.out_map_s@),
        ensures
            switched(*old(self), *final(self), writes@, board.out_map_s@, Drive::High),
    {
        self.switch(&board.out_map_s, Drive::High)
    }

    /// Puts out the lamps of the south of the map.
    pub fn map_s_off(&mut self, board: &Board) -> (writes: Vec<PortWrite>)
        requires
            all_drivable(board.out_map_s@),
        ensures
            switched(*old(self), *final(self), writes@, board.out_map_s@, Drive::Low),
    {
        self.switch(&board.out_map_s, Drive::Low)
    }

    /// Lights the lamps of the north of the map.
    pub fn map_n_on(&mut self, board: &Board) -> (writes: Vec<PortWrite>)
        requires
            all_drivable(board.out_map_n@),
        ensures
            switched(*old(self), *final(self), writes@, board.out_map_n@, Drive::High),
    {
        self.switch(&board.out_map_n, Drive::High)
    }

    /// Puts out the lamps of the north of the map.
    pub fn map_n_off(&mut self, board: &Board) -> (writes: Vec<PortWrite>)
        requires
            all_drivable(board.out_map_n@),
        ensures
            switched(*old(self), *final(self), writes@, board.out_map_n@, Drive::Low),
    {
        self.switch(&board.out_map_n, Drive::Low)
    }
}

} // verus!
