//! What a key press means.

use vstd::prelude::*;
use crate::navigation::{next_index, prev_index, App};

verus! {

/// A key, as far as the viewer tells keys apart.
#[derive(Clone, Copy, Debug, PartialEq, Eq, Structural)]
pub enum Key {
    Char(char),
    Esc,
    Left,
    Right,
    Other,
}

/// What the viewer can be told to do.
#[derive(Clone, Copy, Debug, PartialEq, Eq, Structural)]
pub enum Command {
    Quit,
    NextStep,
    PrevStep,
    Nothing,
}

/// The command bound to `key`: `q` and escape quit, `n` and the right arrow
/// step forward, `p` and the left arrow step backward.
pub open spec fn bound_command(key: Key) -> Command {
    match key {
        Key::Char(c) => if c == 'q' {
            Command::Quit
        } else if c == 'n' {
            Command::NextStep
        } else if c == 'p' {
            Command::PrevStep
        } else {
            Command::Nothing
        },
        Key::Esc => Command::Quit,
        Key::Right => Command::NextStep,
        Key::Left => Command::PrevStep,
        Key::Other => Command::Nothing,
    }
}

/// Looks up the command bound to a pressed key.
pub fn command_for(key: Key) -> (command: Command)
    ensures
        command == bound_command(key),
{
    match key {
        Key::Char('q') | Key::Esc => Command::Quit,
        Key::Right | Key::Char('n') => Command::NextStep,
        Key::Left | Key::Char('p') => Command::PrevStep,
        _ => Command::Nothing,
    }
}

/// The index after `command` has been carried out.
pub open spec fn index_after(command: Command, index: int, len: int) -> int {
    match command {
        Command::NextStep => next_index(index, len),
        Command::PrevStep => prev_index(index),
        Command::Quit | Command::Nothing => index,
    }
}

impl App {
    /// Carries out `command` and says whether the viewer goes on running.
    pub fn apply(&mut self, command: Command) -> (running: bool)
        ensures
            running == (command != Command::Quit),
            final(self).steps == old(self).steps,
            final(self).benchmark_results == old(self).benchmark_results,
            final(self).current_step_index == index_after(
                command,
                old(self).current_step_index as int,
                old(self).steps.len() as int,
            ),
            old(self).wf() ==> final(self).wf(),
    {
        match command {
            Command::Quit => false,
            Command::NextStep => {
                self.next_step();
                true
            },
            Command::PrevStep => {
                self.prev_step();
                true
            },
            Command::Nothing => true,
        }
    }
}

} // verus!
