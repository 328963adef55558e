//! The render loop's decisions: what each input event does to the browser, and
//! whether the loop goes on afterwards.
//!
//! The loop itself (draw, wait for one event, hand it to [`App::handle_event`])
//! belongs to the program that owns the terminal.

use crate::browser::{App, AppView};
use vstd::prelude::*;

verus! {

/// What a key event reports of the key's movement.
#[derive(Clone, Copy, PartialEq, Eq, Structural, Debug)]
pub enum KeyKind {
    Press,
    Repeat,
    Release,
}

/// The keys that the browser tells apart.
#[derive(Clone, Copy, PartialEq, Eq, Structural, Debug)]
pub enum Key {
    Char(char),
    Up,
    Down,
    Enter,
    /// Any other key.
    Other,
}

/// One event from the terminal.
#[derive(Clone, Copy, PartialEq, Eq, Structural, Debug)]
pub enum InputEvent {
    Key { kind: KeyKind, key: Key },
    /// Pointer events and whatever else is no key event: received and ignored.
    Other,
}

/// What the browser does in answer to an event.
#[derive(Clone, Copy, PartialEq, Eq, Structural, Debug)]
pub enum Command {
    Quit,
    Next,
    Previous,
    Activate,
    Ignore,
}

/// The state of the render loop. It starts in `Running` and ends in `Exiting`.
#[derive(Clone, Copy, PartialEq, Eq, Structural, Debug)]
pub enum LoopState {
    Running,
    Exiting,
}

/// The command bound to a key that was pressed.
pub open spec fn command_of_key(key: Key) -> Command {
    match key {
        Key::Char(c) => if c == 'q' {
            Command::Quit
        } else if c == 'j' {
            Command::Next
        } else if c == 'k' {
            Command::Previous
        } else {
            Command::Ignore
        },
        Key::Down => Command::Next,
        Key::Up => Command::Previous,
        Key::Enter => Command::Activate,
        Key::Other => Command::Ignore,
    }
}

/// The command that an event gives: only the press of a key gives one.
pub open spec fn command_of(event: InputEvent) -> Command {
    match event {
        InputEvent::Key { kind: KeyKind::Press, key } => command_of_key(key),
        _ => Command::Ignore,
    }
}

/// The browser after `command`. A move on an empty catalog is not carried out:
/// there is no row to select.
pub open spec fn apply(app: AppView, command: Command) -> AppView {
    match command {
        Command::Next => if app.items.len() > 0 {
            app.next()
        } else {
            app
        },
        Command::Previous => if app.items.len() > 0 {
            app.previous()
        } else {
            app
        },
        Command::Quit | Command::Activate | Command::Ignore => app,
    }
}

/// The loop's state after `command`: only `Quit` ends the loop.
pub open spec fn state_after(command: Command) -> LoopState {
    if command == Command::Quit {
        LoopState::Exiting
    } else {
        LoopState::Running
    }
}

/// The browser after the events `events`, handled one after the other.
pub open spec fn apply_all(app: AppView, events: Seq<InputEvent>) -> AppView
    decreases events.len(),
{
    if events.len() == 0 {
        app
    } else {
        apply(apply_all(app, events.drop_last()), command_of(events.last()))
    }
}

/// The command bound to an event.
pub fn command_for(event: &InputEvent) -> (command: Command)
    ensures
        command == command_of(*event),
{
    match event {
        InputEvent::Key { kind: KeyKind::Press, key } => match key {
            Key::Char(c) => {
                if *c == 'q' {
                    Command::Quit
                } else if *c == 'j' {
                    Command::Next
                } else if *c == 'k' {
                    Command::Previous
                } else {
                    Command::Ignore
                }
            },
            Key::Down => Command::Next,
            Key::Up => Command::Previous,
            Key::Enter => Command::Activate,
            Key::Other => Command::Ignore,
        },
        _ => Command::Ignore,
    }
}

impl App {
    /// Carries out `command` and says whether the loop goes on.
    pub fn run_command(&mut self, command: Command) -> (state: LoopState)
        ensures
            final(self)@ == apply(old(self)@, command),
            final(self)@.valid(),
            state == state_after(command),
    {
        proof {
            use_type_invariant(&*self);
        }
        match command {
            Command::Quit => LoopState::Exiting,
            Command::Next => {
                if !self.items().is_empty() {
                    self.next();
                }
                LoopState::Running
            },
            Command::Previous => {
                if !self.items().is_empty() {
                    self.previous();
                }
                LoopState::Running
            },
            Command::Activate => {
                self.play_track();
                LoopState::Running
            },
            Command::Ignore => LoopState::Running,
        }
    }

    /// One turn of the render loop after the draw: dispatches `event` and says
    /// whether the loop goes on.
    pub fn handle_event(&mut self, event: &InputEvent) -> (state: LoopState)
        ensures
            final(self)@ == apply(old(self)@, command_of(*event)),
            final(self)@.valid(),
            state == state_after(command_of(*event)),
    {
        let command = command_for(event);
        self.run_command(command)
    }
}

/// The catalog and the root's label never change, whatever the events.
pub proof fn lemma_events_keep_catalog(app: AppView, events: Seq<InputEvent>)
    ensures
        apply_all(app, events).items == app.items,
        apply_all(app, events).title == app.title,
    decreases events.len(),
{
    if events.len() > 0 {
        lemma_events_keep_catalog(app, events.drop_last());
    }
}

/// A valid selection stays valid, whatever the events.
pub proof fn lemma_events_keep_selection_valid(app: AppView, events: Seq<InputEvent>)
    requires
        app.valid(),
    ensures
        apply_all(app, events).valid(),
    decreases events.len(),
{
    if events.len() > 0 {
        let before = apply_all(app, events.drop_last());
        lemma_events_keep_selection_valid(app, events.drop_last());
        if before.items.len() > 0 {
            crate::browser::lemma_moves_stay_in_range(before.selected, before.items.len());
        }
    }
}

/// Once a row is selected, a row stays selected, whatever the events.
pub proof fn lemma_selection_is_never_unset(app: AppView, events: Seq<InputEvent>)
    requires
        app.selected is Some,
    ensures
        apply_all(app, events).selected is Some,
    decreases events.len(),
{
    if events.len() > 0 {
        lemma_selection_is_never_unset(app, events.drop_last());
    }
}

/// On an empty catalog no event ever selects anything.
pub proof fn lemma_empty_catalog_selects_nothing(app: AppView, events: Seq<InputEvent>)
    requires
        app.items.len() == 0,
    ensures
        apply_all(app, events) == app,
    decreases events.len(),
{
    if events.len() > 0 {
        lemma_empty_catalog_selects_nothing(app, events.drop_last());
    }
}

} // verus!
