//! The orchestrator: the rules of one step of the run.
//!
//! A step has four parts. The orchestrator has a `Move` command sent to
//! every actor. It then takes in one answer per robot, moves the robot
//! that the answer names and marks the cells that robots stand on. When
//! every answer is in, it has the keyboard looked at, and ends the run on a
//! key that asks for it. Otherwise it counts the step and has the result
//! drawn.
//!
//! The orchestrator does none of the sending, receiving, looking or drawing
//! itself. It says what is to be done next, and is told when that is done.

use crate::actor::Message;
use crate::decay::{Tick, TrailColor};
use crate::error::SimulationError;
use crate::grid::{
    all_in_bounds, all_supported, initialize_map, initialize_positions, initialize_robots,
    lemma_lineup_registry, lemma_moved_keeps_registry, lineup, moved, occupied, registry_of, shows,
    update_map, update_positions_map, well_shaped, Map2D, Position, Robot, MAX_ROBOTS,
};
use crate::keys::{handle_key, quits, KeyPress};
use crate::renderer::Status;
use crate::trail::{not_after, paints, stamped, Trail};
use std::collections::HashMap;
use vstd::prelude::*;

verus! {

/// How long the keyboard is looked at in every step, in milliseconds.
pub const POLL_MILLIS: u64 = 100;

/// How long a step rests when nothing looks at the keyboard, in milliseconds.
pub const TICK_MILLIS: u64 = 10;

/// Where in a step the orchestrator is.
#[derive(Clone, Copy, Debug, PartialEq, Eq, Structural)]
pub enum Phase {
    /// A step is about to begin.
    Idle,
    /// The commands are out, and answers are missing.
    Collecting,
    /// Every answer is in; the keyboard is to be looked at.
    Polling,
    /// The step is counted; its result is to be drawn.
    Rendering,
    /// The run is over.
    Finished,
}

/// What the orchestrator is told.
#[derive(Clone, Copy, Debug, PartialEq, Eq, Structural)]
pub enum Event {
    /// Every actor has been sent its command.
    Sent,
    /// An actor has answered.
    Received(Message),
    /// The keyboard has been looked at, and this was found.
    Polled(Option<KeyPress>),
    /// The result of the step has been drawn.
    Drawn,
}

/// What the orchestrator wants done next.
#[derive(Clone, Copy, Debug, PartialEq, Eq, Structural)]
pub enum Action {
    /// Send a `Move` command to every actor.
    Broadcast,
    /// Wait for the answer of an actor.
    Receive,
    /// Look for a key press, for a short while.
    Poll,
    /// Draw the grid and the trail.
    Render,
    /// Stop: the run is over.
    Stop,
}

/// The orchestrator as the rules see it.
pub struct State {
    /// The robots, each under its id.
    pub positions: Map<u32, Robot>,
    /// For every cell ever stood on, the step of the last visit.
    pub trail: Map<Position, Tick>,
    /// The number of steps that are over.
    pub tick: Tick,
    /// The number of answers that a step takes in.
    pub actors: nat,
    /// The number of answers taken in since the commands went out.
    pub collected: nat,
    /// Where in the step the orchestrator is.
    pub phase: Phase,
}

impl State {
    /// What holds of every state that a run can reach.
    pub open spec fn inv(self) -> bool {
        &&& self.positions.dom().finite()
        &&& self.actors == self.positions.dom().len()
        &&& all_in_bounds(self.positions)
        &&& all_supported(self.positions)
        &&& not_after(self.trail, self.tick)
        &&& self.collected <= self.actors
        &&& self.phase == Phase::Collecting ==> self.collected < self.actors
        &&& self.phase == Phase::Polling ==> self.collected == self.actors
        &&& self.phase == Phase::Rendering ==> self.collected == self.actors
    }

    /// What the orchestrator wants done in this state.
    pub open spec fn wanted(self) -> Action {
        match self.phase {
            Phase::Idle => Action::Broadcast,
            Phase::Collecting => Action::Receive,
            Phase::Polling => Action::Poll,
            Phase::Rendering => Action::Render,
            Phase::Finished => Action::Stop,
        }
    }

    /// The state after the answer of an actor has been taken in: the robot
    /// has moved, every cell that a robot stands on is marked as seen at
    /// this step, and the answer is counted.
    pub open spec fn received(self, message: Message) -> State {
        let Message::NewPosition { id, dx, dy } = message;
        let positions = moved(self.positions, id, dx as int, dy as int);
        let collected = self.collected + 1;
        State {
            positions,
            trail: stamped(self.trail, positions, self.tick),
            collected,
            phase: if collected >= self.actors {
                Phase::Polling
            } else {
                Phase::Collecting
            },
            ..self
        }
    }

    /// The state that an event leads to. An event that the orchestrator
    /// does not wait for changes nothing.
    pub open spec fn next(self, event: Event) -> State {
        match (self.phase, event) {
            (Phase::Idle, Event::Sent) => State {
                collected: 0,
                phase: if self.actors == 0 {
                    Phase::Polling
                } else {
                    Phase::Collecting
                },
                ..self
            },
            (Phase::Collecting, Event::Received(message)) => self.received(message),
            (Phase::Polling, Event::Polled(Some(key))) if quits(key) => State {
                phase: Phase::Finished,
                ..self
            },
            (Phase::Polling, Event::Polled(_)) => State {
                tick: (self.tick + 1) as Tick,
                phase: Phase::Rendering,
                ..self
            },
            (Phase::Rendering, Event::Drawn) => State { phase: Phase::Idle, ..self },
            _ => self,
        }
    }
}

/// The orchestrator of a run.
pub struct Orchestrator {
    positions: HashMap<u32, Robot>,
    map: Map2D,
    trail: Trail,
    tick: Tick,
    collected: usize,
    phase: Phase,
}

impl View for Orchestrator {
    type V = State;

    closed spec fn view(&self) -> State {
        State {
            positions: self.positions@,
            trail: self.trail@,
            tick: self.tick,
            actors: self.positions@.dom().len(),
            collected: self.collected as nat,
            phase: self.phase,
        }
    }
}

impl Orchestrator {
    /// The orchestrator is in a state that a run can reach, and its grid
    /// shows its robots.
    pub closed spec fn wf(&self) -> bool {
        &&& self@.inv()
        &&& well_shaped(self.map)
        &&& shows(self.map, self.positions@)
    }

    /// The grid as the orchestrator holds it.
    pub closed spec fn grid(&self) -> Map2D {
        self.map
    }

    /// A well-formed orchestrator is in a state that a run can reach, and
    /// its grid has the right shape and shows its robots.
    pub proof fn lemma_wf(&self)
        requires
            self.wf(),
        ensures
            self@.inv(),
            well_shaped(self.grid()),
            shows(self.grid(), self@.positions),
    {
    }

    /// The orchestrator of the given robots, before the first step. Robots
    /// without a marker are refused.
    pub fn new(positions: HashMap<u32, Robot>) -> (made: Result<Orchestrator, SimulationError>)
        requires
            all_in_bounds(positions@),
        ensures
            made is Ok <==> all_supported(positions@),
            match made {
                Ok(orchestrator) => {
                    &&& orchestrator.wf()
                    &&& orchestrator@ == State {
                        positions: positions@,
                        trail: Map::<Position, Tick>::empty(),
                        tick: 0,
                        actors: positions@.dom().len(),
                        collected: 0,
                        phase: Phase::Idle,
                    }
                },
                Err(e) => {
                    &&& e matches SimulationError::UnsupportedAgentId(id)
                    &&& positions@.contains_key(id)
                    &&& id >= MAX_ROBOTS
                },
            },
    {
        broadcast use vstd::std_specs::hash::group_hash_axioms;

        let mut map = initialize_map();
        match update_map(&mut map, &positions) {
            Ok(_) => Ok(
                Orchestrator {
                    positions,
                    map,
                    trail: Trail::new(),
                    tick: 0,
                    collected: 0,
                    phase: Phase::Idle,
                },
            ),
            Err(e) => Err(e),
        }
    }

    /// The orchestrator of the robots `0` to `count - 1`, each on the cell
    /// where robots start, before the first step. More robots than there
    /// are markers are refused; the error names one that has none.
    pub fn start(count: u32) -> (made: Result<Orchestrator, SimulationError>)
        ensures
            made is Ok <==> count <= MAX_ROBOTS,
            match made {
                Ok(orchestrator) => {
                    &&& orchestrator.wf()
                    &&& orchestrator@ == State {
                        positions: registry_of(lineup(count as nat)),
                        trail: Map::<Position, Tick>::empty(),
                        tick: 0,
                        actors: count as nat,
                        collected: 0,
                        phase: Phase::Idle,
                    }
                },
                Err(e) => e matches SimulationError::UnsupportedAgentId(id) && MAX_ROBOTS <= id
                    < count,
            },
    {
        let robots = initialize_robots(count);
        let positions = initialize_positions(&robots);
        proof {
            lemma_lineup_registry(count as nat);
        }
        Orchestrator::new(positions)
    }

    /// What is to be done next.
    pub fn pending(&self) -> (action: Action)
        ensures
            action == self@.wanted(),
    {
        match self.phase {
            Phase::Idle => Action::Broadcast,
            Phase::Collecting => Action::Receive,
            Phase::Polling => Action::Poll,
            Phase::Rendering => Action::Render,
            Phase::Finished => Action::Stop,
        }
    }

    /// Whether the run goes on.
    pub fn status(&self) -> (status: Status)
        ensures
            status == if self@.phase == Phase::Finished {
                Status::Finish
            } else {
                Status::Continue
            },
    {
        match self.phase {
            Phase::Finished => Status::Finish,
            _ => Status::Continue,
        }
    }

    /// The number of steps that are over.
    pub fn tick(&self) -> (tick: Tick)
        ensures
            tick == self@.tick,
    {
        self.tick
    }

    /// Where in the step the orchestrator is.
    pub fn phase(&self) -> (phase: Phase)
        ensures
            phase == self@.phase,
    {
        self.phase
    }

    /// The number of answers that a step takes in: one per robot.
    pub fn actors(&self) -> (actors: usize)
        ensures
            actors == self@.actors,
    {
        broadcast use vstd::std_specs::hash::group_hash_axioms;

        self.positions.len()
    }

    /// The number of answers taken in since the commands went out.
    pub fn collected(&self) -> (collected: usize)
        ensures
            collected == self@.collected,
    {
        self.collected
    }

    /// The robots, each under its id.
    pub fn positions(&self) -> (positions: &HashMap<u32, Robot>)
        ensures
            positions@ == self@.positions,
    {
        &self.positions
    }

    /// The grid with the robots on it.
    pub fn map(&self) -> (map: &Map2D)
        ensures
            *map == self.grid(),
    {
        &self.map
    }

    /// The trail of the robots.
    pub fn trail(&self) -> (trail: &Trail)
        ensures
            trail@ == self@.trail,
    {
        &self.trail
    }

    /// Every cell of the trail with the colour to draw it in now, in no
    /// particular order.
    pub fn trail_colors(&self) -> (marks: Vec<(Position, TrailColor)>)
        requires
            self.wf(),
        ensures
            paints(marks@, self@.trail, self@.tick),
    {
        self.trail.colors(self.tick)
    }

    /// Takes in an event, and says what is to be done next.
    pub fn step(&mut self, event: Event) -> (action: Action)
        requires
            old(self).wf(),
            old(self)@.tick < Tick::MAX,
        ensures
            final(self).wf(),
            final(self)@ == old(self)@.next(event),
            action == final(self)@.wanted(),
    {
        broadcast use vstd::std_specs::hash::group_hash_axioms;

        match (self.phase, event) {
            (Phase::Idle, Event::Sent) => {
                self.collected = 0;
                self.phase = if self.positions.len() == 0 {
                    Phase::Polling
                } else {
                    Phase::Collecting
                };
            },
            (Phase::Collecting, Event::Received(message)) => {
                let Message::NewPosition { id, dx, dy } = message;
                let actors = self.positions.len();
                proof {
                    lemma_moved_keeps_registry(self.positions@, id, dx as int, dy as int);
                }
                let drawn = update_positions_map(&mut self.positions, &mut self.map, id, dx, dy);
                // Every robot has a marker, so the grid has been drawn.
                assert(drawn is Ok);
                self.trail.stamp_all(&self.positions, self.tick);
                self.collected = self.collected + 1;
                self.phase = if self.collected >= actors {
                    Phase::Polling
                } else {
                    Phase::Collecting
                };
            },
            (Phase::Polling, Event::Polled(found)) => {
                let exit = match found {
                    Some(key) => handle_key(key).is_exit(),
                    None => false,
                };
                if exit {
                    self.phase = Phase::Finished;
                } else {
                    self.tick = self.tick + 1;
                    self.phase = Phase::Rendering;
                }
            },
            (Phase::Rendering, Event::Drawn) => {
                self.phase = Phase::Idle;
            },
            _ => {},
        }
        self.pending()
    }
}

/// The state that a list of events leads to, one after the other.
pub open spec fn run(start: State, events: Seq<Event>) -> State
    decreases events.len(),
{
    if events.len() == 0 {
        start
    } else {
        run(start, events.drop_last()).next(events.last())
    }
}

/// An event leads from a state that a run can reach to another such state:
/// every robot is still on the grid and still has a marker, and no cell of
/// the trail is ahead of the step counter. The registry holds the same
/// robots as before, so the number of answers that a step takes in never
/// changes.
pub proof fn lemma_next_keeps_inv(state: State, event: Event)
    requires
        state.inv(),
        state.tick < Tick::MAX,
    ensures
        state.next(event).inv(),
        state.next(event).positions.dom() == state.positions.dom(),
        state.next(event).actors == state.actors,
{
    if let Event::Received(message) = event {
        let Message::NewPosition { id, dx, dy } = message;
        lemma_moved_keeps_registry(state.positions, id, dx as int, dy as int);
    }
}

/// Whatever the events of a run are, and however many, after each of them
/// every robot stands on the grid and the registry holds the robots it
/// began with.
pub proof fn lemma_run_keeps_inv(start: State, events: Seq<Event>)
    requires
        start.inv(),
        start.tick + events.len() <= Tick::MAX,
    ensures
        run(start, events).inv(),
        all_in_bounds(run(start, events).positions),
        run(start, events).positions.dom() == start.positions.dom(),
        run(start, events).tick <= start.tick + events.len(),
    decreases events.len(),
{
    if events.len() > 0 {
        lemma_run_keeps_inv(start, events.drop_last());
        lemma_next_keeps_inv(run(start, events.drop_last()), events.last());
    }
}

/// Nothing is drawn before every answer of the step is in: when the
/// orchestrator wants the result drawn, or the keyboard looked at, it has
/// taken in as many answers as there are robots.
pub proof fn lemma_draws_complete_steps(state: State)
    requires
        state.inv(),
        state.wanted() == Action::Render || state.wanted() == Action::Poll,
    ensures
        state.collected == state.actors,
{
}

/// The orchestrator comes to want the result drawn in one way only: the
/// keyboard was looked at after the last answer came in, and no key asked
/// for the end of the run.
pub proof fn lemma_render_follows_poll(state: State, event: Event)
    requires
        state.inv(),
        state.phase != Phase::Rendering,
        state.next(event).wanted() == Action::Render,
    ensures
        state.phase == Phase::Polling,
        state.collected == state.actors,
        event is Polled,
        event->Polled_0 matches Some(key) ==> !quits(key),
{
}

/// Commands for a new step go out only when the step before is over: the
/// orchestrator comes to want them sent only by having the result drawn.
pub proof fn lemma_broadcast_follows_render(state: State, event: Event)
    requires
        state.inv(),
        state.phase != Phase::Idle,
        state.next(event).wanted() == Action::Broadcast,
    ensures
        state.phase == Phase::Rendering,
        event == Event::Drawn,
        state.collected == state.actors,
{
}

/// The counter never goes back. It goes up, by one, exactly when the
/// keyboard has been looked at after the last answer and the run goes on.
pub proof fn lemma_tick_counts_steps(state: State, event: Event)
    requires
        state.tick < Tick::MAX,
    ensures
        state.next(event).tick == state.tick || state.next(event).tick == state.tick + 1,
        state.next(event).tick == state.tick + 1 <==> state.next(event).phase == Phase::Rendering
            && state.phase == Phase::Polling,
{
}

/// Nothing ever leaves the trail: a cell that was on it before an event is
/// on it afterwards.
pub proof fn lemma_trail_only_grows(state: State, event: Event, p: Position)
    requires
        state.trail.contains_key(p),
    ensures
        state.next(event).trail.contains_key(p),
{
}

/// When an answer has been taken in, every cell that a robot stands on is
/// on the trail, seen at the current step.
pub proof fn lemma_answer_marks_robots(state: State, message: Message, id: u32)
    requires
        state.phase == Phase::Collecting,
        state.next(Event::Received(message)).positions.contains_key(id),
    ensures
        ({
            let after = state.next(Event::Received(message));
            &&& after.trail.contains_key(after.positions[id].coords)
            &&& after.trail[after.positions[id].coords] == state.tick
        }),
{
    let after = state.next(Event::Received(message));
    assert(occupied(after.positions, after.positions[id].coords));
}

/// A run that is over stays over: no event changes anything.
pub proof fn lemma_finished_is_final(state: State, event: Event)
    requires
        state.phase == Phase::Finished,
    ensures
        state.next(event) == state,
        state.wanted() == Action::Stop,
{
}

} // verus!
