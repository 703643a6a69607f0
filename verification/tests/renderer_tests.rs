use mars_robots::actor::{Actor, Command};
use mars_robots::error::SimulationError;
use mars_robots::keys::{Key, KeyKind, KeyPress};
use mars_robots::orchestrator::{Action, Event, Orchestrator};
use mars_robots::renderer::{Renderer, Status};

struct Scripted {
    core: Orchestrator,
    actors: Vec<Actor>,
    keys: Vec<Option<KeyPress>>,
    frames: Vec<u64>,
}

impl Scripted {
    fn new(count: u32, keys: Vec<Option<KeyPress>>) -> Result<Scripted, SimulationError> {
        Ok(Scripted {
            core: Orchestrator::start(count)?,
            actors: (0..count).map(Actor::new).collect(),
            keys,
            frames: Vec::new(),
        })
    }
}

impl Renderer for Scripted {
    fn update(&mut self) -> Result<Status, SimulationError> {
        let mut answered = 0;
        loop {
            match self.core.pending() {
                Action::Broadcast => {
                    answered = 0;
                    self.core.step(Event::Sent);
                }
                Action::Receive => {
                    let message = self.actors[answered].handle(Command::Move);
                    answered += 1;
                    self.core.step(Event::Received(message));
                }
                Action::Poll => {
                    if self.keys.is_empty() {
                        return Err(SimulationError::Io(String::from("no keyboard")));
                    }
                    let found = self.keys.remove(0);
                    self.core.step(Event::Polled(found));
                }
                Action::Render => {
                    assert_eq!(answered, self.actors.len());
                    self.frames.push(self.core.tick());
                    self.core.step(Event::Drawn);
                    return Ok(Status::Continue);
                }
                Action::Stop => return Ok(Status::Finish),
            }
        }
    }
}

struct Still;

impl Renderer for Still {
    fn update(&mut self) -> Result<Status, SimulationError> {
        Ok(Status::Finish)
    }
}

#[test]
fn a_renderer_runs_until_a_key_ends_it() {
    let quit = KeyPress { code: Key::Char('q'), kind: KeyKind::Press };
    let other = KeyPress { code: Key::Char('w'), kind: KeyKind::Press };
    let mut renderer = Scripted::new(5, vec![None, Some(other), None, Some(quit), None]).unwrap();
    let mut updates = 0;
    loop {
        updates += 1;
        if renderer.update() == Ok(Status::Finish) {
            break;
        }
    }
    assert_eq!(updates, 4);
    assert_eq!(renderer.frames, vec![1, 2, 3]);
    assert_eq!(renderer.core.tick(), 3);
    assert_eq!(renderer.keys, vec![None]);
    assert_eq!(renderer.update(), Ok(Status::Finish));
    renderer.clean();
}

#[test]
fn a_renderer_hands_on_the_failure_of_its_terminal() {
    let mut renderer = Scripted::new(2, vec![None]).unwrap();
    assert_eq!(renderer.update(), Ok(Status::Continue));
    assert_eq!(renderer.update(), Err(SimulationError::Io(String::from("no keyboard"))));
}

#[test]
fn a_renderer_for_too_many_robots_cannot_be_made() {
    assert!(matches!(
        Scripted::new(6, Vec::new()),
        Err(SimulationError::UnsupportedAgentId(5))
    ));
}

#[test]
fn clean_does_nothing_unless_a_renderer_says_otherwise() {
    let mut renderer = Still;
    renderer.clean();
    assert_eq!(renderer.update(), Ok(Status::Finish));
}
