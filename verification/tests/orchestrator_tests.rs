use mars_robots::actor::{Actor, Command, Message};
use mars_robots::decay::TrailColor;
use mars_robots::error::SimulationError;
use mars_robots::grid::{draw_map, initialize_positions, CellType, Robot};
use mars_robots::keys::{Key, KeyKind, KeyPress};
use mars_robots::orchestrator::{
    Action, Event, Orchestrator, Phase, POLL_MILLIS, TICK_MILLIS,
};
use mars_robots::renderer::Status;

fn step_by(id: u32, dx: i32, dy: i32) -> Event {
    Event::Received(Message::NewPosition { id, dx, dy })
}

fn key(code: Key, kind: KeyKind) -> Event {
    Event::Polled(Some(KeyPress { code, kind }))
}

fn at(robots: &[(u32, (i32, i32))]) -> Orchestrator {
    let list: Vec<Robot> = robots.iter().map(|&(id, coords)| Robot { id, coords }).collect();
    Orchestrator::new(initialize_positions(&list)).unwrap()
}

fn place_of(orchestrator: &Orchestrator, id: u32) -> (i32, i32) {
    orchestrator.positions()[&id].coords
}

fn robot_cells(orchestrator: &Orchestrator) -> Vec<((i32, i32), u32)> {
    let mut cells = Vec::new();
    for (y, row) in orchestrator.map().iter().enumerate() {
        for (x, cell) in row.iter().enumerate() {
            if let CellType::Robot(id) = cell {
                cells.push(((x as i32, y as i32), *id));
            }
        }
    }
    cells
}

fn trail_of(orchestrator: &Orchestrator) -> Vec<((i32, i32), u64)> {
    let mut entries = orchestrator.trail().entries();
    entries.sort();
    entries
}

fn whole_step(orchestrator: &mut Orchestrator, moves: &[(u32, i32, i32)]) {
    assert_eq!(orchestrator.step(Event::Sent), Action::Receive);
    for (i, &(id, dx, dy)) in moves.iter().enumerate() {
        let action = orchestrator.step(step_by(id, dx, dy));
        if i + 1 < moves.len() {
            assert_eq!(action, Action::Receive);
        } else {
            assert_eq!(action, Action::Poll);
        }
    }
    assert_eq!(orchestrator.step(Event::Polled(None)), Action::Render);
    assert_eq!(orchestrator.step(Event::Drawn), Action::Broadcast);
}

#[test]
fn the_waits_of_a_step() {
    assert_eq!(POLL_MILLIS, 100);
    assert_eq!(TICK_MILLIS, 10);
}

#[test]
fn a_run_starts_idle_at_step_zero() {
    let orchestrator = Orchestrator::start(5).unwrap();
    assert_eq!(orchestrator.phase(), Phase::Idle);
    assert_eq!(orchestrator.pending(), Action::Broadcast);
    assert_eq!(orchestrator.status(), Status::Continue);
    assert_eq!(orchestrator.tick(), 0);
    assert_eq!(orchestrator.actors(), 5);
    assert_eq!(orchestrator.collected(), 0);
    assert!(orchestrator.trail().entries().is_empty());
    assert_eq!(orchestrator.positions().len(), 5);
    for id in 0..5 {
        assert_eq!(orchestrator.positions()[&id], Robot { id, coords: (10, 10) });
    }
    let cells = robot_cells(&orchestrator);
    assert_eq!(cells.len(), 1);
    assert_eq!(cells[0].0, (10, 10));
}

#[test]
fn five_robots_that_stand_still_stay_stacked_at_the_start() {
    let mut orchestrator = Orchestrator::start(5).unwrap();
    whole_step(&mut orchestrator, &[(0, 0, 0), (1, 0, 0), (2, 0, 0), (3, 0, 0), (4, 0, 0)]);
    for id in 0..5 {
        assert_eq!(place_of(&orchestrator, id), (10, 10));
    }
    let cells = robot_cells(&orchestrator);
    assert_eq!(cells.len(), 1);
    assert_eq!(cells[0].0, (10, 10));
    assert!(cells[0].1 < 5);
    assert_eq!(trail_of(&orchestrator), vec![((10, 10), 0)]);
    assert_eq!(orchestrator.tick(), 1);
    let text = draw_map(orchestrator.map()).unwrap();
    let marks: usize = text.iter().flatten().filter(|c| **c != ' ').count();
    assert_eq!(marks, 1);
    assert!("@%#*+".contains(text[10][10]));
}

#[test]
fn more_robots_than_markers_are_refused() {
    assert!(matches!(Orchestrator::start(6), Err(SimulationError::UnsupportedAgentId(5))));
    match Orchestrator::start(9) {
        Err(SimulationError::UnsupportedAgentId(id)) => assert!((5..9).contains(&id)),
        Err(other) => panic!("unexpected error {:?}", other),
        Ok(_) => panic!("nine robots were accepted"),
    }
    assert!(Orchestrator::start(5).is_ok());
    assert!(Orchestrator::start(0).is_ok());
}

#[test]
fn a_registry_with_a_robot_without_a_marker_is_refused() {
    let positions = initialize_positions(&vec![
        Robot { id: 1, coords: (1, 1) },
        Robot { id: 12, coords: (2, 2) },
    ]);
    assert!(matches!(
        Orchestrator::new(positions),
        Err(SimulationError::UnsupportedAgentId(12))
    ));
}

#[test]
fn a_step_moves_every_robot_and_counts() {
    let mut orchestrator = at(&[(0, (10, 10)), (1, (0, 0)), (2, (19, 19))]);
    assert_eq!(orchestrator.step(Event::Sent), Action::Receive);
    assert_eq!(orchestrator.phase(), Phase::Collecting);
    assert_eq!(orchestrator.step(step_by(2, 1, 1)), Action::Receive);
    assert_eq!(orchestrator.collected(), 1);
    assert_eq!(orchestrator.step(step_by(0, 1, -1)), Action::Receive);
    assert_eq!(orchestrator.collected(), 2);
    assert_eq!(orchestrator.step(step_by(1, -1, -1)), Action::Poll);
    assert_eq!(orchestrator.collected(), 3);
    assert_eq!(orchestrator.phase(), Phase::Polling);
    assert_eq!(orchestrator.tick(), 0);
    assert_eq!(orchestrator.step(Event::Polled(None)), Action::Render);
    assert_eq!(orchestrator.phase(), Phase::Rendering);
    assert_eq!(orchestrator.tick(), 1);
    assert_eq!(place_of(&orchestrator, 0), (11, 9));
    assert_eq!(place_of(&orchestrator, 1), (0, 0));
    assert_eq!(place_of(&orchestrator, 2), (19, 19));
    assert_eq!(robot_cells(&orchestrator), vec![((0, 0), 1), ((11, 9), 0), ((19, 19), 2)]);
    assert_eq!(orchestrator.step(Event::Drawn), Action::Broadcast);
    assert_eq!(orchestrator.phase(), Phase::Idle);
    assert_eq!(orchestrator.status(), Status::Continue);
}

#[test]
fn nothing_is_drawn_before_every_answer_is_in() {
    let mut orchestrator = Orchestrator::start(5).unwrap();
    assert_eq!(orchestrator.step(Event::Sent), Action::Receive);
    for id in 0..5u32 {
        assert_eq!(orchestrator.pending(), Action::Receive);
        assert_eq!(orchestrator.step(Event::Drawn), Action::Receive);
        assert_eq!(orchestrator.step(Event::Polled(None)), Action::Receive);
        assert_eq!(orchestrator.step(key(Key::Esc, KeyKind::Press)), Action::Receive);
        assert_eq!(orchestrator.step(Event::Sent), Action::Receive);
        assert_eq!(orchestrator.collected(), id as usize);
        assert_eq!(orchestrator.tick(), 0);
        let action = orchestrator.step(step_by(id, 1, 0));
        assert_ne!(action, Action::Render);
        assert_eq!(action, if id < 4 { Action::Receive } else { Action::Poll });
    }
    assert_eq!(orchestrator.collected(), orchestrator.actors());
    assert_eq!(orchestrator.step(Event::Polled(None)), Action::Render);
    assert_eq!(orchestrator.collected(), 5);
}

#[test]
fn events_that_are_not_waited_for_change_nothing() {
    let mut orchestrator = at(&[(0, (5, 5))]);
    assert_eq!(orchestrator.step(step_by(0, 1, 1)), Action::Broadcast);
    assert_eq!(orchestrator.step(Event::Polled(None)), Action::Broadcast);
    assert_eq!(orchestrator.step(key(Key::Char('q'), KeyKind::Press)), Action::Broadcast);
    assert_eq!(orchestrator.step(Event::Drawn), Action::Broadcast);
    assert_eq!(place_of(&orchestrator, 0), (5, 5));
    assert_eq!(orchestrator.tick(), 0);
    assert!(orchestrator.trail().entries().is_empty());
    assert_eq!(orchestrator.step(Event::Sent), Action::Receive);
    assert_eq!(orchestrator.step(step_by(0, 1, 1)), Action::Poll);
    assert_eq!(orchestrator.step(step_by(0, 1, 1)), Action::Poll);
    assert_eq!(orchestrator.step(Event::Sent), Action::Poll);
    assert_eq!(orchestrator.step(Event::Drawn), Action::Poll);
    assert_eq!(place_of(&orchestrator, 0), (6, 6));
    assert_eq!(orchestrator.collected(), 1);
    assert_eq!(orchestrator.step(Event::Polled(None)), Action::Render);
    assert_eq!(orchestrator.step(Event::Polled(None)), Action::Render);
    assert_eq!(orchestrator.step(step_by(0, 1, 1)), Action::Render);
    assert_eq!(orchestrator.step(Event::Sent), Action::Render);
    assert_eq!(orchestrator.tick(), 1);
    assert_eq!(place_of(&orchestrator, 0), (6, 6));
}

#[test]
fn a_key_that_asks_for_it_ends_the_run() {
    for code in [Key::Char('q'), Key::Enter, Key::Esc] {
        let mut orchestrator = at(&[(0, (5, 5))]);
        orchestrator.step(Event::Sent);
        orchestrator.step(step_by(0, 0, 1));
        assert_eq!(orchestrator.step(key(code, KeyKind::Press)), Action::Stop);
        assert_eq!(orchestrator.phase(), Phase::Finished);
        assert_eq!(orchestrator.status(), Status::Finish);
        assert_eq!(orchestrator.tick(), 0);
        assert_eq!(place_of(&orchestrator, 0), (5, 6));
    }
}

#[test]
fn other_keys_let_the_step_end_as_usual() {
    let events = [
        key(Key::Char('x'), KeyKind::Press),
        key(Key::Other, KeyKind::Press),
        key(Key::Char('q'), KeyKind::Release),
        key(Key::Esc, KeyKind::Release),
        Event::Polled(None),
    ];
    let mut orchestrator = at(&[(0, (5, 5))]);
    for (i, event) in events.iter().enumerate() {
        orchestrator.step(Event::Sent);
        orchestrator.step(step_by(0, 0, 0));
        assert_eq!(orchestrator.step(*event), Action::Render);
        assert_eq!(orchestrator.tick(), i as u64 + 1);
        assert_eq!(orchestrator.step(Event::Drawn), Action::Broadcast);
    }
}

#[test]
fn a_run_that_is_over_stays_over() {
    let mut orchestrator = at(&[(0, (5, 5))]);
    orchestrator.step(Event::Sent);
    orchestrator.step(step_by(0, 1, 0));
    orchestrator.step(key(Key::Esc, KeyKind::Press));
    let trail = trail_of(&orchestrator);
    for event in [Event::Sent, step_by(0, 1, 1), Event::Polled(None), Event::Drawn] {
        assert_eq!(orchestrator.step(event), Action::Stop);
        assert_eq!(orchestrator.pending(), Action::Stop);
        assert_eq!(orchestrator.status(), Status::Finish);
        assert_eq!(orchestrator.tick(), 0);
        assert_eq!(place_of(&orchestrator, 0), (6, 5));
        assert_eq!(trail_of(&orchestrator), trail);
    }
}

#[test]
fn a_run_without_robots_goes_straight_to_the_keyboard() {
    let mut orchestrator = Orchestrator::start(0).unwrap();
    assert_eq!(orchestrator.actors(), 0);
    assert_eq!(orchestrator.step(Event::Sent), Action::Poll);
    assert_eq!(orchestrator.step(Event::Polled(None)), Action::Render);
    assert_eq!(orchestrator.step(Event::Drawn), Action::Broadcast);
    assert_eq!(orchestrator.tick(), 1);
    assert!(robot_cells(&orchestrator).is_empty());
    assert!(orchestrator.trail().entries().is_empty());
}

#[test]
fn an_answer_for_an_unknown_robot_is_counted_and_moves_nobody() {
    let mut orchestrator = at(&[(0, (5, 5)), (1, (6, 6))]);
    orchestrator.step(Event::Sent);
    assert_eq!(orchestrator.step(step_by(9, 1, 1)), Action::Receive);
    assert_eq!(orchestrator.collected(), 1);
    assert_eq!(orchestrator.step(step_by(4, -1, -1)), Action::Poll);
    assert_eq!(place_of(&orchestrator, 0), (5, 5));
    assert_eq!(place_of(&orchestrator, 1), (6, 6));
    assert_eq!(orchestrator.positions().len(), 2);
    assert_eq!(trail_of(&orchestrator), vec![((5, 5), 0), ((6, 6), 0)]);
}

#[test]
fn every_answer_marks_the_cells_of_all_robots() {
    let mut orchestrator = at(&[(0, (5, 5)), (1, (8, 8))]);
    orchestrator.step(Event::Sent);
    orchestrator.step(step_by(0, 1, 0));
    assert_eq!(trail_of(&orchestrator), vec![((6, 5), 0), ((8, 8), 0)]);
    orchestrator.step(step_by(1, 0, 1));
    assert_eq!(trail_of(&orchestrator), vec![((6, 5), 0), ((8, 8), 0), ((8, 9), 0)]);
    orchestrator.step(Event::Polled(None));
    orchestrator.step(Event::Drawn);
    whole_step(&mut orchestrator, &[(1, 0, 1), (0, 0, 0)]);
    assert_eq!(
        trail_of(&orchestrator),
        vec![((6, 5), 1), ((8, 8), 0), ((8, 9), 0), ((8, 10), 1)]
    );
    assert_eq!(orchestrator.tick(), 2);
}

#[test]
fn the_trail_fades_as_the_steps_go_by() {
    let mut orchestrator = at(&[(0, (0, 0))]);
    whole_step(&mut orchestrator, &[(0, 1, 0)]);
    assert_eq!(orchestrator.trail_colors(), vec![((1, 0), TrailColor::Red)]);
    for _ in 0..5 {
        whole_step(&mut orchestrator, &[(0, 1, 0)]);
    }
    assert_eq!(orchestrator.tick(), 6);
    let mut colors = orchestrator.trail_colors();
    colors.sort_by_key(|mark| mark.0);
    assert_eq!(
        colors,
        vec![
            ((1, 0), TrailColor::LightRed),
            ((2, 0), TrailColor::Red),
            ((3, 0), TrailColor::Red),
            ((4, 0), TrailColor::Red),
            ((5, 0), TrailColor::Red),
            ((6, 0), TrailColor::Red),
        ]
    );
}

#[test]
fn robots_never_leave_the_grid_in_a_long_run() {
    let mut orchestrator = Orchestrator::start(5).unwrap();
    let mut actors: Vec<Actor> = (0..5).map(Actor::new).collect();
    for tick in 0..400u64 {
        assert_eq!(orchestrator.step(Event::Sent), Action::Receive);
        for actor in actors.iter_mut().rev() {
            orchestrator.step(Event::Received(actor.handle(Command::Move)));
        }
        assert_eq!(orchestrator.pending(), Action::Poll);
        assert_eq!(orchestrator.step(Event::Polled(None)), Action::Render);
        assert_eq!(orchestrator.tick(), tick + 1);
        assert_eq!(orchestrator.positions().len(), 5);
        for id in 0..5u32 {
            let (x, y) = place_of(&orchestrator, id);
            assert!((0..20).contains(&x) && (0..20).contains(&y));
            assert_eq!(orchestrator.trail().last_seen((x, y)), Some(tick));
        }
        let cells = robot_cells(&orchestrator);
        let mut places: Vec<(i32, i32)> =
            (0..5u32).map(|id| place_of(&orchestrator, id)).collect();
        places.sort();
        places.dedup();
        assert_eq!(cells.len(), places.len());
        for (place, id) in cells {
            assert_eq!(place_of(&orchestrator, id), place);
        }
        assert_eq!(orchestrator.step(Event::Drawn), Action::Broadcast);
    }
}

#[test]
fn the_same_run_twice_ends_in_the_same_places() {
    let run = || {
        let mut orchestrator = Orchestrator::start(5).unwrap();
        let mut actors: Vec<Actor> = (0..5).map(Actor::new).collect();
        for _ in 0..100 {
            orchestrator.step(Event::Sent);
            for actor in actors.iter_mut() {
                orchestrator.step(Event::Received(actor.handle(Command::Move)));
            }
            orchestrator.step(Event::Polled(None));
            orchestrator.step(Event::Drawn);
        }
        let places: Vec<(i32, i32)> = (0..5u32).map(|id| place_of(&orchestrator, id)).collect();
        (places, trail_of(&orchestrator))
    };
    assert_eq!(run(), run());
}
