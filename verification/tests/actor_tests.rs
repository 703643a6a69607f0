use mars_robots::actor::{Actor, Command, Message, MAX_STEP, MIN_STEP};
use rand::rngs::StdRng;
use rand::Rng;
use rand::SeedableRng;

fn answers(id: u32, count: usize) -> Vec<Message> {
    let mut actor = Actor::new(id);
    (0..count).map(|_| actor.handle(Command::Move)).collect()
}

fn deltas(id: u32, count: usize) -> Vec<(i32, i32)> {
    answers(id, count)
        .into_iter()
        .map(|message| match message {
            Message::NewPosition { dx, dy, .. } => (dx, dy),
        })
        .collect()
}

#[test]
fn the_steps_of_an_actor_are_at_most_one_cell_long() {
    assert_eq!(MIN_STEP, -1);
    assert_eq!(MAX_STEP, 1);
    for id in [0, 1, 4, 255, 256, u32::MAX] {
        for (dx, dy) in deltas(id, 300) {
            assert!((-1..=1).contains(&dx));
            assert!((-1..=1).contains(&dy));
        }
    }
}

#[test]
fn every_answer_bears_the_id_of_its_actor() {
    for id in [0, 3, 77, u32::MAX] {
        let mut actor = Actor::new(id);
        assert_eq!(actor.id(), id);
        for _ in 0..20 {
            let Message::NewPosition { id: named, .. } = actor.handle(Command::Move);
            assert_eq!(named, id);
        }
        assert_eq!(actor.id(), id);
    }
}

#[test]
fn two_actors_of_one_robot_give_the_same_answers() {
    for id in 0..5 {
        assert_eq!(answers(id, 200), answers(id, 200));
    }
}

#[test]
fn an_actor_goes_on_where_it_stopped() {
    let whole = answers(2, 60);
    let mut actor = Actor::new(2);
    let first: Vec<Message> = (0..25).map(|_| actor.handle(Command::Move)).collect();
    let rest: Vec<Message> = (0..35).map(|_| actor.handle(Command::Move)).collect();
    assert_eq!(first, whole[..25]);
    assert_eq!(rest, whole[25..]);
}

#[test]
fn actors_of_different_robots_walk_differently() {
    for a in 0..5 {
        for b in (a + 1)..5 {
            assert_ne!(deltas(a, 100), deltas(b, 100));
        }
    }
}

#[test]
fn an_actor_uses_every_direction() {
    let walk = deltas(0, 400);
    for wanted in -1..=1 {
        assert!(walk.iter().any(|&(dx, _)| dx == wanted));
        assert!(walk.iter().any(|&(_, dy)| dy == wanted));
    }
    for dx in -1..=1 {
        for dy in -1..=1 {
            assert!(walk.contains(&(dx, dy)));
        }
    }
}

#[test]
fn the_seed_is_the_lowest_byte_of_the_id() {
    assert_eq!(deltas(0, 100), deltas(256, 100));
    assert_eq!(deltas(3, 100), deltas(3 + 512, 100));
    assert_eq!(deltas(255, 100), deltas(u32::MAX, 100));
    assert_ne!(deltas(0, 100), deltas(255, 100));
}

#[test]
fn an_actor_draws_from_the_generator_seeded_with_its_id() {
    for id in [0u32, 1, 2, 3, 4, 200, 300] {
        let mut rng = StdRng::from_seed([id as u8; 32]);
        let mut actor = Actor::new(id);
        for _ in 0..100 {
            let dx: i32 = rng.gen_range(-1..=1);
            let dy: i32 = rng.gen_range(-1..=1);
            assert_eq!(actor.handle(Command::Move), Message::NewPosition { id, dx, dy });
        }
    }
}

#[test]
fn the_first_answers_of_robot_zero() {
    assert_eq!(deltas(0, 5), vec![(0, -1), (1, 1), (-1, 0), (0, 1), (-1, 0)]);
}
