//! The actor behind one robot: it answers every `Move` command with a
//! displacement drawn from a generator that is seeded with the robot's id.

use rand::rngs::StdRng;
use rand::Rng;
use rand::SeedableRng;
use vstd::prelude::*;

verus! {

/// What the orchestrator asks of an actor.
#[derive(Clone, Copy, Debug, PartialEq, Eq, Structural)]
pub enum Command {
    Move,
}

/// What an actor answers: the displacement it proposes for this step.
#[derive(Clone, Copy, Debug, PartialEq, Eq, Structural)]
pub enum Message {
    NewPosition { id: u32, dx: i32, dy: i32 },
}

/// `rand::rngs::StdRng`, the seedable generator of the `rand` crate. It is
/// carried through as it is: nothing inside it is visible to the proofs.
#[verifier::external_type_specification]
#[verifier::external_body]
pub struct ExStdRng(StdRng);

/// The generator that `StdRng::from_seed` builds from a seed of 32 bytes.
/// Nothing is known of it but that the same seed gives the same generator.
pub uninterp spec fn seeded(seed: Seq<u8>) -> StdRng;

/// What `Rng::gen_range(low..=high)` does to a generator: the number it
/// hands out, and the generator as it is left behind. Nothing is known of
/// either but that they are the same for the same generator and bounds.
pub uninterp spec fn drawn(rng: StdRng, low: int, high: int) -> (int, StdRng);

/// Calls `StdRng::from_seed` on the given seed. Taken on trust: the
/// generator that comes back depends on the seed and on nothing else.
#[verifier::external_body]
fn rng_from_seed(seed: [u8; 32]) -> (rng: StdRng)
    ensures
        rng == seeded(seed@),
{
    StdRng::from_seed(seed)
}

/// Calls `Rng::gen_range` on the inclusive range from `low` to `high`, which
/// must not be empty: on an empty range the call panics. Taken on trust:
/// the number lies in the range, and it and the state that the generator is
/// left in depend on the state before the call and the two bounds, and on
/// nothing else. That each number of the range is as likely as any other
/// is not stated: no contract here speaks of chance.
#[verifier::external_body]
fn draw_inclusive(rng: &mut StdRng, low: i32, high: i32) -> (value: i32)
    requires
        low <= high,
    ensures
        low <= value <= high,
        (value as int, *final(rng)) == drawn(*old(rng), low as int, high as int),
{
    rng.gen_range(low..=high)
}

/// The least displacement that an actor proposes on an axis.
pub const MIN_STEP: i32 = -1;

/// The greatest displacement that an actor proposes on an axis.
pub const MAX_STEP: i32 = 1;

/// How many bytes a seed has.
pub const SEED_LEN: usize = 32;

impl Message {
    /// The robot that the message is about.
    pub open spec fn sender(self) -> u32 {
        match self {
            Message::NewPosition { id, .. } => id,
        }
    }

    /// The message moves its robot by at most one cell on each axis.
    pub open spec fn is_step(self) -> bool {
        match self {
            Message::NewPosition { dx, dy, .. } => {
                &&& MIN_STEP <= dx <= MAX_STEP
                &&& MIN_STEP <= dy <= MAX_STEP
            },
        }
    }
}

/// The seed of the robot `id`: its lowest byte, 32 times over.
pub open spec fn seed_of(id: u32) -> Seq<u8> {
    Seq::new(SEED_LEN as nat, |i: int| (id % 256) as u8)
}

/// The actor of one robot.
pub struct Actor {
    id: u32,
    rng: StdRng,
}

impl Actor {
    /// The robot that the actor moves.
    pub closed spec fn robot(self) -> u32 {
        self.id
    }

    /// The generator in the state it is in now.
    pub closed spec fn generator(self) -> StdRng {
        self.rng
    }

    /// The actor of robot `id` before its first answer.
    pub closed spec fn fresh(id: u32) -> Actor {
        Actor { id, rng: seeded(seed_of(id)) }
    }

    /// The answer that the actor gives to the next command.
    pub closed spec fn reply(self) -> Message {
        let (dx, after_dx) = drawn(self.rng, MIN_STEP as int, MAX_STEP as int);
        let (dy, _) = drawn(after_dx, MIN_STEP as int, MAX_STEP as int);
        Message::NewPosition { id: self.id, dx: dx as i32, dy: dy as i32 }
    }

    /// The actor as the next command leaves it.
    pub closed spec fn after_reply(self) -> Actor {
        let (_, after_dx) = drawn(self.rng, MIN_STEP as int, MAX_STEP as int);
        let (_, after_dy) = drawn(after_dx, MIN_STEP as int, MAX_STEP as int);
        Actor { id: self.id, rng: after_dy }
    }

    /// The first `n` answers of the actor, in the order it gives them.
    pub open spec fn replies(self, n: nat) -> Seq<Message>
        decreases n,
    {
        if n == 0 {
            Seq::empty()
        } else {
            seq![self.reply()] + self.after_reply().replies((n - 1) as nat)
        }
    }

    /// Makes the actor of robot `id`, with a generator seeded by the id.
    pub fn new(id: u32) -> (actor: Actor)
        ensures
            actor == Actor::fresh(id),
            actor.robot() == id,
    {
        let byte: u8 = (id % 256) as u8;
        let seed: [u8; 32] = [byte; 32];
        assert(seed@ =~= seed_of(id));
        Actor { id, rng: rng_from_seed(seed) }
    }

    /// The robot that the actor moves.
    pub fn id(&self) -> (id: u32)
        ensures
            id == self.robot(),
    {
        self.id
    }

    /// Answers one command: draws the displacement on the x axis, then the
    /// one on the y axis, and reports both under the actor's id.
    pub fn handle(&mut self, command: Command) -> (message: Message)
        ensures
            message == old(self).reply(),
            *final(self) == old(self).after_reply(),
            message.sender() == old(self).robot(),
            message.is_step(),
            final(self).robot() == old(self).robot(),
    {
        match command {
            Command::Move => {
                let dx: i32 = draw_inclusive(&mut self.rng, MIN_STEP, MAX_STEP);
                let dy: i32 = draw_inclusive(&mut self.rng, MIN_STEP, MAX_STEP);
                Message::NewPosition { id: self.id, dx, dy }
            },
        }
    }
}

/// Two actors that were made for the same robot give the same answers,
/// step after step, however often the run is repeated.
pub proof fn lemma_same_robot_same_replies(id: u32, first: Actor, second: Actor, n: nat)
    requires
        first == Actor::fresh(id),
        second == Actor::fresh(id),
    ensures
        first.replies(n) == second.replies(n),
        first.replies(n).len() == n,
    decreases n,
{
    lemma_replies_len(first, n);
}

/// An actor gives as many answers as it is asked for.
pub proof fn lemma_replies_len(actor: Actor, n: nat)
    ensures
        actor.replies(n).len() == n,
    decreases n,
{
    if n > 0 {
        lemma_replies_len(actor.after_reply(), (n - 1) as nat);
    }
}

/// The seed is made of the lowest byte of the id alone: two robots whose
/// ids differ by a multiple of 256 have generators that start alike.
pub proof fn lemma_seed_uses_low_byte(a: u32, b: u32)
    requires
        a % 256 == b % 256,
    ensures
        seed_of(a) == seed_of(b),
        Actor::fresh(a).generator() == Actor::fresh(b).generator(),
{
}

} // verus!
