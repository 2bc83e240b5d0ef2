use vstd::prelude::*;

use crate::gene::{colour_phenotype, speed_phenotype, ColourGene, Speed};
use crate::random::random_below;
use crate::utils::{
    step_offset, translated, valid_extent, Direction, Point, FULL_TURN,
};

verus! {

/// Ticks a dead organism stays in the population before it is retired.
pub const GRACE_PERIOD: u32 = 14;

/// Age from which an organism moves at full speed.
pub const FULL_SPEED_AGE: u32 = 30;

/// Largest change of heading in one tick, in angle units (a 64th of a turn).
pub const MAX_TURN: u32 = 64;

/// Sub-units moved per tick at full speed, by speed tier.
pub const SLOW_STEP: u64 = 1500;
pub const MEDIUM_STEP: u64 = 2000;
pub const FAST_STEP: u64 = 2500;

/// One organism.
#[derive(Debug)]
pub struct Creature {
    pub id: u32,
    pub position: Point,
    pub direction: Direction,
    pub colour_genes: [ColourGene; 2],
    pub speed_genes: [Speed; 2],
    pub colour: ColourGene,
    pub speed: Speed,
    pub is_alive: bool,
    /// Ticks alive since this organism last reproduced.
    pub last_reproduced: u8,
    /// Ids of the parents; `[0, 0]` for a founder.
    pub parents: [u32; 2],
    pub offspring: Vec<u32>,
    /// Which way the organism is currently turning.
    pub last_turn: bool,
    pub age: u32,
}

/// Full-speed step of a speed tier, in sub-units.
pub open spec fn base_step(s: Speed) -> u64 {
    match s {
        Speed::Fast => FAST_STEP,
        Speed::Medium(_) => MEDIUM_STEP,
        Speed::Slow(_) => SLOW_STEP,
    }
}

/// Distance swum in one tick at age `age`: the full step scaled by
/// `min(age, 30) / 30`.
pub open spec fn swim_distance(s: Speed, age: u32) -> u64 {
    let a: u64 = if age < FULL_SPEED_AGE { age as u64 } else { FULL_SPEED_AGE as u64 };
    (base_step(s) * a / FULL_SPEED_AGE as int) as u64
}

pub open spec fn incremented32(v: u32) -> u32 {
    if v < u32::MAX { (v + 1) as u32 } else { v }
}

pub open spec fn incremented8(v: u8) -> u8 {
    if v < u8::MAX { (v + 1) as u8 } else { v }
}

/// Whether the turning bias flips, given the heading, the target bearing,
/// the current bias and a roll in `0..256`: likely (1 in 8) when the heading
/// lies on the side of the target that the bias turns away from, rarely
/// (1 in 64) otherwise.
pub open spec fn flips(direction: u32, target: u32, last_turn: bool, roll: u32) -> bool {
    ((direction < target) != last_turn && roll < 32) || roll < 4
}

/// The heading after turning by `turn`, left when `left` holds, wrapped into
/// `[0, FULL_TURN)`.
pub open spec fn turned(direction: u32, turn: u32, left: bool) -> u32 {
    if left {
        ((direction + turn) % FULL_TURN as int) as u32
    } else {
        ((direction - turn) % FULL_TURN as int) as u32
    }
}

/// `b` has the identity, genes and lineage of `a`.
pub open spec fn same_lineage(a: Creature, b: Creature) -> bool {
    a.id == b.id && a.colour_genes == b.colour_genes && a.speed_genes == b.speed_genes
        && a.colour == b.colour && a.speed == b.speed && a.parents == b.parents
        && a.offspring@ == b.offspring@
}

/// `b` is `a` after one tick towards bearing `target` with lifespan
/// `lifespan`, on a world `width` by `height`, with turn `turn` and roll `roll`.
pub open spec fn ticked(a: Creature, b: Creature, target: u32, lifespan: u32, width: u64, height: u64,
    turn: u32, roll: u32) -> bool {
    &&& same_lineage(a, b)
    &&& b.age == incremented32(a.age)
    &&& b.is_alive == (a.is_alive && b.age <= lifespan)
    &&& if b.is_alive {
        &&& b.last_reproduced == incremented8(a.last_reproduced)
        &&& b.position == translated(a.position, step_offset(a.direction, swim_distance(a.speed, b.age)).0,
            step_offset(a.direction, swim_distance(a.speed, b.age)).1, width, height)
        &&& b.last_turn == (a.last_turn != flips(a.direction, target, a.last_turn, roll))
        &&& b.direction == turned(a.direction, turn, b.last_turn)
    } else {
        &&& b.last_reproduced == a.last_reproduced
        &&& b.position == a.position
        &&& b.last_turn == a.last_turn
        &&& b.direction == a.direction
    }
}

/// A living organism that ticks to age `lifespan` is still alive, and one
/// that ticks to age `lifespan + 1` is dead.
pub proof fn lemma_age_gated_death(a: Creature, b: Creature, target: u32, lifespan: u32, width: u64, height: u64,
    turn: u32, roll: u32)
    requires
        ticked(a, b, target, lifespan, width, height, turn, roll),
        a.is_alive,
        a.age < u32::MAX,
    ensures
        b.age == a.age + 1,
        b.age == lifespan ==> b.is_alive,
        b.age == lifespan + 1 ==> !b.is_alive,
{
}

impl Creature {
    /// The phenotypes match the genes, the position is in range and the
    /// heading lies within one turn.
    pub open spec fn wf(&self) -> bool {
        &&& self.colour == colour_phenotype(self.colour_genes@[0], self.colour_genes@[1])
        &&& self.speed == speed_phenotype(self.speed_genes@[0], self.speed_genes@[1])
        &&& self.position.bounded()
        &&& self.direction < FULL_TURN
    }

    /// A newborn with id `id`: alive, of age 0, with no offspring.
    pub open spec fn newborn(&self, id: u32) -> bool {
        &&& self.wf()
        &&& self.id == id
        &&& self.is_alive
        &&& self.age == 0
        &&& self.last_reproduced == 0
        &&& self.offspring@.len() == 0
        &&& !self.last_turn
    }

    /// An organism with the given id, position, heading, genes and parents
    /// (`None` for a founder); its phenotypes are derived from the genes.
    pub fn new(
        id: u32,
        position: Point,
        direction: Direction,
        colour_genes: [ColourGene; 2],
        speed_genes: [Speed; 2],
        parents: Option<[u32; 2]>,
    ) -> (r: Creature)
        requires
            position.bounded(),
            direction < FULL_TURN,
        ensures
            r.newborn(id),
            r.position == position,
            r.direction == direction,
            r.colour_genes == colour_genes,
            r.speed_genes == speed_genes,
            r.parents == match parents {
                Some(p) => p,
                None => [0u32, 0u32],
            },
    {
        let ps = match parents {
            Some(p) => p,
            None => [0, 0],
        };
        Creature {
            id,
            position,
            direction,
            colour_genes,
            speed_genes,
            colour: ColourGene::colour(colour_genes[0], colour_genes[1]),
            speed: Speed::speed(speed_genes[0], speed_genes[1]),
            is_alive: true,
            last_reproduced: 0,
            parents: ps,
            offspring: Vec::new(),
            last_turn: false,
            age: 0,
        }
    }

    /// A founder with id `id`: random genes, position and heading.
    pub fn new_random(id: u32, width: u64, height: u64) -> (r: Creature)
        requires
            valid_extent(width, height),
        ensures
            r.newborn(id),
            r.position.within(width, height),
            r.parents == [0u32, 0u32],
    {
        let position = Point::new_random(width, height);
        let direction = random_below(FULL_TURN as u64) as u32;
        let colour_genes = [ColourGene::new_random(), ColourGene::new_random()];
        let speed_genes = [Speed::new_random(), Speed::new_random()];
        Creature::new(id, position, direction, colour_genes, speed_genes, None)
    }

    /// A child with id `id` of `first` and `second`, at their midpoint, with
    /// one allele per trait chosen at random from each parent.
    pub fn from_parents(id: u32, first: &Creature, second: &Creature) -> (r: Creature)
        requires
            first.position.bounded(),
            second.position.bounded(),
        ensures
            r.newborn(id),
            r.position == first.position.midpoint_spec(second.position),
            r.parents == [first.id, second.id],
            first.colour_genes@.contains(r.colour_genes@[0]),
            second.colour_genes@.contains(r.colour_genes@[1]),
            first.speed_genes@.contains(r.speed_genes@[0]),
            second.speed_genes@.contains(r.speed_genes@[1]),
    {
        let position = first.position.midpoint(&second.position);
        let direction = random_below(FULL_TURN as u64) as u32;
        let c0 = first.colour_genes[random_below(2) as usize];
        let c1 = second.colour_genes[random_below(2) as usize];
        let s0 = first.speed_genes[random_below(2) as usize];
        let s1 = second.speed_genes[random_below(2) as usize];
        let r = Creature::new(id, position, direction, [c0, c1], [s0, s1], Some([first.id, second.id]));
        assert(r.colour_genes@[0] == c0 && r.colour_genes@[1] == c1);
        assert(r.speed_genes@[0] == s0 && r.speed_genes@[1] == s1);
        r
    }

    /// The distance this organism swims in a tick.
    fn swim_step(&self) -> (r: u64)
        ensures
            r == swim_distance(self.speed, self.age),
            r <= FAST_STEP,
    {
        let base = match self.speed {
            Speed::Fast => FAST_STEP,
            Speed::Medium(_) => MEDIUM_STEP,
            Speed::Slow(_) => SLOW_STEP,
        };
        let a: u64 = if self.age < FULL_SPEED_AGE { self.age as u64 } else { FULL_SPEED_AGE as u64 };
        assert(base * a / 30 <= FAST_STEP) by (nonlinear_arith)
            requires base <= FAST_STEP, a <= 30;
        base * a / FULL_SPEED_AGE as u64
    }

    /// Moves the organism one tick's swim along its heading.
    fn swim(&mut self, width: u64, height: u64)
        requires
            valid_extent(width, height),
        ensures
            final(self).position == translated(old(self).position,
                step_offset(old(self).direction, swim_distance(old(self).speed, old(self).age)).0,
                step_offset(old(self).direction, swim_distance(old(self).speed, old(self).age)).1,
                width, height),
            final(self).position.within(width, height),
            final(self).id == old(self).id,
            final(self).direction == old(self).direction,
            final(self).colour_genes == old(self).colour_genes,
            final(self).speed_genes == old(self).speed_genes,
            final(self).colour == old(self).colour,
            final(self).speed == old(self).speed,
            final(self).is_alive == old(self).is_alive,
            final(self).last_reproduced == old(self).last_reproduced,
            final(self).parents == old(self).parents,
            final(self).offspring@ == old(self).offspring@,
            final(self).last_turn == old(self).last_turn,
            final(self).age == old(self).age,
    {
        let distance = self.swim_step();
        self.position.translate3(self.direction, distance, width, height);
    }

    /// One tick with the turn `turn` and the roll `roll` given: ages the
    /// organism and kills it past `lifespan`; a living organism then swims,
    /// may flip its turning bias, and turns by `turn`.
    pub fn tick_with(&mut self, target: Direction, lifespan: u32, width: u64, height: u64, turn: u32, roll: u32)
        requires
            old(self).wf(),
            valid_extent(width, height),
            turn < FULL_TURN,
        ensures
            ticked(*old(self), *final(self), target, lifespan, width, height, turn, roll),
            final(self).wf(),
    {
        if self.age < u32::MAX {
            self.age += 1;
        }
        if self.age > lifespan {
            self.is_alive = false;
        }
        if !self.is_alive {
            return;
        }
        if self.last_reproduced < u8::MAX {
            self.last_reproduced += 1;
        }
        self.swim(width, height);
        if ((self.direction < target) != self.last_turn && roll < 32) || roll < 4 {
            self.last_turn = !self.last_turn;
        }
        if self.last_turn {
            self.direction = (self.direction + turn) % FULL_TURN;
        } else {
            self.direction = (self.direction + FULL_TURN - turn) % FULL_TURN;
        }
    }

    /// One tick towards bearing `target`, with a random turn of less than
    /// `MAX_TURN` and a random roll for the turning bias.
    pub fn tick(&mut self, target: Direction, lifespan: u32, width: u64, height: u64)
        requires
            old(self).wf(),
            valid_extent(width, height),
        ensures
            exists|turn: u32, roll: u32| turn < MAX_TURN && roll < 256
                && #[trigger] ticked(*old(self), *final(self), target, lifespan, width, height, turn, roll),
            final(self).wf(),
    {
        let turn = random_below(MAX_TURN as u64) as u32;
        let roll = random_below(256) as u32;
        self.tick_with(target, lifespan, width, height, turn, roll);
    }
}

} // verus!
