use vstd::prelude::*;

use vstd::seq_lib::to_multiset_contains;

use crate::config::Config;
use crate::gene::{colour_of_rank, colour_rank, ColourGene};
use crate::creature::{Creature, GRACE_PERIOD, MAX_TURN, ticked};
use crate::random::{random_below, shuffle_creatures};
use crate::utils::{bearing, Direction, Point, FULL_TURN};

verus! {

/// Age from which an organism may breed.
pub const BREEDING_AGE: u32 = 50;

/// Ticks since its last breeding before an organism may seek a mate.
pub const COOLDOWN: u8 = 30;

/// Ticks since its last breeding before an organism may be chosen as a mate.
pub const MATE_COOLDOWN: u8 = 15;

/// Largest distance between mates, in sub-units (25 distance units).
pub const MATING_RADIUS: u64 = 25_000;

/// One offspring per this many organisms (rounded up) may be born in a pass.
pub const BATCH_DIVISOR: usize = 20;

/// The population and the wandering point it is drawn towards.
pub struct World {
    pub creatures: Vec<Creature>,
    pub frame_counter: u8,
    pub selected: Option<u32>,
    /// Heading of the attractor's drift.
    pub direction: Direction,
    /// The attractor.
    pub focus: Point,
    /// The last id handed out; 0 is never an organism's id.
    pub last_id: u32,
}

/// Squared straight-line distance between two positions.
pub open spec fn dist_sq(p: Point, q: Point) -> int {
    (p.x - q.x) * (p.x - q.x) + (p.y - q.y) * (p.y - q.y)
}

/// Close enough to mate.
pub open spec fn in_mating_range(a: Creature, b: Creature) -> bool {
    dist_sq(a.position, b.position) <= MATING_RADIUS * MATING_RADIUS
}

/// May seek a mate: alive, of breeding age, rested for `COOLDOWN` ticks.
pub open spec fn seeks_mate(c: Creature) -> bool {
    c.is_alive && c.age >= BREEDING_AGE && c.last_reproduced >= COOLDOWN
}

/// May be chosen as a mate: alive, of breeding age, rested for
/// `MATE_COOLDOWN` ticks.
pub open spec fn can_mate(c: Creature) -> bool {
    c.is_alive && c.age >= BREEDING_AGE && c.last_reproduced >= MATE_COOLDOWN
}

/// `a < b` index a seeker and a later mate within range in `s`.
pub open spec fn mating_pair(s: Seq<Creature>, a: int, b: int) -> bool {
    0 <= a < b < s.len() && seeks_mate(s[a]) && can_mate(s[b]) && in_mating_range(s[a], s[b])
}

/// Some seeker in `s` has a later mate within range.
pub open spec fn has_mating_pair(s: Seq<Creature>) -> bool {
    exists|a: int, b: int| #[trigger] mating_pair(s, a, b)
}

/// Most offspring one pass over `n` organisms admits: `n / 20`, rounded up.
pub open spec fn batch_cap(n: int) -> int {
    (n + BATCH_DIVISOR - 1) / BATCH_DIVISOR as int
}

/// Among the organisms strictly between `i` and `j` that can mate, the one
/// nearest to organism `i` (the first of the nearest on a tie).
pub open spec fn nearest_upto(s: Seq<Creature>, i: int, j: int) -> Option<int>
    decreases j - i,
{
    if j <= i + 1 {
        None
    } else {
        let prev = nearest_upto(s, i, j - 1);
        let k = j - 1;
        if !can_mate(s[k]) {
            prev
        } else {
            match prev {
                Some(r) => if dist_sq(s[i].position, s[k].position) < dist_sq(s[i].position, s[r].position) {
                    Some(k)
                } else {
                    Some(r)
                },
                None => Some(k),
            }
        }
    }
}

/// The mate organism `i` of `s` is paired with: the nearest later organism
/// that can mate, if it is within range.
pub open spec fn chosen_mate(s: Seq<Creature>, i: int) -> Option<int> {
    match nearest_upto(s, i, s.len() as int) {
        Some(j) => if in_mating_range(s[i], s[j]) { Some(j) } else { None },
        None => None,
    }
}

/// `c` with its rest counter reset.
pub open spec fn rested(c: Creature) -> Creature {
    Creature { last_reproduced: 0, ..c }
}

/// The most newborns a pass over `n` organisms, with `last0` the last id
/// handed out, can admit.
pub open spec fn birth_limit(n: int, last0: u32) -> int {
    if batch_cap(n) <= u32::MAX - last0 { batch_cap(n) } else { u32::MAX - last0 }
}

/// The pairs, in order, that the walk over `s` from index `i` forms, with
/// `born` newborns so far and at most `limit` in all: each organism that may
/// seek a mate and has a chosen mate forms a pair, after which both rest.
pub open spec fn pass_pairs(s: Seq<Creature>, i: int, born: int, limit: int) -> Seq<(int, int)>
    decreases s.len() - i,
    via pass_pairs_decreases
{
    if i < 0 || i >= s.len() || born >= limit {
        Seq::empty()
    } else if seeks_mate(s[i]) && chosen_mate(s, i) is Some {
        let j = chosen_mate(s, i)->0;
        seq![(i, j)] + pass_pairs(s.update(i, rested(s[i])).update(j, rested(s[j])), i + 1, born + 1, limit)
    } else {
        pass_pairs(s, i + 1, born, limit)
    }
}

#[via_fn]
proof fn pass_pairs_decreases(s: Seq<Creature>, i: int, born: int, limit: int) {
    if !(i < 0 || i >= s.len() || born >= limit) && seeks_mate(s[i]) && chosen_mate(s, i) is Some {
        let j = chosen_mate(s, i)->0;
        lemma_nearest_range(s, i, s.len() as int);
        assert(s.update(i, rested(s[i])).update(j, rested(s[j])).len() == s.len());
    }
}

/// The fields that pairing reads agree.
pub open spec fn pairing_agrees(a: Creature, b: Creature) -> bool {
    a.is_alive == b.is_alive && a.age == b.age && a.last_reproduced == b.last_reproduced && a.position == b.position
}

proof fn lemma_nearest_congruent(s1: Seq<Creature>, s2: Seq<Creature>, i: int, j: int)
    requires
        s1.len() == s2.len(),
        0 <= i < j <= s1.len(),
        forall|l: int| 0 <= l < s1.len() ==> pairing_agrees(#[trigger] s1[l], s2[l]),
    ensures
        nearest_upto(s1, i, j) == nearest_upto(s2, i, j),
    decreases j - i,
{
    if j > i + 1 {
        lemma_nearest_congruent(s1, s2, i, j - 1);
        assert(pairing_agrees(s1[j - 1], s2[j - 1]));
        assert(pairing_agrees(s1[i], s2[i]));
        let r = nearest_upto(s1, i, j - 1);
        if r is Some {
            lemma_nearest_range(s1, i, j - 1);
            assert(pairing_agrees(s1[r->0], s2[r->0]));
        }
    }
}

proof fn lemma_nearest_range(s: Seq<Creature>, i: int, j: int)
    requires
        0 <= i < j <= s.len(),
    ensures
        nearest_upto(s, i, j) is Some ==> i < nearest_upto(s, i, j)->0 < j,
    decreases j - i,
{
    if j > i + 1 {
        lemma_nearest_range(s, i, j - 1);
    }
}

/// `b` is `a` after breeding: the same organism, possibly with its rest
/// counter reset to zero and with offspring ids appended.
pub open spec fn bred_from(a: Creature, b: Creature) -> bool {
    &&& a.id == b.id && a.position == b.position && a.direction == b.direction
    &&& a.colour_genes == b.colour_genes && a.speed_genes == b.speed_genes
    &&& a.colour == b.colour && a.speed == b.speed && a.is_alive == b.is_alive
    &&& a.parents == b.parents && a.last_turn == b.last_turn && a.age == b.age
    &&& (b.last_reproduced == a.last_reproduced || b.last_reproduced == 0)
    &&& a.offspring@.len() <= b.offspring@.len()
    &&& b.offspring@.subrange(0, a.offspring@.len() as int) == a.offspring@
}

/// The offspring `child` was bred by the pair `(a, b)` of `before`, whose
/// updated records in `after` list it among their offspring.
pub open spec fn child_of(before: Seq<Creature>, after: Seq<Creature>, child: Creature, a: int, b: int) -> bool {
    &&& mating_pair(before, a, b)
    &&& child.parents == [before[a].id, before[b].id]
    &&& child.position == before[a].position.midpoint_spec(before[b].position)
    &&& after[a].offspring@.contains(child.id)
    &&& after[b].offspring@.contains(child.id)
}

/// `after` (with last id `last1`) is `before` (with last id `last0`) after
/// one reproduction pass in the given order: every organism is kept in
/// place, and one newborn with a fresh consecutive id is appended for each
/// pair that `pass_pairs` forms, bred by that pair of `before`. So at most
/// `batch_cap` newborns arrive, each from a mating pair, and there are
/// newborns if and only if `before` holds a mating pair (while ids last).
pub open spec fn breeding_pass(before: Seq<Creature>, last0: u32, after: Seq<Creature>, last1: u32) -> bool {
    let n = before.len();
    let k = after.len() - n;
    let pairs = pass_pairs(before, 0, 0, birth_limit(n as int, last0));
    &&& n <= after.len()
    &&& k == pairs.len()
    &&& k <= batch_cap(n as int)
    &&& last1 == last0 + k
    &&& forall|l: int| 0 <= l < n ==> #[trigger] bred_from(before[l], after[l])
    &&& forall|t: int| n <= t < after.len() ==> {
        &&& (#[trigger] after[t]).newborn((last0 + (t - n) + 1) as u32)
        &&& child_of(before, after, after[t], pairs[t - n].0, pairs[t - n].1)
    }
    &&& (k > 0 ==> has_mating_pair(before))
    &&& (has_mating_pair(before) && last0 < u32::MAX ==> k > 0)
}

impl World {
    /// Every organism is well formed and has an id no greater than `last_id`.
    pub open spec fn wf(&self) -> bool {
        &&& self.focus.bounded()
        &&& self.direction < FULL_TURN
        &&& forall|i: int| 0 <= i < self.creatures@.len() ==> {
            &&& (#[trigger] self.creatures@[i]).wf()
            &&& self.creatures@[i].id <= self.last_id
        }
    }
}

/// Angle units in about one radian: the attractor's drift turns by less
/// than this per tick.
pub const RADIAN: u64 = 652;

/// In 256, the chance per tick that the attractor jumps to a random place.
pub const FOCUS_JUMP_ODDS: u64 = 8;

/// `b` is `a` after one tick of its own on a world `width` by `height`,
/// towards its bearing to `focus`, with some turn below `MAX_TURN` and some
/// roll.
pub open spec fn tick_step(a: Creature, b: Creature, focus: Point, lifespan: u32, width: u64, height: u64) -> bool {
    exists|turn: u32, roll: u32| turn < MAX_TURN && roll < 256
        && #[trigger] ticked(a, b, bearing(a.position, focus), lifespan, width, height, turn, roll)
}

/// Largest distance, in sub-units, at which a click selects an organism
/// (10 distance units).
pub const PICK_RADIUS: u64 = 10_000;

/// How many organisms of `s` show colour `c`.
pub open spec fn colour_count(s: Seq<Creature>, c: ColourGene) -> nat
    decreases s.len(),
{
    if s.len() == 0 {
        0
    } else {
        colour_count(s.drop_last(), c) + if s.last().colour == c { 1nat } else { 0nat }
    }
}

/// Still within its grace period: not older than `lifespan + GRACE_PERIOD`.
pub open spec fn survives(c: Creature, lifespan: u32) -> bool {
    c.age <= lifespan + GRACE_PERIOD
}

/// The organisms of `s` that survive, in their order.
pub open spec fn retained(s: Seq<Creature>, lifespan: u32) -> Seq<Creature>
    decreases s.len(),
{
    if s.len() == 0 {
        s
    } else if survives(s[0], lifespan) {
        seq![s[0]] + retained(s.drop_first(), lifespan)
    } else {
        retained(s.drop_first(), lifespan)
    }
}

/// Retirement keeps exactly the organisms that survive.
pub proof fn lemma_retained_members(s: Seq<Creature>, lifespan: u32)
    ensures
        forall|c: Creature| #[trigger] retained(s, lifespan).contains(c) <==> (s.contains(c) && survives(c, lifespan)),
        retained(s, lifespan).len() <= s.len(),
    decreases s.len(),
{
    if s.len() > 0 {
        lemma_retained_members(s.drop_first(), lifespan);
        let r = retained(s, lifespan);
        let rest = retained(s.drop_first(), lifespan);
        assert forall|c: Creature| #[trigger] r.contains(c) <==> (s.contains(c) && survives(c, lifespan)) by {
            if s.contains(c) && survives(c, lifespan) {
                let k = choose|k: int| 0 <= k < s.len() && s[k] == c;
                if k > 0 {
                    assert(s.drop_first()[k - 1] == c);
                    assert(rest.contains(c));
                    let m = choose|m: int| 0 <= m < rest.len() && rest[m] == c;
                    if survives(s[0], lifespan) {
                        assert(r[m + 1] == c);
                    }
                } else if survives(s[0], lifespan) {
                    assert(r[0] == c);
                }
            }
            if r.contains(c) {
                let m = choose|m: int| 0 <= m < r.len() && r[m] == c;
                if survives(s[0], lifespan) && m == 0 {
                    assert(s[0] == c);
                } else {
                    let m2 = if survives(s[0], lifespan) { m - 1 } else { m };
                    assert(rest[m2] == c);
                    assert(rest.contains(c));
                    let k = choose|k: int| 0 <= k < s.drop_first().len() && s.drop_first()[k] == c;
                    assert(s[k + 1] == c);
                }
            }
        }
    }
}

proof fn lemma_push_keeps(s: Seq<u32>, x: u32, v: u32)
    ensures
        s.contains(x) ==> s.push(v).contains(x),
{
    if s.contains(x) {
        let k = choose|k: int| 0 <= k < s.len() && s[k] == x;
        assert(s.push(v)[k] == x);
    }
}

/// A child recorded in `cur` stays recorded when two parents' offspring
/// lists grow.
proof fn lemma_offspring_recorded(before: Seq<Creature>, cur: Seq<Creature>, next: Seq<Creature>, child: Creature,
    a: int, b: int, i: int, j: int, child_id: u32)
    requires
        child_of(before, cur, child, a, b),
        before.len() == cur.len(),
        cur.len() == next.len(),
        0 <= i < cur.len(),
        0 <= j < cur.len(),
        forall|l: int| 0 <= l < cur.len() && l != i && l != j ==> #[trigger] next[l] == cur[l],
        next[i].offspring@ == cur[i].offspring@.push(child_id),
        next[j].offspring@ == cur[j].offspring@.push(child_id),
    ensures
        child_of(before, next, child, a, b),
{
    lemma_push_keeps(cur[a].offspring@, child.id, child_id);
    lemma_push_keeps(cur[b].offspring@, child.id, child_id);
    if a != i && a != j {
        assert(next[a] == cur[a]);
    }
    if b != i && b != j {
        assert(next[b] == cur[b]);
    }
}

proof fn lemma_last_contained(s: Seq<u32>)
    requires
        s.len() > 0,
    ensures
        s.contains(s.last()),
{
    assert(s[s.len() - 1] == s.last());
}

/// The index of the nearest organism after `i` that can mate (the first of
/// the nearest on a tie), if it is within mating range.
fn nearest_mate(creatures: &Vec<Creature>, i: usize) -> (r: Option<usize>)
    requires
        i < creatures@.len(),
        forall|l: int| 0 <= l < creatures@.len() ==> (#[trigger] creatures@[l]).position.bounded(),
    ensures
        match r {
            Some(j) => chosen_mate(creatures@, i as int) == Some(j as int),
            None => chosen_mate(creatures@, i as int) is None,
        },
        match r {
            Some(j) => {
                &&& i < j < creatures@.len()
                &&& can_mate(creatures@[j as int])
                &&& in_mating_range(creatures@[i as int], creatures@[j as int])
                &&& forall|l: int| i < l < creatures@.len() && can_mate(#[trigger] creatures@[l])
                    ==> dist_sq(creatures@[i as int].position, creatures@[j as int].position)
                        <= dist_sq(creatures@[i as int].position, creatures@[l].position)
                &&& forall|l: int| i < l < j && can_mate(#[trigger] creatures@[l])
                    ==> dist_sq(creatures@[i as int].position, creatures@[j as int].position)
                        < dist_sq(creatures@[i as int].position, creatures@[l].position)
            },
            None => forall|l: int| i < l < creatures@.len() && can_mate(#[trigger] creatures@[l])
                ==> !in_mating_range(creatures@[i as int], creatures@[l]),
        },
{
    let n = creatures.len();
    let mut closest: Option<usize> = None;
    let mut closest_distance: u64 = 0;
    let mut j = i + 1;
    while j < n
        invariant
            i < j <= n,
            n == creatures@.len(),
            i < creatures@.len(),
            forall|l: int| 0 <= l < creatures@.len() ==> (#[trigger] creatures@[l]).position.bounded(),
            match closest {
                Some(c) => nearest_upto(creatures@, i as int, j as int) == Some(c as int),
                None => nearest_upto(creatures@, i as int, j as int) is None,
            },
            match closest {
                Some(c) => {
                    &&& i < c < j
                    &&& can_mate(creatures@[c as int])
                    &&& closest_distance == dist_sq(creatures@[i as int].position, creatures@[c as int].position)
                    &&& forall|l: int| i < l < j && can_mate(#[trigger] creatures@[l])
                        ==> closest_distance <= dist_sq(creatures@[i as int].position, creatures@[l].position)
                    &&& forall|l: int| i < l < c && can_mate(#[trigger] creatures@[l])
                        ==> closest_distance < dist_sq(creatures@[i as int].position, creatures@[l].position)
                },
                None => forall|l: int| i < l < j ==> !can_mate(#[trigger] creatures@[l]),
            },
        decreases n - j,
    {
        let c = &creatures[j];
        if c.is_alive && c.age >= BREEDING_AGE && c.last_reproduced >= MATE_COOLDOWN {
            let d = creatures[i].position.distance_squared(&c.position);
            let better = match closest {
                Some(_) => d < closest_distance,
                None => true,
            };
            if better {
                closest = Some(j);
                closest_distance = d;
            }
        }
        j += 1;
    }
    match closest {
        Some(c) => {
            if closest_distance <= MATING_RADIUS * MATING_RADIUS {
                Some(c)
            } else {
                None
            }
        },
        None => None,
    }
}

impl World {
    /// One reproduction pass over the organisms in their current order.
    /// Walking the organisms in turn until `batch_cap` newborns are reached,
    /// each that may seek a mate is paired with the nearest later organism
    /// that can mate, if it is within range; the pair breeds one child, has
    /// its rest counters reset and lists the child among its offspring.
    /// Newborns join the population after the whole pass.
    #[verifier::rlimit(40)]
    pub fn breed(&mut self)
        requires
            old(self).wf(),
        ensures
            final(self).wf(),
            breeding_pass(old(self).creatures@, old(self).last_id, final(self).creatures@, final(self).last_id),
            final(self).frame_counter == old(self).frame_counter,
            final(self).selected == old(self).selected,
            final(self).direction == old(self).direction,
            final(self).focus == old(self).focus,
    {
        let ghost before = self.creatures@;
        let ghost last0 = self.last_id;
        let n = self.creatures.len();
        let cap = n / BATCH_DIVISOR + if n % BATCH_DIVISOR == 0 { 0 } else { 1 };
        assert(cap == batch_cap(n as int));
        let mut newborns: Vec<Creature> = Vec::new();
        let ghost mut pairs: Seq<(int, int)> = Seq::empty();
        let ghost limit = birth_limit(n as int, last0);
        let ghost mut model = before;
        let mut i: usize = 0;
        assert(pass_pairs(before, 0, 0, limit) =~= pairs + pass_pairs(model, 0, 0, limit));
        assert forall|l: int| 0 <= l < n implies bred_from(before[l], #[trigger] self.creatures@[l]) by {
            assert(before[l].offspring@.subrange(0, before[l].offspring@.len() as int) =~= before[l].offspring@);
        }
        while i < n && newborns.len() < cap && self.last_id < u32::MAX
            invariant
                n == before.len(),
                self.creatures@.len() == n,
                cap == batch_cap(n as int),
                i <= n,
                newborns@.len() <= cap,
                pairs.len() == newborns@.len(),
                self.last_id == last0 + newborns@.len(),
                self.frame_counter == old(self).frame_counter,
                self.selected == old(self).selected,
                self.direction == old(self).direction,
                self.focus == old(self).focus,
                forall|l: int| 0 <= l < n ==> {
                    &&& (#[trigger] self.creatures@[l]).wf()
                    &&& self.creatures@[l].id <= last0
                    &&& bred_from(before[l], self.creatures@[l])
                    &&& self.creatures@[l].last_reproduced <= before[l].last_reproduced
                },
                forall|t: int| 0 <= t < newborns@.len() ==> {
                    &&& (#[trigger] newborns@[t]).newborn((last0 + t + 1) as u32)
                    &&& child_of(before, self.creatures@, newborns@[t], pairs[t].0, pairs[t].1)
                    &&& pairs[t].0 < i
                },
                newborns@.len() == 0 ==> self.creatures@ == before,
                limit == birth_limit(n as int, last0),
                model.len() == n,
                forall|l: int| 0 <= l < n ==> pairing_agrees(#[trigger] model[l], self.creatures@[l]),
                pass_pairs(before, 0, 0, limit) == pairs + pass_pairs(model, i as int, pairs.len() as int, limit),
                newborns@.len() == 0 ==> forall|a: int, b: int| a < i ==> !#[trigger] mating_pair(before, a, b),
            decreases n - i,
        {
            proof {
                assert(pairing_agrees(model[i as int], self.creatures@[i as int]));
                lemma_nearest_congruent(self.creatures@, model, i as int, n as int);
                lemma_nearest_range(model, i as int, n as int);
                let nm = nearest_upto(model, i as int, n as int);
                if nm is Some {
                    assert(pairing_agrees(model[nm->0], self.creatures@[nm->0]));
                }
                assert((pairs.len() as int) < limit);
            }
            let ghost unfolded = pass_pairs(model, i as int, pairs.len() as int, limit);
            let seeker = {
                let c = &self.creatures[i];
                c.is_alive && c.age >= BREEDING_AGE && c.last_reproduced >= COOLDOWN
            };
            if seeker {
                let found = nearest_mate(&self.creatures, i);
                match found {
                    Some(j) => {
                        let ghost cur = self.creatures@;
                        let ghost nb = newborns@;
                        self.last_id = self.last_id + 1;
                        let child = Creature::from_parents(self.last_id, &self.creatures[i], &self.creatures[j]);
                        let child_id = child.id;
                        self.creatures[i].last_reproduced = 0;
                        self.creatures[j].last_reproduced = 0;
                        self.creatures[i].offspring.push(child_id);
                        self.creatures[j].offspring.push(child_id);
                        newborns.push(child);
                        proof {
                            let old_pairs = pairs;
                            assert(unfolded == seq![(i as int, j as int)] + pass_pairs(
                                model.update(i as int, rested(model[i as int])).update(j as int, rested(model[j as int])),
                                i + 1, pairs.len() as int + 1, limit));
                            model = model.update(i as int, rested(model[i as int])).update(j as int, rested(model[j as int]));
                            pairs = pairs.push((i as int, j as int));
                            assert(old_pairs + unfolded =~= pairs + pass_pairs(model, i + 1, pairs.len() as int, limit));
                            assert forall|l: int| 0 <= l < n implies pairing_agrees(#[trigger] model[l], self.creatures@[l]) by {
                                if l != i && l != j {
                                    assert(self.creatures@[l] == cur[l]);
                                }
                            }
                            assert(mating_pair(before, i as int, j as int));
                            assert(self.creatures@[i as int].offspring@.last() == child_id);
                            assert(self.creatures@[j as int].offspring@.last() == child_id);
                            assert forall|l: int| 0 <= l < n implies
                                bred_from(before[l], #[trigger] self.creatures@[l]) by {
                                if l == i || l == j {
                                    let s0 = before[l].offspring@;
                                    let s1 = cur[l].offspring@;
                                    assert(self.creatures@[l].offspring@ == s1.push(child_id));
                                    assert(s1.push(child_id).subrange(0, s0.len() as int) =~= s1.subrange(0, s0.len() as int));
                                }
                            }
                            assert forall|l: int| 0 <= l < n && l != i && l != j implies
                                #[trigger] self.creatures@[l] == cur[l] by {}
                            assert(self.creatures@[i as int].offspring@ == cur[i as int].offspring@.push(child_id));
                            assert(self.creatures@[j as int].offspring@ == cur[j as int].offspring@.push(child_id));
                            assert forall|t: int| 0 <= t < newborns@.len() implies {
                                &&& (#[trigger] newborns@[t]).newborn((last0 + t + 1) as u32)
                                &&& child_of(before, self.creatures@, newborns@[t], pairs[t].0, pairs[t].1)
                                &&& pairs[t].0 < i + 1
                            } by {
                                if t < nb.len() {
                                    assert(newborns@[t] == nb[t]);
                                    assert(child_of(before, cur, nb[t], pairs[t].0, pairs[t].1));
                                    lemma_offspring_recorded(before, cur, self.creatures@, nb[t], pairs[t].0, pairs[t].1,
                                        i as int, j as int, child_id);
                                } else {
                                    assert(cur[i as int].offspring@.push(child_id).last() == child_id);
                                    assert(cur[j as int].offspring@.push(child_id).last() == child_id);
                                    lemma_last_contained(cur[i as int].offspring@.push(child_id));
                                    lemma_last_contained(cur[j as int].offspring@.push(child_id));
                                }
                            }
                        }
                    },
                    None => {
                        assert(unfolded == pass_pairs(model, i + 1, pairs.len() as int, limit));
                    },
                }
            } else {
                assert(unfolded == pass_pairs(model, i + 1, pairs.len() as int, limit));
            }
            i += 1;
        }
        assert(pass_pairs(model, i as int, pairs.len() as int, limit) =~= Seq::<(int, int)>::empty());
        assert(pass_pairs(before, 0, 0, limit) =~= pairs);
        let ghost kept = self.creatures@;
        let ghost nb = newborns@;
        self.creatures.append(&mut newborns);
        proof {
            let after = self.creatures@;
            assert(after =~= kept + nb);
            assert forall|l: int| 0 <= l < n implies kept[l] == #[trigger] after[l] by {}
            assert forall|t: int| n <= t < after.len() implies {
                &&& (#[trigger] after[t]).newborn((last0 + (t - n) + 1) as u32)
                &&& child_of(before, after, after[t], pairs[t - n].0, pairs[t - n].1)
            } by {
                let u = t - n;
                assert(after[t] == nb[u]);
                assert(child_of(before, kept, nb[u], pairs[u].0, pairs[u].1));
                assert(child_of(before, after, after[t], pairs[u].0, pairs[u].1));
            }
            if nb.len() > 0 {
                let a = pairs[0].0;
                let b = pairs[0].1;
                assert(nb[0].newborn((last0 + 1) as u32));
                assert(child_of(before, kept, nb[0], a, b));
            }
            if has_mating_pair(before) && last0 < u32::MAX && nb.len() == 0 {
                let (a, b) = choose|a: int, b: int| #[trigger] mating_pair(before, a, b);
                assert(mating_pair(before, a, b));
            }
            assert forall|l: int| 0 <= l < after.len() implies {
                &&& (#[trigger] after[l]).wf()
                &&& after[l].id <= self.last_id
            } by {
                if l < n {
                    assert(after[l] == kept[l]);
                } else {
                    assert(after[l] == nb[l - n]);
                }
            }
        }
    }
}

impl World {
    /// Shuffles the organisms, then runs one reproduction pass over them.
    pub fn reproduce(&mut self)
        requires
            old(self).wf(),
        ensures
            final(self).wf(),
            exists|order: Seq<Creature>| order.to_multiset() == old(self).creatures@.to_multiset()
                && breeding_pass(order, old(self).last_id, final(self).creatures@, final(self).last_id),
            final(self).frame_counter == old(self).frame_counter,
            final(self).selected == old(self).selected,
            final(self).direction == old(self).direction,
            final(self).focus == old(self).focus,
    {
        let ghost before = self.creatures@;
        shuffle_creatures(&mut self.creatures);
        proof {
            let order = self.creatures@;
            assert forall|i: int| 0 <= i < order.len() implies {
                &&& (#[trigger] order[i]).wf()
                &&& order[i].id <= self.last_id
            } by {
                assert(order.contains(order[i]));
                to_multiset_contains(order, order[i]);
                to_multiset_contains(before, order[i]);
                let k = choose|k: int| 0 <= k < before.len() && before[k] == order[i];
                assert(before[k].wf());
            }
        }
        let ghost order = self.creatures@;
        self.breed();
        assert(breeding_pass(order, old(self).last_id, self.creatures@, self.last_id));
    }

    /// Removes the organisms past their grace period, keeping the order of
    /// the rest.
    pub fn retire(&mut self, lifespan: u32)
        requires
            old(self).wf(),
        ensures
            final(self).wf(),
            final(self).creatures@ == retained(old(self).creatures@, lifespan),
            final(self).last_id == old(self).last_id,
            final(self).frame_counter == old(self).frame_counter,
            final(self).selected == old(self).selected,
            final(self).direction == old(self).direction,
            final(self).focus == old(self).focus,
    {
        let ghost before = self.creatures@;
        let mut i: usize = 0;
        assert(self.creatures@.subrange(0, 0) + retained(self.creatures@.subrange(0, self.creatures@.len() as int), lifespan)
            =~= retained(before, lifespan)) by {
            assert(self.creatures@.subrange(0, self.creatures@.len() as int) =~= before);
        }
        while i < self.creatures.len()
            invariant
                i <= self.creatures@.len(),
                self.creatures@.subrange(0, i as int) + retained(self.creatures@.subrange(i as int, self.creatures@.len() as int), lifespan)
                    == retained(before, lifespan),
                forall|l: int| 0 <= l < self.creatures@.len() ==> before.contains(#[trigger] self.creatures@[l]),
                self.last_id == old(self).last_id,
                self.frame_counter == old(self).frame_counter,
                self.selected == old(self).selected,
                self.direction == old(self).direction,
                self.focus == old(self).focus,
            decreases self.creatures@.len() - i,
        {
            let ghost cur = self.creatures@;
            let ghost len = cur.len() as int;
            assert(cur.subrange(i as int, len).drop_first() =~= cur.subrange(i as int + 1, len));
            if (self.creatures[i].age as u64) <= lifespan as u64 + GRACE_PERIOD as u64 {
                assert(cur.subrange(0, i as int + 1) =~= cur.subrange(0, i as int) + seq![cur[i as int]]);
                i += 1;
            } else {
                self.creatures.remove(i);
                assert(self.creatures@.subrange(0, i as int) =~= cur.subrange(0, i as int));
                assert(self.creatures@.subrange(i as int, len - 1) =~= cur.subrange(i as int + 1, len));
                assert forall|l: int| 0 <= l < self.creatures@.len() implies before.contains(#[trigger] self.creatures@[l]) by {
                    if l < i {
                        assert(self.creatures@[l] == cur[l]);
                    } else {
                        assert(self.creatures@[l] == cur[l + 1]);
                    }
                }
            }
        }
        proof {
            let s = self.creatures@;
            assert(s.subrange(i as int, s.len() as int).len() == 0);
            assert(s.subrange(0, i as int) =~= s);
            assert(retained(s.subrange(i as int, s.len() as int), lifespan) =~= Seq::<Creature>::empty());
            assert(s == retained(before, lifespan));
            assert forall|l: int| 0 <= l < s.len() implies {
                &&& (#[trigger] s[l]).wf()
                &&& s[l].id <= self.last_id
            } by {
                assert(before.contains(s[l]));
                let k = choose|k: int| 0 <= k < before.len() && before[k] == s[l];
                assert(before[k].wf());
            }
        }
    }
}

impl World {
    /// An empty world with the attractor at the origin.
    pub fn new() -> (r: World)
        ensures
            r.wf(),
            r.creatures@.len() == 0,
            r.last_id == 0,
            r.selected is None,
            r.frame_counter == 0,
    {
        World {
            creatures: Vec::new(),
            frame_counter: 0,
            selected: None,
            direction: 0,
            focus: Point { x: 0, y: 0 },
            last_id: 0,
        }
    }

    /// Adds `count` founders at random places (fewer only when ids run out),
    /// with consecutive fresh ids.
    pub fn spawn_random_organisms(&mut self, count: usize, config: &Config)
        requires
            old(self).wf(),
            config.wf(),
        ensures
            final(self).wf(),
            final(self).creatures@.len() == old(self).creatures@.len()
                + if count <= u32::MAX - old(self).last_id { count as int } else { u32::MAX - old(self).last_id },
            final(self).last_id == old(self).last_id + (final(self).creatures@.len() - old(self).creatures@.len()),
            final(self).creatures@.subrange(0, old(self).creatures@.len() as int) == old(self).creatures@,
            forall|t: int| old(self).creatures@.len() <= t < final(self).creatures@.len() ==> {
                &&& (#[trigger] final(self).creatures@[t]).newborn((old(self).last_id + (t - old(self).creatures@.len()) + 1) as u32)
                &&& final(self).creatures@[t].parents == [0u32, 0u32]
                &&& final(self).creatures@[t].position.within(config.extent_x_spec(), config.extent_y_spec())
            },
            final(self).focus == old(self).focus,
            final(self).direction == old(self).direction,
            final(self).selected == old(self).selected,
            final(self).direction < FULL_TURN,
    {
        let width = config.extent_x();
        let height = config.extent_y();
        let ghost n0 = self.creatures@.len();
        let ghost last0 = self.last_id;
        let mut spawned: usize = 0;
        while spawned < count && self.last_id < u32::MAX
            invariant
                old(self).wf(),
                self.wf(),
                width == config.extent_x_spec(),
                height == config.extent_y_spec(),
                crate::utils::valid_extent(width, height),
                n0 == old(self).creatures@.len(),
                last0 == old(self).last_id,
                spawned <= count,
                self.creatures@.len() == n0 + spawned,
                self.last_id == last0 + spawned,
                self.creatures@.subrange(0, n0 as int) == old(self).creatures@,
                forall|t: int| n0 <= t < self.creatures@.len() ==> {
                    &&& (#[trigger] self.creatures@[t]).newborn((last0 + (t - n0) + 1) as u32)
                    &&& self.creatures@[t].parents == [0u32, 0u32]
                    &&& self.creatures@[t].position.within(width, height)
                },
                self.focus == old(self).focus,
                self.direction == old(self).direction,
                self.selected == old(self).selected,
            decreases count - spawned,
        {
            self.last_id = self.last_id + 1;
            let c = Creature::new_random(self.last_id, width, height);
            let ghost prev = self.creatures@;
            self.creatures.push(c);
            assert(self.creatures@.subrange(0, n0 as int) =~= prev.subrange(0, n0 as int));
            spawned += 1;
        }
    }

    /// Advances the world one tick: the attractor drifts (and now and then
    /// jumps), every organism ticks towards its bearing to the attractor,
    /// organisms past their grace period are retired, and, while the
    /// population is below `max_creatures`, one reproduction pass runs.
    pub fn tick(&mut self, config: &Config)
        requires
            old(self).wf(),
            config.wf(),
        ensures
            final(self).wf(),
            exists|moved: Seq<Creature>| {
                &&& moved.len() == old(self).creatures@.len()
                &&& forall|l: int| 0 <= l < moved.len() ==> tick_step(old(self).creatures@[l], #[trigger] moved[l],
                    final(self).focus, config.lifespan, config.extent_x_spec(), config.extent_y_spec())
                &&& if retained(moved, config.lifespan).len() < config.max_creatures {
                    exists|order: Seq<Creature>| order.to_multiset() == retained(moved, config.lifespan).to_multiset()
                        && breeding_pass(order, old(self).last_id, final(self).creatures@, final(self).last_id)
                } else {
                    final(self).creatures@ == retained(moved, config.lifespan) && final(self).last_id == old(self).last_id
                }
            },
            final(self).selected == old(self).selected,
            final(self).direction < FULL_TURN,
    {
        let width = config.extent_x();
        let height = config.extent_y();
        self.direction = ((self.direction as u64 + random_below(RADIAN)) % FULL_TURN as u64) as u32;
        if random_below(256) < FOCUS_JUMP_ODDS {
            self.focus = Point::new_random(width, height);
        }
        let ghost before = self.creatures@;
        let n = self.creatures.len();
        let mut i: usize = 0;
        while i < n
            invariant
                self.wf(),
                n == self.creatures@.len(),
                n == before.len(),
                i <= n,
                width == config.extent_x_spec(),
                height == config.extent_y_spec(),
                crate::utils::valid_extent(width, height),
                self.last_id == old(self).last_id,
                self.selected == old(self).selected,
                forall|l: int| 0 <= l < i ==> tick_step(before[l], #[trigger] self.creatures@[l], self.focus, config.lifespan, width, height),
                forall|l: int| i <= l < n ==> before[l] == #[trigger] self.creatures@[l],
            decreases n - i,
        {
            let target = self.creatures[i].position.direction_to(&self.focus);
            let ghost cur = self.creatures@;
            assert(cur[i as int].wf());
            self.creatures[i].tick(target, config.lifespan, width, height);
            proof {
                let (tu, ro) = choose|tu: u32, ro: u32| tu < MAX_TURN && ro < 256
                    && #[trigger] ticked(cur[i as int], self.creatures@[i as int], target, config.lifespan, width, height, tu, ro);
                assert(tick_step(before[i as int], self.creatures@[i as int], self.focus, config.lifespan, width, height));
                assert forall|l: int| 0 <= l < n implies {
                    &&& (#[trigger] self.creatures@[l]).wf()
                    &&& self.creatures@[l].id <= self.last_id
                } by {
                    if l != i {
                        assert(self.creatures@[l] == cur[l]);
                    }
                }
            }
            i += 1;
        }
        let ghost moved = self.creatures@;
        self.retire(config.lifespan);
        if self.creatures.len() < config.max_creatures {
            self.reproduce();
        }
    }
}

impl World {
    /// The number of organisms showing each colour, indexed by colour rank.
    pub fn counts(&self) -> (r: Vec<usize>)
        ensures
            r@.len() == 7,
            forall|k: int| 0 <= k < 7 ==> #[trigger] r@[k] == colour_count(self.creatures@, colour_of_rank(k as nat)),
    {
        let mut r: Vec<usize> = vec![0, 0, 0, 0, 0, 0, 0];
        let mut i: usize = 0;
        while i < self.creatures.len()
            invariant
                i <= self.creatures@.len(),
                r@.len() == 7,
                forall|k: int| 0 <= k < 7 ==> #[trigger] r@[k] == colour_count(self.creatures@.subrange(0, i as int), colour_of_rank(k as nat)),
                forall|k: int| 0 <= k < 7 ==> #[trigger] r@[k] <= i,
            decreases self.creatures@.len() - i,
        {
            let ghost prev = r@;
            let k = self.creatures[i].colour.rank() as usize;
            r.set(k, r[k] + 1);
            proof {
                let s = self.creatures@.subrange(0, i as int + 1);
                assert(s.drop_last() =~= self.creatures@.subrange(0, i as int));
                assert forall|m: int| 0 <= m < 7 implies #[trigger] r@[m] == colour_count(s, colour_of_rank(m as nat)) by {
                    assert(colour_rank(colour_of_rank(m as nat)) == m);
                }
            }
            i += 1;
        }
        assert(self.creatures@.subrange(0, i as int) =~= self.creatures@);
        r
    }

    /// The index of the organism with id `id`, or `None` when no organism
    /// has it (as for the id of a retired organism).
    pub fn find(&self, id: u32) -> (r: Option<usize>)
        ensures
            match r {
                Some(i) => i < self.creatures@.len() && self.creatures@[i as int].id == id,
                None => forall|l: int| 0 <= l < self.creatures@.len() ==> (#[trigger] self.creatures@[l]).id != id,
            },
    {
        let mut i: usize = 0;
        while i < self.creatures.len()
            invariant
                i <= self.creatures@.len(),
                forall|l: int| 0 <= l < i ==> (#[trigger] self.creatures@[l]).id != id,
            decreases self.creatures@.len() - i,
        {
            if self.creatures[i].id == id {
                return Some(i);
            }
            i += 1;
        }
        None
    }

    /// The organism nearest to `point` (the first of the nearest on a tie),
    /// if it is closer than `PICK_RADIUS`; it becomes the selection, and
    /// with no such organism the selection is cleared.
    pub fn select_at(&mut self, point: Point) -> (r: Option<usize>)
        requires
            old(self).wf(),
            point.bounded(),
        ensures
            final(self).wf(),
            final(self).creatures@ == old(self).creatures@,
            final(self).last_id == old(self).last_id,
            match r {
                Some(i) => {
                    &&& i < old(self).creatures@.len()
                    &&& dist_sq(old(self).creatures@[i as int].position, point) < PICK_RADIUS * PICK_RADIUS
                    &&& forall|l: int| 0 <= l < old(self).creatures@.len() ==>
                        dist_sq(old(self).creatures@[i as int].position, point)
                            <= dist_sq((#[trigger] old(self).creatures@[l]).position, point)
                    &&& forall|l: int| 0 <= l < i ==>
                        dist_sq(old(self).creatures@[i as int].position, point)
                            < dist_sq((#[trigger] old(self).creatures@[l]).position, point)
                    &&& final(self).selected == Some(old(self).creatures@[i as int].id)
                },
                None => {
                    &&& forall|l: int| 0 <= l < old(self).creatures@.len() ==>
                        dist_sq((#[trigger] old(self).creatures@[l]).position, point) >= PICK_RADIUS * PICK_RADIUS
                    &&& final(self).selected is None
                },
            },
    {
        let mut closest: Option<usize> = None;
        let mut closest_distance: u64 = 0;
        let mut i: usize = 0;
        while i < self.creatures.len()
            invariant
                self.wf(),
                point.bounded(),
                i <= self.creatures@.len(),
                match closest {
                    Some(c) => {
                        &&& c < i
                        &&& closest_distance == dist_sq(self.creatures@[c as int].position, point)
                        &&& forall|l: int| 0 <= l < i ==>
                            closest_distance <= dist_sq((#[trigger] self.creatures@[l]).position, point)
                        &&& forall|l: int| 0 <= l < c ==>
                            closest_distance < dist_sq((#[trigger] self.creatures@[l]).position, point)
                    },
                    None => i == 0,
                },
            decreases self.creatures@.len() - i,
        {
            assert(self.creatures@[i as int].wf());
            let d = self.creatures[i].position.distance_squared(&point);
            let better = match closest {
                Some(_) => d < closest_distance,
                None => true,
            };
            if better {
                closest = Some(i);
                closest_distance = d;
            }
            i += 1;
        }
        match closest {
            Some(c) => {
                if closest_distance < PICK_RADIUS * PICK_RADIUS {
                    self.selected = Some(self.creatures[c].id);
                    Some(c)
                } else {
                    self.selected = None;
                    None
                }
            },
            None => {
                self.selected = None;
                None
            },
        }
    }
}

} // verus!
