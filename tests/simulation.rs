use evolution_simulated::config::{Config, ConfigError, ConfigKey};
use evolution_simulated::creature::{Creature, GRACE_PERIOD};
use evolution_simulated::gene::{ColourGene, Speed};
use evolution_simulated::utils::{Point, FULL_TURN, SCALE};
use evolution_simulated::world::World;

fn adult(id: u32, x: u64, y: u64) -> Creature {
    let mut c = Creature::new(
        id,
        Point { x, y },
        0,
        [ColourGene::Red, ColourGene::Black],
        [Speed::Slow(true), Speed::Fast],
        None,
    );
    c.age = 60;
    c.last_reproduced = 40;
    c
}

fn world_of(creatures: Vec<Creature>) -> World {
    let mut world = World::new();
    let last = creatures.iter().map(|c| c.id).max().unwrap_or(0);
    world.creatures = creatures;
    world.last_id = last;
    world
}

#[test]
fn it_works() {
    let result = 2 + 2;
    assert_eq!(result, 4);
}

#[test]
fn colour_lower_rank_dominates() {
    assert_eq!(ColourGene::colour(ColourGene::Red, ColourGene::Orange), ColourGene::Orange);
    assert_eq!(ColourGene::colour(ColourGene::Orange, ColourGene::Red), ColourGene::Orange);
    assert_eq!(ColourGene::colour(ColourGene::Purple, ColourGene::DBlue), ColourGene::DBlue);
    assert_eq!(ColourGene::colour(ColourGene::Yellow, ColourGene::Yellow), ColourGene::Yellow);
}

#[test]
fn colour_dominance_is_order_independent() {
    let all = [
        ColourGene::Orange,
        ColourGene::Red,
        ColourGene::LBlue,
        ColourGene::DBlue,
        ColourGene::Black,
        ColourGene::Yellow,
        ColourGene::Purple,
    ];
    for a in all {
        for b in all {
            assert_eq!(ColourGene::colour(a, b), ColourGene::colour(b, a));
        }
    }
}

#[test]
fn speed_dominance_table() {
    assert_eq!(Speed::speed(Speed::Fast, Speed::Slow(true)), Speed::Fast);
    assert_eq!(Speed::speed(Speed::Medium(false), Speed::Fast), Speed::Fast);
    assert_eq!(Speed::speed(Speed::Slow(true), Speed::Slow(false)), Speed::Slow(true));
    assert_eq!(Speed::speed(Speed::Medium(false), Speed::Medium(true)), Speed::Medium(false));
    // Flags equal: Slow wins.
    assert_eq!(Speed::speed(Speed::Slow(true), Speed::Medium(true)), Speed::Slow(true));
    assert_eq!(Speed::speed(Speed::Medium(false), Speed::Slow(false)), Speed::Slow(false));
    // Flags differ: the allele whose flag is set wins.
    assert_eq!(Speed::speed(Speed::Slow(false), Speed::Medium(true)), Speed::Medium(true));
    assert_eq!(Speed::speed(Speed::Slow(true), Speed::Medium(false)), Speed::Slow(true));
    assert_eq!(Speed::speed(Speed::Medium(true), Speed::Slow(false)), Speed::Medium(true));
    assert_eq!(Speed::speed(Speed::Medium(false), Speed::Slow(true)), Speed::Slow(true));
}

#[test]
fn random_alleles_are_varied() {
    let mut seen = std::collections::HashSet::new();
    for _ in 0..500 {
        seen.insert(ColourGene::new_random());
    }
    assert!(seen.len() > 1);
}

#[test]
fn point_new_wraps_negative_and_large() {
    let p = Point::new(-1, 2_500, 1_000, 2_000);
    assert_eq!(p, Point { x: 999, y: 500 });
}

#[test]
fn translations_stay_in_range() {
    let (w, h) = (250_000u64, 100_000u64);
    let mut p = Point { x: 10, y: 99_999 };
    p.translate(-20, 5, w, h);
    assert_eq!(p, Point { x: 249_990, y: 4 });
    let q = p.translate2(i64::MIN, i64::MAX, w, h);
    assert!(q.x < w && q.y < h);
    let r = Point { x: 100, y: 100 }.translate4(0, 2_500, w, h);
    assert_eq!(r, Point { x: 2_600, y: 100 });
    let s = Point { x: 100, y: 100 }.translate4(FULL_TURN / 2, 2_500, w, h);
    assert_eq!(s, Point { x: 247_600, y: 100 });
}

#[test]
fn distance_midpoint_and_bearing() {
    let a = Point { x: 0, y: 0 };
    let b = Point { x: 3_000, y: 4_000 };
    assert_eq!(a.distance_squared(&b), 25_000_000);
    assert_eq!(a.midpoint(&b), Point { x: 1_500, y: 2_000 });
    assert_eq!(a.direction_to(&Point { x: 5_000, y: 0 }), 0);
    assert_eq!(a.direction_to(&Point { x: 0, y: 5_000 }), FULL_TURN / 4);
    assert_eq!(Point { x: 5_000, y: 0 }.direction_to(&a), FULL_TURN / 2);
    assert_eq!(a.direction_to(&a), 0);
}

#[test]
fn random_point_is_inside_world() {
    for _ in 0..200 {
        let p = Point::new_random(7, 3);
        assert!(p.x < 7 && p.y < 3);
    }
}

#[test]
fn config_set_accepts_and_rejects() {
    let mut config = Config::new();
    assert_eq!(config.set(ConfigKey::Width, 300), Ok(()));
    assert_eq!(config.width, 300);
    assert_eq!(config.set(ConfigKey::Height, 0), Err(ConfigError::OutOfRange));
    assert_eq!(config.height, 250);
    assert_eq!(config.set(ConfigKey::MaxCreatures, 7), Ok(()));
    assert_eq!(config.max_creatures, 7);
    assert_eq!(config.extent_x(), 300 * SCALE);
}

#[test]
fn organism_ages_and_dies_at_lifespan() {
    let mut c = adult(1, 500, 500);
    c.age = 9;
    c.tick_with(0, 10, 10_000, 10_000, 0, 255);
    assert_eq!(c.age, 10);
    assert!(c.is_alive);
    c.tick_with(0, 10, 10_000, 10_000, 0, 255);
    assert_eq!(c.age, 11);
    assert!(!c.is_alive);
    let (pos, dir) = (c.position, c.direction);
    c.tick_with(0, 10, 10_000, 10_000, 5, 0);
    assert_eq!((c.position, c.direction), (pos, dir));
}

#[test]
fn living_organism_swims_and_turns() {
    // Speed phenotype is Fast; full speed at age 30.
    let mut c = adult(1, 500, 500);
    c.age = 29;
    c.last_reproduced = 3;
    c.tick_with(0, 100, 10_000, 10_000, 10, 0);
    assert_eq!(c.position, Point { x: 3_000, y: 500 });
    assert_eq!(c.last_reproduced, 4);
    // Roll 0 always flips the bias from right to left.
    assert!(c.last_turn);
    assert_eq!(c.direction, 10);
    c.tick_with(0, 100, 10_000, 10_000, 20, 255);
    assert_eq!(c.direction, 30);
}

#[test]
fn founder_lives_out_lifespan_then_is_retired() {
    let config = Config::new();
    let mut world = World::new();
    world.spawn_random_organisms(1, &config);
    assert_eq!(world.creatures.len(), 1);
    for _ in 0..config.lifespan {
        world.tick(&config);
    }
    assert!(world.creatures[0].is_alive);
    world.tick(&config);
    assert!(!world.creatures[0].is_alive);
    for _ in 0..GRACE_PERIOD - 1 {
        world.tick(&config);
    }
    assert_eq!(world.creatures.len(), 1);
    world.tick(&config);
    assert_eq!(world.creatures.len(), 0);
}

#[test]
fn close_pair_breeds_one_child_at_midpoint() {
    let mut world = world_of(vec![adult(1, 100_000, 100_000), adult(2, 105_000, 100_000)]);
    world.reproduce();
    assert_eq!(world.creatures.len(), 3);
    let child = &world.creatures[2];
    assert_eq!(child.position, Point { x: 102_500, y: 100_000 });
    assert_eq!(child.id, 3);
    assert_eq!(child.age, 0);
    let mut parents = child.parents;
    parents.sort();
    assert_eq!(parents, [1, 2]);
    for p in &world.creatures[..2] {
        assert_eq!(p.offspring, vec![3]);
        assert_eq!(p.last_reproduced, 0);
    }
}

#[test]
fn distant_pair_does_not_breed() {
    let mut world = world_of(vec![adult(1, 0, 0), adult(2, 1_000_000, 0)]);
    world.reproduce();
    assert_eq!(world.creatures.len(), 2);
    assert!(world.creatures.iter().all(|c| c.offspring.is_empty()));
}

#[test]
fn ineligible_organisms_do_not_breed() {
    let mut young = adult(1, 0, 0);
    young.age = 49;
    let mut rested = adult(2, 1_000, 0);
    rested.last_reproduced = 14;
    let mut dead = adult(3, 2_000, 0);
    dead.is_alive = false;
    let mut world = world_of(vec![young, rested, dead]);
    world.breed();
    assert_eq!(world.creatures.len(), 3);
}

#[test]
fn seeker_needs_the_stricter_cooldown() {
    let mut first = adult(1, 0, 0);
    first.last_reproduced = 20;
    let second = adult(2, 1_000, 0);
    // Only the later organism is rested enough to seek a mate, and it has
    // no later partner.
    let mut world = world_of(vec![first, second]);
    world.breed();
    assert_eq!(world.creatures.len(), 2);
    // In the other order the rested organism seeks, and the other can mate.
    let mut first = adult(1, 0, 0);
    first.last_reproduced = 20;
    let mut world = world_of(vec![adult(2, 1_000, 0), first]);
    world.breed();
    assert_eq!(world.creatures.len(), 3);
}

#[test]
fn nearest_mate_is_chosen() {
    let mut world = world_of(vec![adult(1, 0, 0), adult(2, 20_000, 0), adult(3, 4_000, 3_000)]);
    world.breed();
    assert_eq!(world.creatures.len(), 4);
    assert_eq!(world.creatures[3].parents, [1, 3]);
    assert_eq!(world.creatures[3].position, Point { x: 2_000, y: 1_500 });
    assert!(world.creatures[1].offspring.is_empty());
}

#[test]
fn births_per_pass_are_capped() {
    let creatures: Vec<Creature> = (1..=41).map(|i| adult(i, 1_000 * i as u64, 0)).collect();
    let mut world = world_of(creatures);
    world.reproduce();
    // 41 organisms admit at most ceil(41 / 20) = 3 newborns.
    assert_eq!(world.creatures.len(), 44);
    let ids: Vec<u32> = world.creatures[41..].iter().map(|c| c.id).collect();
    assert_eq!(ids, vec![42, 43, 44]);
    for child in &world.creatures[41..] {
        for parent_id in child.parents {
            let parent = world.creatures.iter().find(|c| c.id == parent_id).unwrap();
            assert!(parent.offspring.contains(&child.id));
        }
    }
}

#[test]
fn counts_by_colour() {
    let mut a = adult(1, 0, 0);
    a.colour = ColourGene::Purple;
    let world = world_of(vec![a, adult(2, 0, 0), adult(3, 0, 0)]);
    assert_eq!(world.counts(), vec![0, 2, 0, 0, 0, 0, 1]);
}

#[test]
fn find_reports_stale_ids_as_absent() {
    let world = world_of(vec![adult(4, 0, 0), adult(9, 0, 0)]);
    assert_eq!(world.find(9), Some(1));
    assert_eq!(world.find(5), None);
}

#[test]
fn select_at_picks_nearest_within_radius() {
    let mut world = world_of(vec![adult(1, 0, 0), adult(2, 5_000, 0), adult(3, 30_000, 0)]);
    assert_eq!(world.select_at(Point { x: 4_000, y: 0 }), Some(1));
    assert_eq!(world.selected, Some(2));
    assert_eq!(world.select_at(Point { x: 50_000, y: 50_000 }), None);
    assert_eq!(world.selected, None);
}

#[test]
fn spawn_assigns_fresh_ids() {
    let config = Config::new();
    let mut world = World::new();
    world.spawn_random_organisms(5, &config);
    let ids: Vec<u32> = world.creatures.iter().map(|c| c.id).collect();
    assert_eq!(ids, vec![1, 2, 3, 4, 5]);
    assert!(world.creatures.iter().all(|c| c.is_alive && c.age == 0 && c.parents == [0, 0]));
}

#[test]
fn population_runs_many_ticks() {
    let config = Config::new();
    let mut world = World::new();
    world.spawn_random_organisms(config.starting_pop, &config);
    for _ in 0..300 {
        world.tick(&config);
        for c in &world.creatures {
            assert!(c.position.x < config.extent_x() && c.position.y < config.extent_y());
            assert!(c.age <= config.lifespan + GRACE_PERIOD);
        }
    }
}

#[test]
fn a_mate_rests_after_pairing() {
    let mut creatures = vec![adult(1, 0, 0), adult(2, 1_000, 0), adult(3, 2_000, 0)];
    for i in 4..=21u32 {
        let mut c = adult(i, 100_000 * i as u64, 500_000);
        c.age = 10;
        creatures.push(c);
    }
    let mut world = world_of(creatures);
    world.breed();
    // 21 organisms admit two newborns, but once 1 and 2 have paired, 2 is
    // resting and 3 has no later partner.
    assert_eq!(world.creatures.len(), 22);
    assert_eq!(world.creatures[21].parents, [1, 2]);
    assert_eq!(world.creatures[2].last_reproduced, 40);
}
