//! Initial world seeding: the configured numbers of plants, prey,
//! predators and scavengers, each with a random genome within its
//! species' ranges, a species-specific starting energy range and a
//! uniformly random position.

use vstd::prelude::*;
use crate::geom::Vec2m;
use crate::organism::{Organism, Species, Genome, Stamina, Waypoint};
use crate::config::MAX_ORGANISMS;
use crate::world::{World, lemma_push_fresh_id, ID_LIMIT};
use crate::rng::rand_i64_range;
use crate::movement::fresh_waypoint;

verus! {

/// The neutral behavioral state every freshly seeded organism carries:
/// zero velocity, full stamina for prey and none for anyone else, no hunt
/// target, an exploration waypoint drawn from the organism's own position
/// for predators and scavengers and none for anyone else, and a uniformly
/// random in-world position.
pub open spec fn seeded_state_ok(o: Organism, hw: int, hh: int) -> bool {
    &&& o.age == 0
    &&& o.vel == (Vec2m { x: 0, y: 0 })
    &&& o.decay_timer == 0
    &&& o.hunt_target is None
    &&& (o.species == Species::Prey <==> o.stamina == Some(
        Stamina { current: 100_000, max: 100_000, regen_rate: 10_000 },
    ))
    &&& ((o.species == Species::Predator || o.species == Species::Scavenger) <==> o.waypoint
        is Some)
    &&& (o.waypoint is Some ==> crate::movement::waypoint_from(
        o.waypoint->Some_0,
        o.pos.x as int,
        o.pos.y as int,
        hw,
        hh,
    ))
    &&& -hw <= o.pos.x < hw
    &&& -hh <= o.pos.y < hh
}

/// Appends `count` freshly seeded organisms of one species.
fn seed_species(w: &mut World, sp: Species, count: usize, e_lo: i64, e_hi: i64)
    requires
        old(w).wf(),
        sp != Species::Corpse,
        0 < e_lo < e_hi <= 1_000_000,
        old(w).organisms@.len() + count <= MAX_ORGANISMS,
        old(w).next_id + count <= ID_LIMIT,
    ensures
        final(w).wf(),
        final(w).organisms@.len() == old(w).organisms@.len() + count,
        final(w).organisms@.subrange(0, old(w).organisms@.len() as int) == old(w).organisms@,
        forall|j: int|
            old(w).organisms@.len() <= j < final(w).organisms@.len() ==> {
                let o = #[trigger] final(w).organisms@[j];
                &&& o.species == sp
                &&& e_lo <= o.energy < e_hi
                &&& o.id >= old(w).next_id
                &&& seeded_state_ok(o, old(w).config.half_w(), old(w).config.half_h())
            },
        final(w).next_id == old(w).next_id + count,
        final(w).config == old(w).config,
        final(w).sunlight == old(w).sunlight,
        final(w).stats == old(w).stats,
        final(w).history == old(w).history,
{
    let ghost orgs0 = w.organisms@;
    let ghost id0 = w.next_id;
    let hw = w.config.half_width();
    let hh = w.config.half_height();
    let mut k: usize = 0;
    while k < count
        invariant
            w.wf(),
            sp != Species::Corpse,
            0 < e_lo < e_hi <= 1_000_000,
            hw == w.config.half_w(),
            hh == w.config.half_h(),
            k <= count,
            w.organisms@.len() == orgs0.len() + k,
            orgs0.len() + count <= MAX_ORGANISMS,
            w.next_id == id0 + k,
            id0 + count <= ID_LIMIT,
            w.organisms@.subrange(0, orgs0.len() as int) == orgs0,
            forall|j: int|
                orgs0.len() <= j < w.organisms@.len() ==> {
                    let o = #[trigger] w.organisms@[j];
                    o.species == sp && e_lo <= o.energy < e_hi && o.id >= id0 && seeded_state_ok(
                        o,
                        hw as int,
                        hh as int,
                    )
                },
            w.config == old(w).config,
            w.sunlight == old(w).sunlight,
            w.stats == old(w).stats,
            w.history == old(w).history,
        decreases count - k,
    {
        let genome = if sp == Species::Plant {
            Genome::random_plant()
        } else if sp == Species::Prey {
            Genome::random_prey()
        } else if sp == Species::Predator {
            Genome::random_predator()
        } else {
            Genome::random_scavenger()
        };
        let px = rand_i64_range(-hw, hw);
        let py = rand_i64_range(-hh, hh);
        let wp: Option<Waypoint> = if sp == Species::Predator || sp == Species::Scavenger {
            Some(fresh_waypoint(px, py, hw, hh))
        } else {
            None
        };
        let st: Option<Stamina> = if sp == Species::Prey {
            Some(Default::default())
        } else {
            None
        };
        let o = Organism {
            id: w.next_id,
            species: sp,
            genome,
            energy: rand_i64_range(e_lo, e_hi),
            age: 0,
            pos: Vec2m { x: px, y: py },
            vel: Vec2m { x: 0, y: 0 },
            stamina: st,
            hunt_target: None,
            waypoint: wp,
            decay_timer: 0,
        };
        proof {
            lemma_push_fresh_id(w.organisms@, o, w.next_id);
        }
        w.organisms.push(o);
        w.next_id = w.next_id + 1;
        proof {
            assert(w.organisms@.subrange(0, orgs0.len() as int) =~= orgs0);
        }
        k = k + 1;
    }
}

/// Seeds a fresh world with the configured initial populations: plants
/// with energy in `[20, 50)`, prey in `[40, 80)`, predators in `[60, 100)`
/// and scavengers in `[50, 90)`, in that arena order, all at age zero.
pub fn setup(w: &mut World)
    requires
        old(w).wf(),
        old(w).organisms@.len() == 0,
        old(w).next_id == 0,
    ensures
        final(w).wf(),
        final(w).organisms@.len() == old(w).config.initial_plants + old(w).config.initial_prey
            + old(w).config.initial_predators + old(w).config.initial_scavengers,
        forall|j: int|
            0 <= j < final(w).organisms@.len() ==> {
                let c = old(w).config;
                let o = #[trigger] final(w).organisms@[j];
                &&& seeded_state_ok(o, c.half_w(), c.half_h())
                &&& (j < c.initial_plants ==> o.species == Species::Plant && 20_000 <= o.energy
                    < 50_000)
                &&& (c.initial_plants <= j < c.initial_plants + c.initial_prey ==> o.species
                    == Species::Prey && 40_000 <= o.energy < 80_000)
                &&& (c.initial_plants + c.initial_prey <= j < c.initial_plants + c.initial_prey
                    + c.initial_predators ==> o.species == Species::Predator && 60_000 <= o.energy
                    < 100_000)
                &&& (c.initial_plants + c.initial_prey + c.initial_predators <= j ==> o.species
                    == Species::Scavenger && 50_000 <= o.energy < 90_000)
            },
        final(w).config == old(w).config,
        final(w).sunlight == old(w).sunlight,
        final(w).history == old(w).history,
{
    let ip = w.config.initial_plants;
    let iy = w.config.initial_prey;
    let id = w.config.initial_predators;
    let isc = w.config.initial_scavengers;
    seed_species(w, Species::Plant, ip, 20_000, 50_000);
    let ghost g1 = w.organisms@;
    seed_species(w, Species::Prey, iy, 40_000, 80_000);
    let ghost g2 = w.organisms@;
    seed_species(w, Species::Predator, id, 60_000, 100_000);
    let ghost g3 = w.organisms@;
    seed_species(w, Species::Scavenger, isc, 50_000, 90_000);
    proof {
        let fin = w.organisms@;
        assert forall|j: int| 0 <= j < fin.len() implies {
            let c = old(w).config;
            let o = #[trigger] fin[j];
            &&& seeded_state_ok(o, c.half_w(), c.half_h())
            &&& (j < c.initial_plants ==> o.species == Species::Plant && 20_000 <= o.energy
                < 50_000)
            &&& (c.initial_plants <= j < c.initial_plants + c.initial_prey ==> o.species
                == Species::Prey && 40_000 <= o.energy < 80_000)
            &&& (c.initial_plants + c.initial_prey <= j < c.initial_plants + c.initial_prey
                + c.initial_predators ==> o.species == Species::Predator && 60_000 <= o.energy
                < 100_000)
            &&& (c.initial_plants + c.initial_prey + c.initial_predators <= j ==> o.species
                == Species::Scavenger && 50_000 <= o.energy < 90_000)
        } by {
            if j < g1.len() {
                assert(fin.subrange(0, g3.len() as int)[j] == g3[j]);
                assert(g3.subrange(0, g2.len() as int)[j] == g2[j]);
                assert(g2.subrange(0, g1.len() as int)[j] == g1[j]);
                assert(fin[j] == g1[j]);
            } else if j < g2.len() {
                assert(fin.subrange(0, g3.len() as int)[j] == g3[j]);
                assert(g3.subrange(0, g2.len() as int)[j] == g2[j]);
                assert(fin[j] == g2[j]);
            } else if j < g3.len() {
                assert(fin.subrange(0, g3.len() as int)[j] == g3[j]);
                assert(fin[j] == g3[j]);
            }
        }
    }
}

} // verus!
