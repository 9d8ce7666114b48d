//! The organism record: a species tag, an immutable genome, the scalar
//! state every system reads and writes, and the per-species behavioral
//! state, with the well-formedness bounds the simulation maintains.

use vstd::prelude::*;
use crate::geom::Vec2m;
use crate::config::{SimulationConfig, ENERGY_CEIL, ENERGY_FLOOR, AGE_CAP, VEL_MAX,
    CORPSE_DECAY_TIME, STAMINA_FLOOR};
use crate::rng::rand_i64_range;

verus! {

/// The one species tag an organism carries. `Corpse` is the terminal
/// variant: a dead organism keeps no living tag and no locomotion state.
#[derive(Clone, Copy, PartialEq, Eq, Structural, Debug)]
pub enum Species {
    Plant,
    Prey,
    Predator,
    Scavenger,
    Corpse,
}

/// The immutable trait bundle, cloned without mutation on reproduction.
/// Speeds, sizes and ranges are in milli-units.
#[derive(Clone, Copy, PartialEq, Eq, Structural, Debug)]
pub struct Genome {
    pub speed: i64,
    pub size: i64,
    pub metabolism: i64,
    pub reproduction_threshold: i64,
    pub vision_range: i64,
}

impl Genome {
    /// The bounds every genome satisfies.
    pub open spec fn wf(&self) -> bool {
        &&& 0 <= self.speed <= 200_000
        &&& 0 <= self.size <= 3_000
        &&& 0 <= self.metabolism <= 2_000
        &&& 0 <= self.reproduction_threshold <= 1_000_000
        &&& 0 <= self.vision_range <= 200_000
    }

    /// A random plant genome: sessile, small, slow metabolism.
    pub fn random_plant() -> (r: Self)
        ensures
            r.wf(),
            r.speed == 0,
            500 <= r.size < 1_500,
            300 <= r.metabolism < 700,
            80_000 <= r.reproduction_threshold < 120_000,
            r.vision_range == 0,
    {
        Genome {
            speed: 0,
            size: rand_i64_range(500, 1_500),
            metabolism: rand_i64_range(300, 700),
            reproduction_threshold: rand_i64_range(80_000, 120_000),
            vision_range: 0,
        }
    }

    /// A random prey genome: fast, with wide vision.
    pub fn random_prey() -> (r: Self)
        ensures
            r.wf(),
            50_000 <= r.speed < 150_000,
            1_000 <= r.size < 2_000,
            500 <= r.metabolism < 1_500,
            60_000 <= r.reproduction_threshold < 100_000,
            80_000 <= r.vision_range < 120_000,
    {
        Genome {
            speed: rand_i64_range(50_000, 150_000),
            size: rand_i64_range(1_000, 2_000),
            metabolism: rand_i64_range(500, 1_500),
            reproduction_threshold: rand_i64_range(60_000, 100_000),
            vision_range: rand_i64_range(80_000, 120_000),
        }
    }

    /// A random predator genome: fastest, largest, highest threshold.
    pub fn random_predator() -> (r: Self)
        ensures
            r.wf(),
            80_000 <= r.speed < 180_000,
            1_500 <= r.size < 3_000,
            1_000 <= r.metabolism < 2_000,
            80_000 <= r.reproduction_threshold < 140_000,
            100_000 <= r.vision_range < 180_000,
    {
        Genome {
            speed: rand_i64_range(80_000, 180_000),
            size: rand_i64_range(1_500, 3_000),
            metabolism: rand_i64_range(1_000, 2_000),
            reproduction_threshold: rand_i64_range(80_000, 140_000),
            vision_range: rand_i64_range(100_000, 180_000),
        }
    }

    /// A random scavenger genome: a frugal foraging profile, slow
    /// metabolism and moderate speed with wide vision, since carrion is a
    /// sparse food source.
    pub fn random_scavenger() -> (r: Self)
        ensures
            r.wf(),
            50_000 <= r.speed < 90_000,
            1_000 <= r.size < 1_500,
            300 <= r.metabolism < 700,
            90_000 <= r.reproduction_threshold < 130_000,
            90_000 <= r.vision_range < 150_000,
    {
        Genome {
            speed: rand_i64_range(50_000, 90_000),
            size: rand_i64_range(1_000, 1_500),
            metabolism: rand_i64_range(300, 700),
            reproduction_threshold: rand_i64_range(90_000, 130_000),
            vision_range: rand_i64_range(90_000, 150_000),
        }
    }
}

/// Sprint capability, carried by prey only. Milli-units; the regeneration
/// rate is per second.
#[derive(Clone, Copy, PartialEq, Eq, Structural, Debug)]
pub struct Stamina {
    pub current: i64,
    pub max: i64,
    pub regen_rate: i64,
}

impl Stamina {
    /// The bounds every stamina record satisfies.
    pub open spec fn wf(&self) -> bool {
        &&& STAMINA_FLOOR <= self.current <= self.max
        &&& 0 <= self.max <= 200_000
        &&& 0 <= self.regen_rate <= 100_000
    }
}

impl Default for Stamina {
    /// A full bar of 100 with regeneration of 10 per second.
    fn default() -> (r: Self)
        ensures
            r.wf(),
            r.current == 100_000,
            r.max == 100_000,
            r.regen_rate == 10_000,
    {
        Stamina { current: 100_000, max: 100_000, regen_rate: 10_000 }
    }
}

/// A wander destination, reassigned once the organism arrives within the
/// threshold.
#[derive(Clone, Copy, PartialEq, Eq, Structural, Debug)]
pub struct Waypoint {
    pub target: Vec2m,
    pub reached_threshold: i64,
}

/// Two organism records that agree on everything but the stored energy.
pub open spec fn same_except_energy(o: Organism, n: Organism) -> bool {
    n == (Organism { energy: n.energy, ..o })
}

/// The one organism record; which optional fields are present is tied to
/// the species tag by `wf`.
#[derive(Clone, Copy, PartialEq, Eq, Structural, Debug)]
pub struct Organism {
    /// Stable identifier, unique within a world.
    pub id: u64,
    pub species: Species,
    pub genome: Genome,
    /// Stored energy in milli-units; may dip below zero transiently.
    pub energy: i64,
    /// Age in microseconds since creation.
    pub age: i64,
    pub pos: Vec2m,
    /// Velocity in milli-units per second; zero for plants and corpses.
    pub vel: Vec2m,
    /// Present exactly on prey.
    pub stamina: Option<Stamina>,
    /// Present only on predators: the pursued prey's identifier.
    pub hunt_target: Option<u64>,
    /// Present only on predators and scavengers.
    pub waypoint: Option<Waypoint>,
    /// Remaining decay time in microseconds; zero on anything but a corpse.
    pub decay_timer: i64,
}

impl Organism {
    /// Whether the organism carries a living species tag.
    pub open spec fn is_living(&self) -> bool {
        self.species != Species::Corpse
    }

    /// The bounds and per-species shape every organism in a well-formed
    /// world satisfies.
    pub open spec fn wf(&self, cfg: &SimulationConfig) -> bool {
        &&& self.genome.wf()
        &&& ENERGY_FLOOR <= self.energy <= ENERGY_CEIL
        &&& 0 <= self.age <= AGE_CAP
        &&& -cfg.half_w() <= self.pos.x <= cfg.half_w()
        &&& -cfg.half_h() <= self.pos.y <= cfg.half_h()
        &&& -VEL_MAX <= self.vel.x <= VEL_MAX
        &&& -VEL_MAX <= self.vel.y <= VEL_MAX
        &&& (self.stamina is Some <==> self.species == Species::Prey)
        &&& (self.stamina is Some ==> self.stamina->Some_0.wf())
        &&& (self.hunt_target is Some ==> self.species == Species::Predator)
        &&& (self.waypoint is Some ==> self.species == Species::Predator || self.species
            == Species::Scavenger)
        &&& (self.waypoint is Some ==> {
            let wp = self.waypoint->Some_0;
            &&& -cfg.half_w() <= wp.target.x <= cfg.half_w()
            &&& -cfg.half_h() <= wp.target.y <= cfg.half_h()
            &&& 0 <= wp.reached_threshold <= 1_000_000
        })
        &&& (self.species == Species::Plant ==> self.vel == (Vec2m { x: 0, y: 0 }))
        &&& (self.species == Species::Corpse ==> self.vel == (Vec2m { x: 0, y: 0 })
            && self.hunt_target is None && self.waypoint is None)
        &&& (self.species == Species::Corpse ==> 0 <= self.decay_timer <= CORPSE_DECAY_TIME)
        &&& (self.species != Species::Corpse ==> self.decay_timer == 0)
    }
}

} // verus!
