//! The immutable run configuration and the numeric bounds the simulation
//! maintains as invariants.

use vstd::prelude::*;
use crate::geom::Vec2m;

verus! {

/// Ceiling on any organism's stored energy, in milli-units. Intake
/// saturates here; it is numeric headroom, far beyond what the energy
/// economy can accumulate.
pub const ENERGY_CEIL: i64 = 1_000_000_000;

/// Floor on stored energy. Energy only dips below zero transiently, by at
/// most one tick's drain, before the death check converts the organism.
pub const ENERGY_FLOOR: i64 = -1_000_000_000;

/// A plant's energy is capped here by growth, in milli-units.
pub const PLANT_ENERGY_CAP: i64 = 150_000;

/// Age at which an organism dies, in microseconds.
pub const MAX_AGE: i64 = 300_000_000;

/// Bound on any stored age: a living organism passes `MAX_AGE` by at most
/// one tick before the death check converts it.
pub const AGE_CAP: i64 = 400_000_000;

/// Bound on the magnitude of any velocity component, in milli-units per
/// second.
pub const VEL_MAX: i64 = 500_000;

/// A fresh corpse's decay timer, in microseconds.
pub const CORPSE_DECAY_TIME: i64 = 30_000_000;

/// Floor on stamina: a sprint can overdraw by at most one tick's drain.
pub const STAMINA_FLOOR: i64 = -2_000_000;

/// Hard cap on how many organisms the arena will hold; spawning systems
/// stop adding at this point.
pub const MAX_ORGANISMS: usize = 500_000;

/// Longest tick the systems accept, in microseconds.
pub const MAX_TICK: i64 = 60_000_000;

/// Fixed configuration supplied at startup and immutable for the run.
/// Spatial extents and energies are in milli-units.
pub struct SimulationConfig {
    /// Full world extents; positions wrap at the half-extents.
    pub world_size: Vec2m,
    pub initial_plants: usize,
    pub initial_prey: usize,
    pub initial_predators: usize,
    pub initial_scavengers: usize,
    /// Plant growth rate under full sun, milli-energy per second per size.
    pub plant_energy_from_sun: i64,
    pub prey_energy_from_plant: i64,
    pub predator_energy_from_prey: i64,
    pub scavenger_energy_from_corpse: i64,
    /// Plant respawn trials per second under full sun, in milli.
    pub plant_respawn_rate: i64,
    pub max_plants: usize,
}

impl SimulationConfig {
    /// Half of the world's width: the wrap boundary on the x axis.
    pub open spec fn half_w(&self) -> int {
        self.world_size.x as int / 2
    }

    /// Half of the world's height: the wrap boundary on the y axis.
    pub open spec fn half_h(&self) -> int {
        self.world_size.y as int / 2
    }

    /// The bounds every run configuration satisfies.
    pub open spec fn wf(&self) -> bool {
        &&& 2 <= self.world_size.x <= 0x4000_0000
        &&& 2 <= self.world_size.y <= 0x4000_0000
        &&& self.world_size.x % 2 == 0
        &&& self.world_size.y % 2 == 0
        &&& 0 <= self.plant_energy_from_sun <= 100_000
        &&& 0 <= self.prey_energy_from_plant <= 1_000_000
        &&& 0 <= self.predator_energy_from_prey <= 1_000_000
        &&& 0 <= self.scavenger_energy_from_corpse <= 1_000_000
        &&& 0 <= self.plant_respawn_rate <= 1_000_000
        &&& self.max_plants <= MAX_ORGANISMS
        &&& self.initial_plants + self.initial_prey + self.initial_predators
            + self.initial_scavengers <= MAX_ORGANISMS
    }

    /// Half of the world's width, executable.
    pub fn half_width(&self) -> (r: i64)
        requires
            self.wf(),
        ensures
            r == self.half_w(),
            1 <= r <= 0x2000_0000,
    {
        self.world_size.x / 2
    }

    /// Half of the world's height, executable.
    pub fn half_height(&self) -> (r: i64)
        requires
            self.wf(),
        ensures
            r == self.half_h(),
            1 <= r <= 0x2000_0000,
    {
        self.world_size.y / 2
    }
}

impl Default for SimulationConfig {
    /// The default run: a 4800 by 3200 world, 600 plants, 160 prey,
    /// 32 predators and 48 scavengers.
    fn default() -> (r: Self)
        ensures
            r.wf(),
            r.world_size == (Vec2m { x: 4_800_000, y: 3_200_000 }),
            r.initial_plants == 600,
            r.initial_prey == 160,
            r.initial_predators == 32,
            r.initial_scavengers == 48,
            r.plant_energy_from_sun == 500,
            r.prey_energy_from_plant == 30_000,
            r.predator_energy_from_prey == 50_000,
            r.scavenger_energy_from_corpse == 35_000,
            r.plant_respawn_rate == 2_000,
            r.max_plants == 1200,
    {
        SimulationConfig {
            world_size: Vec2m { x: 4_800_000, y: 3_200_000 },
            initial_plants: 600,
            initial_prey: 160,
            initial_predators: 32,
            initial_scavengers: 48,
            plant_energy_from_sun: 500,
            prey_energy_from_plant: 30_000,
            predator_energy_from_prey: 50_000,
            scavenger_energy_from_corpse: 35_000,
            plant_respawn_rate: 2_000,
            max_plants: 1200,
        }
    }
}

/// Aggregate population counts, refreshed once per tick.
#[derive(Clone, Copy, PartialEq, Eq, Structural, Debug)]
pub struct PopulationStats {
    pub plants: usize,
    pub prey: usize,
    pub predators: usize,
    pub scavengers: usize,
}

impl Default for PopulationStats {
    /// All counts zero.
    fn default() -> (r: Self)
        ensures
            r.plants == 0 && r.prey == 0 && r.predators == 0 && r.scavengers == 0,
    {
        PopulationStats { plants: 0, prey: 0, predators: 0, scavengers: 0 }
    }
}

/// The day/night oscillator's state: current intensity in milli and the
/// accumulated phase in microradians, kept reduced below one full turn.
#[derive(Clone, Copy, PartialEq, Eq, Structural, Debug)]
pub struct SunlightLevel {
    pub intensity: i64,
    pub phase: i64,
}

impl Default for SunlightLevel {
    /// Full intensity at phase zero, as at the start of a run.
    fn default() -> (r: Self)
        ensures
            r.intensity == 1000,
            r.phase == 0,
    {
        SunlightLevel { intensity: 1000, phase: 0 }
    }
}

/// One periodic record of aggregate simulation state.
#[derive(Clone, Copy, PartialEq, Eq, Structural, Debug)]
pub struct SimulationSnapshot {
    pub plant_count: usize,
    pub prey_count: usize,
    pub predator_count: usize,
    pub scavenger_count: usize,
    /// Sum of all stored energy, in milli-units.
    pub total_energy: i64,
    /// Average ages in microseconds; zero when the species is absent.
    pub avg_plant_age: i64,
    pub avg_prey_age: i64,
    pub avg_predator_age: i64,
    /// Average genome speeds in milli-units; zero when the species is absent.
    pub avg_prey_speed: i64,
    pub avg_predator_speed: i64,
}

impl Default for SimulationSnapshot {
    /// All counts and aggregates zero.
    fn default() -> (r: Self)
        ensures
            r == (SimulationSnapshot {
                plant_count: 0,
                prey_count: 0,
                predator_count: 0,
                scavenger_count: 0,
                total_energy: 0,
                avg_plant_age: 0,
                avg_prey_age: 0,
                avg_predator_age: 0,
                avg_prey_speed: 0,
                avg_predator_speed: 0,
            }),
    {
        SimulationSnapshot {
            plant_count: 0,
            prey_count: 0,
            predator_count: 0,
            scavenger_count: 0,
            total_energy: 0,
            avg_plant_age: 0,
            avg_prey_age: 0,
            avg_predator_age: 0,
            avg_prey_speed: 0,
            avg_predator_speed: 0,
        }
    }
}

/// The rolling record of periodic snapshots.
pub struct SimulationHistory {
    pub snapshots: Vec<SimulationSnapshot>,
    /// Interval between records, in microseconds.
    pub record_interval: i64,
    /// Time accumulated since the last record, in microseconds.
    pub time_since_last_record: i64,
}

/// Pacing state for periodic console reporting; the report itself is a
/// presentation concern outside the simulation core.
#[derive(Clone, Copy, PartialEq, Eq, Structural, Debug)]
pub struct ConsoleOutput {
    /// Interval between reports, in microseconds.
    pub print_interval: i64,
    /// Time accumulated since the last report, in microseconds.
    pub time_since_last_print: i64,
}

impl Default for ConsoleOutput {
    /// A report every ten seconds.
    fn default() -> (r: Self)
        ensures
            r.print_interval == 10_000_000,
            r.time_since_last_print == 0,
    {
        ConsoleOutput { print_interval: 10_000_000, time_since_last_print: 0 }
    }
}

impl ConsoleOutput {
    /// Accumulates elapsed time; once the interval has passed, resets the
    /// accumulator and says a report is due.
    pub fn due(&mut self, dt: i64) -> (r: bool)
        requires
            0 <= old(self).time_since_last_print <= 1_000_000_000_000,
            0 <= old(self).print_interval <= 1_000_000_000_000,
            0 <= dt <= MAX_TICK,
        ensures
            r == (old(self).time_since_last_print + dt >= old(self).print_interval),
            r ==> final(self).time_since_last_print == 0,
            !r ==> final(self).time_since_last_print == old(self).time_since_last_print + dt,
            final(self).print_interval == old(self).print_interval,
    {
        let t = self.time_since_last_print + dt;
        if t >= self.print_interval {
            self.time_since_last_print = 0;
            true
        } else {
            self.time_since_last_print = t;
            false
        }
    }
}

} // verus!
