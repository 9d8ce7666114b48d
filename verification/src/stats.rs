//! Per-tick aggregate counts and the periodic history of snapshots.

use vstd::prelude::*;
use crate::fixed::div_tz;
use crate::organism::{Organism, Species};
use crate::config::{SimulationSnapshot, MAX_TICK, MAX_ORGANISMS, ENERGY_CEIL, AGE_CAP};
use crate::world::{World, count_species};

verus! {

/// The sum of all stored energy over the arena prefix.
pub open spec fn sum_energy(s: Seq<Organism>, k: int) -> int
    decreases k,
{
    if k <= 0 {
        0
    } else {
        sum_energy(s, k - 1) + s[k - 1].energy
    }
}

/// The sum of the ages of one species over the arena prefix.
pub open spec fn sum_age(s: Seq<Organism>, sp: Species, k: int) -> int
    decreases k,
{
    if k <= 0 {
        0
    } else {
        sum_age(s, sp, k - 1) + if s[k - 1].species == sp {
            s[k - 1].age as int
        } else {
            0
        }
    }
}

/// The sum of the genome speeds of one species over the arena prefix.
pub open spec fn sum_speed(s: Seq<Organism>, sp: Species, k: int) -> int
    decreases k,
{
    if k <= 0 {
        0
    } else {
        sum_speed(s, sp, k - 1) + if s[k - 1].species == sp {
            s[k - 1].genome.speed as int
        } else {
            0
        }
    }
}

/// An average that yields zero for an absent species rather than a
/// division fault.
pub open spec fn avg_or_zero(total: int, count: int) -> int {
    if count > 0 {
        div_tz(total, count)
    } else {
        0
    }
}

/// The snapshot the recorder takes: population counts from the stats, the
/// total stored energy of every organism, and guarded per-species
/// averages of age and genome speed.
pub open spec fn snapshot_of(w: &World) -> SimulationSnapshot {
    let s = w.organisms@;
    let n = s.len() as int;
    SimulationSnapshot {
        plant_count: w.stats.plants,
        prey_count: w.stats.prey,
        predator_count: w.stats.predators,
        scavenger_count: w.stats.scavengers,
        total_energy: sum_energy(s, n) as i64,
        avg_plant_age: avg_or_zero(sum_age(s, Species::Plant, n), w.stats.plants as int) as i64,
        avg_prey_age: avg_or_zero(sum_age(s, Species::Prey, n), w.stats.prey as int) as i64,
        avg_predator_age: avg_or_zero(
            sum_age(s, Species::Predator, n),
            w.stats.predators as int,
        ) as i64,
        avg_prey_speed: avg_or_zero(sum_speed(s, Species::Prey, n), w.stats.prey as int) as i64,
        avg_predator_speed: avg_or_zero(
            sum_speed(s, Species::Predator, n),
            w.stats.predators as int,
        ) as i64,
    }
}

/// Refreshes the aggregate per-species population counts.
pub fn update_population_stats(w: &mut World)
    requires
        old(w).wf(),
    ensures
        final(w).wf(),
        final(w).stats.plants == count_species(old(w).organisms@, Species::Plant),
        final(w).stats.prey == count_species(old(w).organisms@, Species::Prey),
        final(w).stats.predators == count_species(old(w).organisms@, Species::Predator),
        final(w).stats.scavengers == count_species(old(w).organisms@, Species::Scavenger),
        final(w).organisms == old(w).organisms,
        final(w).config == old(w).config,
        final(w).next_id == old(w).next_id,
        final(w).sunlight == old(w).sunlight,
        final(w).history == old(w).history,
{
    proof {
        crate::world::lemma_count_species_le_len(w.organisms@, Species::Plant);
        crate::world::lemma_count_species_le_len(w.organisms@, Species::Prey);
        crate::world::lemma_count_species_le_len(w.organisms@, Species::Predator);
        crate::world::lemma_count_species_le_len(w.organisms@, Species::Scavenger);
    }
    let plants = w.count_of(Species::Plant);
    let prey = w.count_of(Species::Prey);
    let predators = w.count_of(Species::Predator);
    let scavengers = w.count_of(Species::Scavenger);
    w.stats = crate::config::PopulationStats { plants, prey, predators, scavengers };
}

/// Computes the current snapshot.
fn take_snapshot(w: &World) -> (r: SimulationSnapshot)
    requires
        w.wf(),
    ensures
        r == snapshot_of(w),
{
    let n = w.organisms.len();
    let mut te: i64 = 0;
    let mut a_plant: i64 = 0;
    let mut a_prey: i64 = 0;
    let mut a_pred: i64 = 0;
    let mut s_prey: i64 = 0;
    let mut s_pred: i64 = 0;
    let ghost s = w.organisms@;
    let mut i: usize = 0;
    while i < n
        invariant
            w.wf(),
            s == w.organisms@,
            n == s.len(),
            n <= MAX_ORGANISMS,
            i <= n,
            te == sum_energy(s, i as int),
            a_plant == sum_age(s, Species::Plant, i as int),
            a_prey == sum_age(s, Species::Prey, i as int),
            a_pred == sum_age(s, Species::Predator, i as int),
            s_prey == sum_speed(s, Species::Prey, i as int),
            s_pred == sum_speed(s, Species::Predator, i as int),
            -((ENERGY_CEIL as int) * (i as int)) <= te <= (ENERGY_CEIL as int) * (i as int),
            0 <= a_plant <= (AGE_CAP as int) * (i as int),
            0 <= a_prey <= (AGE_CAP as int) * (i as int),
            0 <= a_pred <= (AGE_CAP as int) * (i as int),
            0 <= s_prey <= 200_000 * (i as int),
            0 <= s_pred <= 200_000 * (i as int),
        decreases n - i,
    {
        let o = &w.organisms[i];
        proof {
            assert(w.organisms@[i as int].wf(&w.config));
            assert((ENERGY_CEIL as int) * ((i + 1) as int) == (ENERGY_CEIL as int) * (i as int)
                + ENERGY_CEIL && (AGE_CAP as int) * ((i + 1) as int) == (AGE_CAP as int) * (
            i as int) + AGE_CAP && 200_000 * ((i + 1) as int) == 200_000 * (i as int) + 200_000
                && (ENERGY_CEIL as int) * (i as int) <= ENERGY_CEIL * 500_000 && (AGE_CAP as int)
                * (i as int) <= (AGE_CAP as int) * 500_000) by (nonlinear_arith)
                requires
                    0 <= i <= 500_000,
            ;
        }
        te = te + o.energy;
        if o.species == Species::Plant {
            a_plant = a_plant + o.age;
        } else if o.species == Species::Prey {
            a_prey = a_prey + o.age;
            s_prey = s_prey + o.genome.speed;
        } else if o.species == Species::Predator {
            a_pred = a_pred + o.age;
            s_pred = s_pred + o.genome.speed;
        }
        i = i + 1;
    }
    proof {
        assert((ENERGY_CEIL as int) * (n as int) <= ENERGY_CEIL * 500_000 && (AGE_CAP as int) * (
        n as int) <= (AGE_CAP as int) * 500_000 && 200_000 * (n as int) <= 200_000 * 500_000)
            by (nonlinear_arith)
            requires
                n <= 500_000,
        ;
    }
    let avg_plant_age = if w.stats.plants > 0 {
        crate::fixed::div_fx(a_plant, w.stats.plants as i64)
    } else {
        0
    };
    let avg_prey_age = if w.stats.prey > 0 {
        crate::fixed::div_fx(a_prey, w.stats.prey as i64)
    } else {
        0
    };
    let avg_predator_age = if w.stats.predators > 0 {
        crate::fixed::div_fx(a_pred, w.stats.predators as i64)
    } else {
        0
    };
    let avg_prey_speed = if w.stats.prey > 0 {
        crate::fixed::div_fx(s_prey, w.stats.prey as i64)
    } else {
        0
    };
    let avg_predator_speed = if w.stats.predators > 0 {
        crate::fixed::div_fx(s_pred, w.stats.predators as i64)
    } else {
        0
    };
    SimulationSnapshot {
        plant_count: w.stats.plants,
        prey_count: w.stats.prey,
        predator_count: w.stats.predators,
        scavenger_count: w.stats.scavengers,
        total_energy: te,
        avg_plant_age,
        avg_prey_age,
        avg_predator_age,
        avg_prey_speed,
        avg_predator_speed,
    }
}

/// Accumulates elapsed time and, once the record interval has passed,
/// appends one snapshot of counts, total energy and per-species averages,
/// then resets the accumulator. Averages guard the zero-population case
/// with zero rather than a division fault.
pub fn record_history_system(w: &mut World, dt: i64)
    requires
        old(w).wf(),
        0 <= dt <= MAX_TICK,
    ensures
        final(w).wf(),
        final(w).history.snapshots@.len() >= old(w).history.snapshots@.len(),
        old(w).history.time_since_last_record + dt >= old(w).history.record_interval ==> {
            &&& final(w).history.snapshots@ == old(w).history.snapshots@.push(snapshot_of(old(w)))
            &&& final(w).history.time_since_last_record == 0
        },
        old(w).history.time_since_last_record + dt < old(w).history.record_interval ==> {
            &&& final(w).history.snapshots@ == old(w).history.snapshots@
            &&& final(w).history.time_since_last_record == old(w).history.time_since_last_record
                + dt
        },
        final(w).history.record_interval == old(w).history.record_interval,
        final(w).organisms == old(w).organisms,
        final(w).config == old(w).config,
        final(w).next_id == old(w).next_id,
        final(w).sunlight == old(w).sunlight,
        final(w).stats == old(w).stats,
{
    let t = w.history.time_since_last_record + dt;
    if t >= w.history.record_interval {
        w.history.time_since_last_record = 0;
        let snap = take_snapshot(w);
        w.history.snapshots.push(snap);
    } else {
        w.history.time_since_last_record = t;
    }
}

} // verus!
