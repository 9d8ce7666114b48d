//! Exact values of the per-tick lifecycle formulas: plant growth under the
//! sun, metabolic drain, aging, and the immigration gate.

use ecosim::config::SimulationConfig;
use ecosim::geom::Vec2m;
use ecosim::organism::{Organism, Species, Genome, Stamina};
use ecosim::world::World;
use ecosim::environment::{
    plant_growth_system, immigration_system, respawn_trial_ppm, immigration_trial_ppm,
};
use ecosim::lifecycle::{energy_consumption_system, age_system, reproduction_trial_ppm};

const TICK: i64 = 16_667;

fn still_organism(id: u64, species: Species, genome: Genome, energy: i64) -> Organism {
    Organism {
        id,
        species,
        genome,
        energy,
        age: 0,
        pos: Vec2m { x: 0, y: 0 },
        vel: Vec2m { x: 0, y: 0 },
        stamina: if species == Species::Prey {
            Some(Stamina { current: 100_000, max: 100_000, regen_rate: 10_000 })
        } else {
            None
        },
        hunt_target: None,
        waypoint: None,
        decay_timer: 0,
    }
}

#[test]
fn plant_growth_follows_the_sun_formula() {
    let mut w = World::new(SimulationConfig::default());
    let genome = Genome {
        speed: 0,
        size: 1_000,
        metabolism: 500,
        reproduction_threshold: 100_000,
        vision_range: 0,
    };
    w.organisms.push(still_organism(0, Species::Plant, genome, 30_000));
    w.next_id = 1;
    // Growth at full intensity: 0.5 * 1.0 * 1.0 per second, over one tick.
    plant_growth_system(&mut w, TICK);
    assert_eq!(w.organisms[0].energy, 30_008);
    // Growth saturates at the 150-unit cap.
    w.organisms[0].energy = 149_999;
    plant_growth_system(&mut w, TICK);
    assert_eq!(w.organisms[0].energy, 150_000);
}

#[test]
fn metabolic_drain_charges_basal_plus_motion() {
    let mut w = World::new(SimulationConfig::default());
    let genome = Genome {
        speed: 100_000,
        size: 1_500,
        metabolism: 1_000,
        reproduction_threshold: 80_000,
        vision_range: 100_000,
    };
    let mut o = still_organism(0, Species::Prey, genome, 50_000);
    o.vel = Vec2m { x: 30_000, y: 40_000 };
    w.organisms.push(o);
    w.next_id = 1;
    // Basal: 1.0 * 1.5 per second -> 25 milli per tick.
    // Motion: |v| = 50 units per second -> 0.5 per second -> 8 milli per tick.
    energy_consumption_system(&mut w, TICK);
    assert_eq!(w.organisms[0].energy, 50_000 - 25 - 8);
}

#[test]
fn aging_adds_exactly_the_elapsed_tick() {
    let mut w = World::new(SimulationConfig::default());
    let genome = Genome {
        speed: 0,
        size: 1_000,
        metabolism: 500,
        reproduction_threshold: 100_000,
        vision_range: 0,
    };
    w.organisms.push(still_organism(0, Species::Plant, genome, 30_000));
    w.next_id = 1;
    age_system(&mut w, TICK);
    age_system(&mut w, TICK);
    assert_eq!(w.organisms[0].age, 2 * TICK);
}

#[test]
fn trial_probabilities_match_the_specified_rates() {
    // Plant respawn: 2.0 trials per second under full sun over a 1/60 s
    // tick is 2.0 * 1.0 / 60 ~ 33,334 parts per million.
    assert_eq!(respawn_trial_ppm(2_000, 1_000, TICK), 33_334);
    // Half sun halves the chance.
    assert_eq!(respawn_trial_ppm(2_000, 500, TICK), 16_667);
    // Immigration: two percent per second over a 1/60 s tick.
    assert_eq!(immigration_trial_ppm(TICK), 333);
    // Reproduction rates: plants fixed at one percent; animals doubled
    // while their population is below ten.
    assert_eq!(reproduction_trial_ppm(Species::Plant, 0, 0, 0), 10_000);
    assert_eq!(reproduction_trial_ppm(Species::Prey, 9, 0, 0), 10_000);
    assert_eq!(reproduction_trial_ppm(Species::Prey, 10, 0, 0), 5_000);
    assert_eq!(reproduction_trial_ppm(Species::Predator, 0, 9, 0), 6_000);
    assert_eq!(reproduction_trial_ppm(Species::Predator, 0, 10, 0), 3_000);
    assert_eq!(reproduction_trial_ppm(Species::Scavenger, 0, 0, 9), 8_000);
    assert_eq!(reproduction_trial_ppm(Species::Scavenger, 0, 0, 10), 4_000);
    assert_eq!(reproduction_trial_ppm(Species::Corpse, 0, 0, 0), 0);
}

#[test]
fn immigration_is_gated_purely_on_low_population() {
    let mut w = World::new(SimulationConfig::default());
    let genome = Genome {
        speed: 100_000,
        size: 1_500,
        metabolism: 1_000,
        reproduction_threshold: 80_000,
        vision_range: 100_000,
    };
    for k in 0..5u64 {
        w.organisms.push(still_organism(k, Species::Prey, genome, 50_000));
    }
    w.next_id = 5;
    // With five prey and no predators or scavengers, only the other two
    // species may receive immigrants, however often the trial is run.
    for _ in 0..20_000 {
        immigration_system(&mut w, TICK);
    }
    let prey = w.organisms.iter().filter(|o| o.species == Species::Prey).count();
    assert_eq!(prey, 5, "immigration never fires at or above five individuals");
    let others = w.organisms.len() - prey;
    assert!(others > 0, "low predator and scavenger counts draw immigrants");
}
