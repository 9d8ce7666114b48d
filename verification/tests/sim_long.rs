//! Long-run behavior of the full per-tick loop: persistence, bounded
//! populations and a sane energy budget, at the 1/60-second step.

use ecosim::config::SimulationConfig;
use ecosim::organism::Species;
use ecosim::setup::setup;
use ecosim::world::{World, step};

const TICK: i64 = 16_667;

fn seeded_world() -> World {
    let mut w = World::new(SimulationConfig::default());
    setup(&mut w);
    w
}

#[test]
fn test_simulation_survives_60_seconds() {
    let mut w = seeded_world();

    // Run for 60 simulated seconds (3600 frames at 60 FPS)
    for _ in 0..3600 {
        step(&mut w, TICK);
    }

    let stats = w.stats;
    println!(
        "After 60s - Plants: {}, Prey: {}, Predators: {}, Scavengers: {}",
        stats.plants, stats.prey, stats.predators, stats.scavengers
    );

    // At least one of each species should survive
    assert!(stats.plants > 0, "Plants went extinct");
    assert!(stats.prey > 0, "Prey went extinct");
    assert!(stats.predators > 0, "Predators went extinct");
    assert!(stats.scavengers > 0, "Scavengers went extinct");
}

#[test]
fn test_no_early_extinction() {
    let mut w = seeded_world();

    // Run for 30 simulated seconds
    for _ in 0..1800 {
        step(&mut w, TICK);
    }

    let stats = w.stats;
    println!(
        "After 30s - Plants: {}, Prey: {}, Predators: {}, Scavengers: {}",
        stats.plants, stats.prey, stats.predators, stats.scavengers
    );

    // All species should still be alive after 30 seconds
    assert!(stats.plants > 10, "Too few plants survived ({})", stats.plants);
    assert!(stats.prey > 5, "Too few prey survived ({})", stats.prey);
    assert!(stats.predators > 2, "Too few predators survived ({})", stats.predators);
    assert!(stats.scavengers > 2, "Too few scavengers survived ({})", stats.scavengers);
}

#[test]
fn test_no_population_explosion() {
    let mut w = seeded_world();

    // Run for 90 simulated seconds
    for _ in 0..5400 {
        step(&mut w, TICK);
    }

    let stats = w.stats;
    println!(
        "After 90s - Plants: {}, Prey: {}, Predators: {}, Scavengers: {}",
        stats.plants, stats.prey, stats.predators, stats.scavengers
    );

    // Populations shouldn't explode
    assert!(stats.plants < 500, "Plant population exploded ({})", stats.plants);
    assert!(stats.prey < 200, "Prey population exploded ({})", stats.prey);
    assert!(stats.predators < 50, "Predator population exploded ({})", stats.predators);
    assert!(stats.scavengers < 50, "Scavenger population exploded ({})", stats.scavengers);
}

#[test]
fn test_energy_balance() {
    let mut w = seeded_world();

    // Run for 30 seconds
    for _ in 0..1800 {
        step(&mut w, TICK);
    }

    // Calculate total energy in the system, in whole units
    let mut total_milli: i64 = 0;
    for o in w.organisms.iter() {
        total_milli += o.energy;
    }
    let total_energy = total_milli / 1000;

    println!("Total energy after 30s: {}", total_energy);

    // System should have reasonable energy (not zero, not infinite)
    assert!(total_energy > 500, "System energy too low ({})", total_energy);
    assert!(total_energy < 50000, "System energy too high ({})", total_energy);
}

#[test]
fn immigration_recovers_collapsed_populations() {
    let mut w = seeded_world();
    // Collapse every animal population to two individuals; plants stay.
    let mut kept_prey = 0usize;
    let mut kept_predators = 0usize;
    let mut kept_scavengers = 0usize;
    let mut survivors = Vec::new();
    for o in w.organisms.iter() {
        let keep = match o.species {
            Species::Plant => true,
            Species::Corpse => true,
            Species::Prey => {
                kept_prey += 1;
                kept_prey <= 2
            },
            Species::Predator => {
                kept_predators += 1;
                kept_predators <= 2
            },
            Species::Scavenger => {
                kept_scavengers += 1;
                kept_scavengers <= 2
            },
        };
        if keep {
            survivors.push(*o);
        }
    }
    w.organisms = survivors;
    step(&mut w, TICK);
    let before = w.stats.prey + w.stats.predators + w.stats.scavengers;
    println!(
        "Before immigration - Prey: {}, Predators: {}, Scavengers: {}",
        w.stats.prey, w.stats.predators, w.stats.scavengers
    );

    // Run for 120 seconds so the two-percent-per-second immigration trials
    // fire repeatedly.
    for _ in 0..7200 {
        step(&mut w, TICK);
    }

    let after = w.stats.prey + w.stats.predators + w.stats.scavengers;
    println!(
        "After 120s - Prey: {}, Predators: {}, Scavengers: {}",
        w.stats.prey, w.stats.predators, w.stats.scavengers
    );
    assert!(w.stats.prey >= 2, "Prey population didn't recover ({})", w.stats.prey);
    assert!(
        after >= before,
        "No population recovery occurred (before: {}, after: {})",
        before,
        after
    );
}

#[test]
fn test_population_counts_match_arena() {
    let mut w = seeded_world();
    for _ in 0..120 {
        step(&mut w, TICK);
    }
    let plants = w.organisms.iter().filter(|o| o.species == Species::Plant).count();
    let prey = w.organisms.iter().filter(|o| o.species == Species::Prey).count();
    let predators = w.organisms.iter().filter(|o| o.species == Species::Predator).count();
    let scavengers = w.organisms.iter().filter(|o| o.species == Species::Scavenger).count();
    assert_eq!(w.stats.plants, plants);
    assert_eq!(w.stats.prey, prey);
    assert_eq!(w.stats.predators, predators);
    assert_eq!(w.stats.scavengers, scavengers);
    assert_eq!(
        w.history.snapshots.len(),
        2,
        "the recorder takes one snapshot per simulated second",
    );
}
