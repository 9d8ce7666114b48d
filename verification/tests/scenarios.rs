//! Scripted scenarios: feeding transfers, hunter load-balancing, the
//! death-to-corpse transition with monotone decay, and conservation of
//! energy at birth.

use ecosim::config::{ConsoleOutput, SimulationConfig};
use ecosim::geom::Vec2m;
use ecosim::organism::{Organism, Species, Genome, Stamina};
use ecosim::world::{World, step};
use ecosim::interaction::eating_system;
use ecosim::movement::{predator_hunting_system, hunt_target_valid};
use ecosim::lifecycle::{reproduction_system, death_system};

fn plant_genome() -> Genome {
    Genome {
        speed: 0,
        size: 1_000,
        metabolism: 500,
        reproduction_threshold: 100_000,
        vision_range: 0,
    }
}

fn prey_genome() -> Genome {
    Genome {
        speed: 100_000,
        size: 1_500,
        metabolism: 1_000,
        reproduction_threshold: 80_000,
        vision_range: 100_000,
    }
}

fn predator_genome() -> Genome {
    Genome {
        speed: 150_000,
        size: 2_000,
        metabolism: 1_500,
        reproduction_threshold: 100_000,
        vision_range: 150_000,
    }
}

fn organism(id: u64, species: Species, genome: Genome, energy: i64, x: i64, y: i64) -> Organism {
    Organism {
        id,
        species,
        genome,
        energy,
        age: 0,
        pos: Vec2m { x, y },
        vel: Vec2m { x: 0, y: 0 },
        stamina: if species == Species::Prey {
            Some(Stamina { current: 100_000, max: 100_000, regen_rate: 10_000 })
        } else {
            None
        },
        hunt_target: None,
        waypoint: None,
        decay_timer: if species == Species::Corpse { 30_000_000 } else { 0 },
    }
}

#[test]
fn prey_feeding_transfers_exactly_the_configured_energy() {
    let mut w = World::new(SimulationConfig::default());
    w.organisms.push(organism(0, Species::Prey, prey_genome(), 50_000, 0, 0));
    w.organisms.push(organism(1, Species::Plant, plant_genome(), 30_000, 5_000, 0));
    w.next_id = 2;
    eating_system(&mut w);
    assert_eq!(w.organisms.len(), 1);
    assert_eq!(w.organisms[0].species, Species::Prey);
    assert_eq!(w.organisms[0].energy, 50_000 + w.config.prey_energy_from_plant);
}

#[test]
fn prey_ignores_depleted_plants() {
    let mut w = World::new(SimulationConfig::default());
    w.organisms.push(organism(0, Species::Prey, prey_genome(), 50_000, 0, 0));
    w.organisms.push(organism(1, Species::Plant, plant_genome(), 20_000, 5_000, 0));
    w.next_id = 2;
    eating_system(&mut w);
    assert_eq!(w.organisms.len(), 2);
    assert_eq!(w.organisms[0].energy, 50_000);
}

#[test]
fn predator_prefers_living_prey_over_corpses() {
    let mut w = World::new(SimulationConfig::default());
    w.organisms.push(organism(0, Species::Predator, predator_genome(), 60_000, 0, 0));
    w.organisms.push(organism(1, Species::Corpse, prey_genome(), 40_000, 5_000, 0));
    w.organisms.push(organism(2, Species::Prey, prey_genome(), 50_000, 10_000, 0));
    w.next_id = 3;
    eating_system(&mut w);
    let predator = w.organisms.iter().find(|o| o.id == 0).unwrap();
    assert_eq!(predator.energy, 60_000 + w.config.predator_energy_from_prey);
    assert!(w.organisms.iter().all(|o| o.id != 2), "the living prey should be taken");
    assert!(w.organisms.iter().any(|o| o.id == 1), "the corpse should remain");
}

#[test]
fn predator_scavenges_at_seventy_percent_without_prey() {
    let mut w = World::new(SimulationConfig::default());
    w.organisms.push(organism(0, Species::Predator, predator_genome(), 60_000, 0, 0));
    w.organisms.push(organism(1, Species::Corpse, prey_genome(), 40_000, 5_000, 0));
    w.next_id = 2;
    eating_system(&mut w);
    let predator = w.organisms.iter().find(|o| o.id == 0).unwrap();
    assert_eq!(
        predator.energy,
        60_000 + w.config.predator_energy_from_prey * 700 / 1000,
    );
    assert_eq!(w.organisms.len(), 1, "the corpse should be consumed");
}

#[test]
fn scavenger_feeds_on_nearby_corpse() {
    let mut w = World::new(SimulationConfig::default());
    let mut sc = organism(0, Species::Scavenger, prey_genome(), 50_000, 0, 0);
    sc.stamina = None;
    w.organisms.push(sc);
    w.organisms.push(organism(1, Species::Corpse, prey_genome(), 40_000, 5_000, 0));
    w.next_id = 2;
    eating_system(&mut w);
    assert_eq!(w.organisms.len(), 1);
    assert_eq!(
        w.organisms[0].energy,
        50_000 + w.config.scavenger_energy_from_corpse,
    );
}

#[test]
fn overcrowded_hunt_target_is_cleared_at_evaluation() {
    assert!(!hunt_target_valid(true, 4, 100_000, 150_000));
    assert!(!hunt_target_valid(true, 5, 100_000, 150_000));
    assert!(hunt_target_valid(true, 3, 100_000, 150_000));
    assert!(!hunt_target_valid(true, 3, 300_001, 150_000));
    assert!(!hunt_target_valid(false, 0, 0, 150_000));
}

#[test]
fn crowded_pack_rebalances_to_less_hunted_prey() {
    let mut w = World::new(SimulationConfig::default());
    w.organisms.push(organism(0, Species::Prey, prey_genome(), 50_000, 0, 0));
    w.organisms.push(organism(1, Species::Prey, prey_genome(), 50_000, 60_000, 0));
    for k in 0..5u64 {
        let mut p = organism(
            2 + k,
            Species::Predator,
            predator_genome(),
            80_000,
            30_000 + (k as i64) * 2_000,
            40_000,
        );
        p.hunt_target = Some(0);
        w.organisms.push(p);
    }
    w.next_id = 7;
    predator_hunting_system(&mut w, 16_667);
    for o in w.organisms.iter().filter(|o| o.species == Species::Predator) {
        assert_eq!(
            o.hunt_target,
            Some(1),
            "a predator crowding an over-hunted target must re-target the less hunted prey",
        );
    }
}

#[test]
fn dying_organism_becomes_a_corpse_and_decays_monotonically() {
    let mut w = World::new(SimulationConfig::default());
    let mut o = organism(0, Species::Prey, prey_genome(), -5, 0, 0);
    o.age = 100_000_000;
    w.organisms.push(o);
    w.next_id = 1;
    death_system(&mut w);
    let c = w.organisms.iter().find(|o| o.id == 0).unwrap();
    assert_eq!(c.species, Species::Corpse);
    assert_eq!(c.decay_timer, 30_000_000);
    assert_eq!(c.energy, -5, "a corpse keeps the energy it died with");
    let mut last_timer = c.decay_timer;
    let dt: i64 = 16_667;
    let mut gone_at: Option<usize> = None;
    for tick in 0..2_000usize {
        step(&mut w, dt);
        match w.organisms.iter().find(|o| o.id == 0) {
            Some(c) => {
                assert_eq!(c.species, Species::Corpse, "a corpse never regains a living tag");
                assert!(c.decay_timer < last_timer, "the decay timer strictly decreases");
                last_timer = c.decay_timer;
            },
            None => {
                gone_at = Some(tick);
                break;
            },
        }
    }
    let removed = gone_at.expect("the corpse must eventually be removed");
    assert!(removed >= 1_700, "the corpse should last about thirty seconds");
}

#[test]
fn console_pacing_fires_once_per_interval() {
    let mut console = ConsoleOutput::default();
    let mut fired = 0usize;
    for _ in 0..1800 {
        if console.due(16_667) {
            fired += 1;
        }
    }
    assert_eq!(fired, 3, "a ten-second interval fires three times in thirty seconds");
}

#[test]
fn reproduction_splits_energy_exactly_in_half() {
    let mut w = World::new(SimulationConfig::default());
    w.organisms.push(organism(0, Species::Plant, plant_genome(), 120_001, 0, 0));
    w.next_id = 1;
    let mut born = false;
    for _ in 0..10_000 {
        reproduction_system(&mut w);
        if w.organisms.len() == 2 {
            born = true;
            break;
        }
        assert_eq!(w.organisms[0].energy, 120_001);
    }
    assert!(born, "a plant above its threshold reproduces at one percent per tick");
    let parent = &w.organisms[0];
    let child = &w.organisms[1];
    assert_eq!(parent.energy, 60_000, "the parent keeps exactly half");
    assert_eq!(child.energy, 60_000, "the offspring receives exactly the same half");
    assert_eq!(child.genome, parent.genome, "the genome is cloned without mutation");
    assert_eq!(child.age, 0);
    assert_eq!(child.species, Species::Plant);
}
