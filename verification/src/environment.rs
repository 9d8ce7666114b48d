//! The environment: the day/night sunlight oscillator, plant growth,
//! plant respawn, and low-population immigration.

use vstd::prelude::*;
use crate::fixed::div_tz;
use crate::world::{World, count_species, lemma_count_species_le_len, ID_LIMIT};
use crate::organism::{Organism, Species, Genome, Stamina};
use crate::config::{PLANT_ENERGY_CAP, MAX_TICK, MAX_ORGANISMS};
use crate::geom::Vec2m;
use crate::rng::{rand_i64_range, bernoulli_ppm};

verus! {

/// Half a turn (pi) in microradians.
pub const HALF_TURN: i64 = 3_141_593;

/// A full turn (two pi) in microradians.
pub const FULL_TURN: i64 = 6_283_186;

/// The rational approximation of the sine on `[0, HALF_TURN]`, in milli:
/// `16 x (pi - x) * 1000 / (5 pi^2 - 4 x (pi - x))`.
pub open spec fn sin_half_spec(x: int) -> int
    recommends
        0 <= x <= HALF_TURN,
{
    (16 * x * (HALF_TURN - x) * 1000) / (5 * HALF_TURN * HALF_TURN - 4 * x * (HALF_TURN - x))
}

/// The sine over a full turn, odd around the half turn.
pub open spec fn sin_milli_spec(ph: int) -> int
    recommends
        0 <= ph < FULL_TURN,
{
    if ph <= HALF_TURN {
        sin_half_spec(ph)
    } else {
        -sin_half_spec(ph - HALF_TURN)
    }
}

/// The sunlight intensity for a phase: `sin * 0.3 + 0.7`, in milli.
pub open spec fn intensity_of_spec(ph: int) -> int {
    div_tz(sin_milli_spec(ph) * 300, 1000) + 700
}

/// The half-turn sine stays within `[0, 1000]`.
proof fn lemma_sin_half_bounds(x: int)
    requires
        0 <= x <= HALF_TURN,
    ensures
        0 <= sin_half_spec(x) <= 1000,
{
    let h = HALF_TURN as int;
    let p = x * (h - x);
    assert(0 <= 4 * p <= h * h) by (nonlinear_arith)
        requires
            0 <= x <= h,
            p == x * (h - x),
    ;
    let num = 16 * p * 1000;
    let den = 5 * h * h - 4 * p;
    assert(den >= 4 * (h * h) && h * h > 0) by (nonlinear_arith)
        requires
            4 * p <= h * h,
            p >= 0,
            den == 5 * h * h - 4 * p,
            h == HALF_TURN as int,
    ;
    assert(num >= 0 && num <= 1000 * den) by (nonlinear_arith)
        requires
            p >= 0,
            4 * p <= h * h,
            num == 16 * p * 1000,
            den == 5 * h * h - 4 * p,
    ;
    assert(0 <= num / den <= 1000) by (nonlinear_arith)
        requires
            den > 0,
            num >= 0,
            num <= 1000 * den,
    ;
    assert(sin_half_spec(x) == num / den) by (nonlinear_arith)
        requires
            p == x * (h - x),
            num == 16 * p * 1000,
            den == 5 * h * h - 4 * p,
            h == HALF_TURN as int,
    ;
}

/// The full-turn sine stays within `[-1000, 1000]`, so the intensity stays
/// within `[400, 1000]`.
pub proof fn lemma_intensity_bounds(ph: int)
    requires
        0 <= ph < FULL_TURN,
    ensures
        -1000 <= sin_milli_spec(ph) <= 1000,
        400 <= intensity_of_spec(ph) <= 1000,
{
    if ph <= HALF_TURN {
        lemma_sin_half_bounds(ph);
    } else {
        lemma_sin_half_bounds(ph - HALF_TURN);
    }
    let s = sin_milli_spec(ph);
    assert(-(300 * 1000) <= s * 300 <= 300 * 1000) by (nonlinear_arith)
        requires
            -1000 <= s <= 1000,
    ;
    crate::fixed::lemma_div_tz_bound(s * 300, 1000, 300);
}

/// The sine of a phase in `[0, FULL_TURN)`, in milli.
pub fn sin_milli(ph: i64) -> (r: i64)
    requires
        0 <= ph < FULL_TURN,
    ensures
        r == sin_milli_spec(ph as int),
        -1000 <= r <= 1000,
{
    proof {
        lemma_intensity_bounds(ph as int);
        if ph <= HALF_TURN {
            lemma_sin_half_bounds(ph as int);
        } else {
            lemma_sin_half_bounds(ph - HALF_TURN);
        }
    }
    if ph <= HALF_TURN {
        proof {
            assert(0 <= (ph as int) * (HALF_TURN - ph) <= HALF_TURN * HALF_TURN)
                by (nonlinear_arith)
                requires
                    0 <= ph <= HALF_TURN,
            ;
        }
        let p: i64 = ph * (HALF_TURN - ph);
        let num: i64 = 16 * p * 1000;
        let den: i64 = 5 * HALF_TURN * HALF_TURN - 4 * p;
        proof {
            assert(den > 0 && num / den == sin_half_spec(ph as int)) by (nonlinear_arith)
                requires
                    0 <= p <= HALF_TURN * HALF_TURN,
                    p == ph * (HALF_TURN - ph),
                    num == 16 * p * 1000,
                    den == 5 * HALF_TURN * HALF_TURN - 4 * p,
                    0 <= ph <= HALF_TURN,
            ;
        }
        num / den
    } else {
        let x: i64 = ph - HALF_TURN;
        proof {
            assert(0 <= (x as int) * (HALF_TURN - x) <= HALF_TURN * HALF_TURN)
                by (nonlinear_arith)
                requires
                    0 <= x < HALF_TURN,
            ;
        }
        let p: i64 = x * (HALF_TURN - x);
        let num: i64 = 16 * p * 1000;
        let den: i64 = 5 * HALF_TURN * HALF_TURN - 4 * p;
        proof {
            assert(den > 0 && num / den == sin_half_spec(x as int)) by (nonlinear_arith)
                requires
                    0 <= p <= HALF_TURN * HALF_TURN,
                    p == x * (HALF_TURN - x),
                    num == 16 * p * 1000,
                    den == 5 * HALF_TURN * HALF_TURN - 4 * p,
                    0 <= x < HALF_TURN,
            ;
        }
        -(num / den)
    }
}

/// Advances the day/night oscillator: the phase accumulates half the
/// elapsed time (the oscillator runs at half a radian per second) and the
/// intensity follows the sine, staying within `[0.4, 1.0]`.
pub fn sunlight_cycle_system(w: &mut World, dt: i64)
    requires
        old(w).wf(),
        0 <= dt <= MAX_TICK,
    ensures
        final(w).wf(),
        final(w).sunlight.phase == (old(w).sunlight.phase + dt as int / 2) % (FULL_TURN as int),
        final(w).sunlight.intensity == intensity_of_spec(final(w).sunlight.phase as int),
        400 <= final(w).sunlight.intensity <= 1000,
        final(w).organisms == old(w).organisms,
        final(w).config == old(w).config,
        final(w).next_id == old(w).next_id,
        final(w).stats == old(w).stats,
        final(w).history == old(w).history,
{
    let ph: i64 = (w.sunlight.phase + dt / 2) % FULL_TURN;
    proof {
        lemma_intensity_bounds(ph as int);
    }
    let s = sin_milli(ph);
    let intensity: i64 = (s * 300) / 1000 + 700;
    w.sunlight.phase = ph;
    w.sunlight.intensity = intensity;
}

/// How much energy a plant gains over a tick: the growth rate scaled by
/// the sunlight intensity, the plant's size and the elapsed time, each
/// scaling truncating as the fixed-point arithmetic does.
pub open spec fn plant_growth_spec(rate: int, intensity: int, size: int, dt: int) -> int
    recommends
        rate >= 0,
        intensity >= 0,
        size >= 0,
        dt >= 0,
{
    (((rate * intensity) / 1000) * size / 1000) * dt / 1_000_000
}

/// How one organism leaves the growth pass: a plant's energy rises by the
/// growth amount, capped; anything else is untouched.
pub open spec fn plant_grown_rel(o: Organism, n: Organism, rate: int, intensity: int, dt: int) -> bool {
    if o.species == Species::Plant {
        let g = plant_growth_spec(rate, intensity, o.genome.size as int, dt);
        crate::organism::same_except_energy(o, n) && n.energy == if o.energy + g
            <= PLANT_ENERGY_CAP {
            o.energy + g
        } else {
            PLANT_ENERGY_CAP as int
        }
    } else {
        n == o
    }
}

/// Every plant's energy rises with the sun, capped at `PLANT_ENERGY_CAP`;
/// nothing else changes.
pub fn plant_growth_system(w: &mut World, dt: i64)
    requires
        old(w).wf(),
        0 <= dt <= MAX_TICK,
    ensures
        final(w).wf(),
        final(w).organisms@.len() == old(w).organisms@.len(),
        forall|i: int|
            0 <= i < old(w).organisms@.len() ==> plant_grown_rel(
                old(w).organisms@[i],
                #[trigger] final(w).organisms@[i],
                old(w).config.plant_energy_from_sun as int,
                old(w).sunlight.intensity as int,
                dt as int,
            ),
        final(w).config == old(w).config,
        final(w).next_id == old(w).next_id,
        final(w).sunlight == old(w).sunlight,
        final(w).stats == old(w).stats,
        final(w).history == old(w).history,
{
    let rate = w.config.plant_energy_from_sun;
    let intensity = w.sunlight.intensity;
    let n = w.organisms.len();
    let mut out: Vec<Organism> = Vec::new();
    let mut i: usize = 0;
    while i < n
        invariant
            w == old(w),
            w.wf(),
            0 <= dt <= MAX_TICK,
            rate == w.config.plant_energy_from_sun,
            intensity == w.sunlight.intensity,
            n == w.organisms@.len(),
            i <= n,
            out@.len() == i,
            forall|j: int|
                0 <= j < i ==> (#[trigger] out@[j]).wf(&w.config) && out@[j].id
                    == w.organisms@[j].id && plant_grown_rel(
                    w.organisms@[j],
                    out@[j],
                    rate as int,
                    intensity as int,
                    dt as int,
                ),
        decreases n - i,
    {
        let o = w.organisms[i];
        if o.species == Species::Plant {
            proof {
                assert(0 <= (rate as int) * intensity <= 100_000_000) by (nonlinear_arith)
                    requires
                        0 <= rate <= 100_000,
                        0 <= intensity <= 1000,
                ;
            }
            let a: i64 = rate * intensity;
            proof {
                assert(0 <= (a as int / 1000) * o.genome.size <= 300_000_000)
                    by (nonlinear_arith)
                    requires
                        0 <= a <= 100_000_000,
                        0 <= o.genome.size <= 3_000,
                ;
            }
            let b: i64 = (a / 1000) * o.genome.size;
            proof {
                assert(0 <= (b as int / 1000) * dt <= 300_000 * MAX_TICK) by (nonlinear_arith)
                    requires
                        0 <= b <= 300_000_000,
                        0 <= dt <= MAX_TICK,
                ;
            }
            let c: i64 = (b / 1000) * dt;
            let g: i64 = c / 1_000_000;
            let e = crate::fixed::min_i64(o.energy + g, PLANT_ENERGY_CAP);
            let m = Organism { energy: e, ..o };
            out.push(m);
        } else {
            out.push(o);
        }
        i = i + 1;
    }
    w.organisms = out;
    proof {
        assert forall|i2: int, j2: int|
            0 <= i2 < j2 < w.organisms@.len() implies w.organisms@[i2].id
            != w.organisms@[j2].id by {
            assert(w.organisms@[i2].id == old(w).organisms@[i2].id);
            assert(w.organisms@[j2].id == old(w).organisms@[j2].id);
        }
    }
}

/// The plant respawn trial probability in parts per million: the
/// configured rate (trials per second, milli) scaled by the sunlight
/// intensity (milli) and the elapsed tick (microseconds).
pub open spec fn respawn_trial_ppm_spec(rate: int, intensity: int, dt: int) -> int {
    rate * intensity * dt / 1_000_000
}

/// The probability handed to the plant respawn trial, pinned to
/// `respawn_trial_ppm_spec`.
pub fn respawn_trial_ppm(rate: i64, intensity: i64, dt: i64) -> (r: i64)
    requires
        0 <= rate <= 1_000_000,
        0 <= intensity <= 1000,
        0 <= dt <= MAX_TICK,
    ensures
        r == respawn_trial_ppm_spec(rate as int, intensity as int, dt as int),
        0 <= r,
{
    proof {
        assert(0 <= (rate as int) * intensity <= 1_000_000_000) by (nonlinear_arith)
            requires
                0 <= rate <= 1_000_000,
                0 <= intensity <= 1000,
        ;
        assert(0 <= (rate as int) * intensity * dt <= 1_000_000_000 * MAX_TICK)
            by (nonlinear_arith)
            requires
                0 <= (rate as int) * intensity <= 1_000_000_000,
                0 <= dt <= MAX_TICK,
        ;
    }
    rate * intensity * dt / 1_000_000
}

/// Each tick, while the plant count is below the configured cap, one
/// Bernoulli trial at `respawn_trial_ppm` may spawn a plant at a uniformly
/// random position with a random plant genome and a starting energy in
/// `[20, 40)`.
pub fn plant_respawn_system(w: &mut World, dt: i64)
    requires
        old(w).wf(),
        0 <= dt <= MAX_TICK,
    ensures
        final(w).wf(),
        old(w).organisms@.len() <= final(w).organisms@.len() <= old(w).organisms@.len() + 1,
        final(w).organisms@.subrange(0, old(w).organisms@.len() as int) == old(w).organisms@,
        final(w).organisms@.len() > old(w).organisms@.len() ==> {
            let o = final(w).organisms@.last();
            &&& count_species(old(w).organisms@, Species::Plant) < old(w).config.max_plants
            &&& o.species == Species::Plant
            &&& o.age == 0
            &&& 20_000 <= o.energy < 40_000
            &&& o.genome.speed == 0
            &&& o.genome.vision_range == 0
            &&& 500 <= o.genome.size < 1_500
            &&& 300 <= o.genome.metabolism < 700
            &&& 80_000 <= o.genome.reproduction_threshold < 120_000
            &&& -old(w).config.half_w() <= o.pos.x < old(w).config.half_w()
            &&& -old(w).config.half_h() <= o.pos.y < old(w).config.half_h()
            &&& o.vel == (Vec2m { x: 0, y: 0 })
            &&& o.stamina is None
            &&& o.hunt_target is None
            &&& o.waypoint is None
            &&& o.id == old(w).next_id
        },
        final(w).next_id >= old(w).next_id,
        final(w).config == old(w).config,
        final(w).sunlight == old(w).sunlight,
        final(w).stats == old(w).stats,
        final(w).history == old(w).history,
{
    let plant_count = w.count_of(Species::Plant);
    let ghost orgs0 = w.organisms@;
    if plant_count < w.config.max_plants && w.organisms.len() < MAX_ORGANISMS && w.next_id
        < ID_LIMIT {
        let ppm = respawn_trial_ppm(w.config.plant_respawn_rate, w.sunlight.intensity, dt);
        if crate::rng::bernoulli_ppm(ppm) {
            let hw = w.config.half_width();
            let hh = w.config.half_height();
            let o = Organism {
                id: w.next_id,
                species: Species::Plant,
                genome: Genome::random_plant(),
                energy: rand_i64_range(20_000, 40_000),
                age: 0,
                pos: Vec2m { x: rand_i64_range(-hw, hw), y: rand_i64_range(-hh, hh) },
                vel: Vec2m { x: 0, y: 0 },
                stamina: None,
                hunt_target: None,
                waypoint: None,
                decay_timer: 0,
            };
            proof {
                crate::world::lemma_push_fresh_id(w.organisms@, o, w.next_id);
            }
            w.organisms.push(o);
            w.next_id = w.next_id + 1;
            proof {
                assert(w.organisms@.subrange(0, orgs0.len() as int) =~= orgs0);
            }
        }
    }
    proof {
        if w.organisms@.len() == orgs0.len() {
            assert(w.organisms@.subrange(0, orgs0.len() as int) =~= orgs0);
        }
    }
}

/// The immigration trial probability in parts per million: two percent per
/// second of elapsed tick time.
pub open spec fn immigration_trial_ppm_spec(dt: int) -> int {
    20_000 * dt / 1_000_000
}

/// The probability handed to each species' immigration trial, pinned to
/// `immigration_trial_ppm_spec`.
pub fn immigration_trial_ppm(dt: i64) -> (r: i64)
    requires
        0 <= dt <= MAX_TICK,
    ensures
        r == immigration_trial_ppm_spec(dt as int),
        0 <= r,
{
    (20_000 * dt) / 1_000_000
}

/// What every immigrant looks like: the species' default genome profile is
/// random, the energy is in the species' default starting range, the age
/// is fresh, the position uniform in the world, the velocity zero, and the
/// behavioral state neutral (full stamina for prey; no hunt target, no
/// waypoint).
pub open spec fn immigrant_ok(o: Organism, sp: Species, hw: int, hh: int) -> bool {
    &&& o.species == sp
    &&& o.age == 0
    &&& o.vel == (Vec2m { x: 0, y: 0 })
    &&& o.hunt_target is None
    &&& o.waypoint is None
    &&& o.decay_timer == 0
    &&& (sp == Species::Prey ==> o.stamina == Some(
        Stamina { current: 100_000, max: 100_000, regen_rate: 10_000 },
    ) && 40_000 <= o.energy < 80_000)
    &&& (sp == Species::Predator ==> o.stamina is None && 60_000 <= o.energy < 100_000)
    &&& (sp == Species::Scavenger ==> o.stamina is None && 50_000 <= o.energy < 90_000)
    &&& -hw <= o.pos.x < hw
    &&& -hh <= o.pos.y < hh
}

/// Immigration for one species: spawned only when the population is below
/// five, and then one or two fresh individuals. Other species' counts are
/// untouched.
fn immigrate_one_species(w: &mut World, dt: i64, sp: Species)
    requires
        old(w).wf(),
        0 <= dt <= MAX_TICK,
        sp == Species::Prey || sp == Species::Predator || sp == Species::Scavenger,
    ensures
        final(w).wf(),
        old(w).organisms@.len() <= final(w).organisms@.len() <= old(w).organisms@.len() + 2,
        final(w).organisms@.subrange(0, old(w).organisms@.len() as int) == old(w).organisms@,
        forall|j: int|
            old(w).organisms@.len() <= j < final(w).organisms@.len() ==> {
                let o = #[trigger] final(w).organisms@[j];
                &&& o.species == sp
                &&& o.id >= old(w).next_id
                &&& immigrant_ok(o, sp, old(w).config.half_w(), old(w).config.half_h())
            },
        final(w).organisms@.len() > old(w).organisms@.len() ==> count_species(
            old(w).organisms@,
            sp,
        ) < 5,
        count_species(final(w).organisms@, sp) <= count_species(old(w).organisms@, sp) + 2,
        forall|sp2: Species|
            sp2 != sp ==> #[trigger] count_species(final(w).organisms@, sp2) == count_species(
                old(w).organisms@,
                sp2,
            ),
        final(w).next_id >= old(w).next_id,
        final(w).config == old(w).config,
        final(w).sunlight == old(w).sunlight,
        final(w).stats == old(w).stats,
        final(w).history == old(w).history,
{
    let count = w.count_of(sp);
    let ghost orgs0 = w.organisms@;
    let ghost id0 = w.next_id;
    if count < 5 && w.organisms.len() + 2 <= MAX_ORGANISMS && w.next_id + 2 <= ID_LIMIT {
        let ppm = immigration_trial_ppm(dt);
        if crate::rng::bernoulli_ppm(ppm) {
            let immigrants = rand_i64_range(1, 3);
            let hw = w.config.half_width();
            let hh = w.config.half_height();
            let mut k: i64 = 0;
            while k < immigrants
                invariant
                    w.wf(),
                    1 <= immigrants <= 2,
                    0 <= k <= immigrants,
                    sp == Species::Prey || sp == Species::Predator || sp == Species::Scavenger,
                    hw == w.config.half_w(),
                    hh == w.config.half_h(),
                    w.organisms@.len() == orgs0.len() + k,
                    w.organisms@.len() + (immigrants - k) <= MAX_ORGANISMS,
                    w.next_id == id0 + k,
                    w.next_id + (immigrants - k) <= ID_LIMIT,
                    w.organisms@.subrange(0, orgs0.len() as int) == orgs0,
                    forall|j: int|
                        orgs0.len() <= j < w.organisms@.len() ==> {
                            let o = #[trigger] w.organisms@[j];
                            o.species == sp && o.id >= id0 && immigrant_ok(
                                o,
                                sp,
                                hw as int,
                                hh as int,
                            )
                        },
                    count_species(w.organisms@, sp) == count_species(orgs0, sp) + k,
                    forall|sp2: Species|
                        sp2 != sp ==> #[trigger] count_species(w.organisms@, sp2) == count_species(
                            orgs0,
                            sp2,
                        ),
                    w.config == old(w).config,
                    w.sunlight == old(w).sunlight,
                    w.stats == old(w).stats,
                    w.history == old(w).history,
                decreases immigrants - k,
            {
                let (genome, energy) = if sp == Species::Prey {
                    (Genome::random_prey(), rand_i64_range(40_000, 80_000))
                } else if sp == Species::Predator {
                    (Genome::random_predator(), rand_i64_range(60_000, 100_000))
                } else {
                    (Genome::random_scavenger(), rand_i64_range(50_000, 90_000))
                };
                let o = Organism {
                    id: w.next_id,
                    species: sp,
                    genome,
                    energy,
                    age: 0,
                    pos: Vec2m { x: rand_i64_range(-hw, hw), y: rand_i64_range(-hh, hh) },
                    vel: Vec2m { x: 0, y: 0 },
                    stamina: if sp == Species::Prey {
                        Some(Default::default())
                    } else {
                        None
                    },
                    hunt_target: None,
                    waypoint: None,
                    decay_timer: 0,
                };
                let ghost pre = w.organisms@;
                proof {
                    crate::world::lemma_push_fresh_id(w.organisms@, o, w.next_id);
                }
                w.organisms.push(o);
                w.next_id = w.next_id + 1;
                proof {
                    assert(w.organisms@.subrange(0, orgs0.len() as int) =~= orgs0);
                    crate::world::lemma_count_species_push(pre, o, sp);
                    assert forall|sp2: Species|
                        sp2 != sp implies #[trigger] count_species(w.organisms@, sp2)
                        == count_species(orgs0, sp2) by {
                        crate::world::lemma_count_species_push(pre, o, sp2);
                    }
                }
                k = k + 1;
            }
        }
    }
    proof {
        if w.organisms@.len() == orgs0.len() {
            assert(w.organisms@.subrange(0, orgs0.len() as int) =~= orgs0);
            assert(w.organisms@ =~= orgs0);
        }
    }
}

/// The anti-extinction safety valve: independently for prey, predators and
/// scavengers, while that species' population is below five a Bernoulli
/// trial at `immigration_trial_ppm` (two percent per second) may bring in
/// one or two immigrants with the species' default genome and energy range
/// and neutral behavioral state. It is gated purely on the count
/// threshold: a species at or above five receives no immigrant, and no
/// species gains more than two in one pass. Plants and corpses are
/// untouched.
pub fn immigration_system(w: &mut World, dt: i64)
    requires
        old(w).wf(),
        0 <= dt <= MAX_TICK,
    ensures
        final(w).wf(),
        old(w).organisms@.len() <= final(w).organisms@.len() <= old(w).organisms@.len() + 6,
        final(w).organisms@.subrange(0, old(w).organisms@.len() as int) == old(w).organisms@,
        forall|j: int|
            old(w).organisms@.len() <= j < final(w).organisms@.len() ==> {
                let o = #[trigger] final(w).organisms@[j];
                &&& (o.species == Species::Prey || o.species == Species::Predator || o.species
                    == Species::Scavenger)
                &&& immigrant_ok(o, o.species, old(w).config.half_w(), old(w).config.half_h())
                &&& count_species(old(w).organisms@, o.species) < 5
                &&& o.id >= old(w).next_id
            },
        forall|sp: Species|
            #[trigger] count_species(final(w).organisms@, sp) <= count_species(
                old(w).organisms@,
                sp,
            ) + 2,
        count_species(final(w).organisms@, Species::Plant) == count_species(
            old(w).organisms@,
            Species::Plant,
        ),
        count_species(final(w).organisms@, Species::Corpse) == count_species(
            old(w).organisms@,
            Species::Corpse,
        ),
        final(w).next_id >= old(w).next_id,
        final(w).config == old(w).config,
        final(w).sunlight == old(w).sunlight,
        final(w).stats == old(w).stats,
        final(w).history == old(w).history,
{
    let ghost orgs0 = w.organisms@;
    let ghost len0 = w.organisms@.len() as int;
    immigrate_one_species(w, dt, Species::Prey);
    let ghost len1 = w.organisms@.len() as int;
    let ghost orgs1 = w.organisms@;
    let ghost nid1 = w.next_id;
    immigrate_one_species(w, dt, Species::Predator);
    let ghost len2 = w.organisms@.len() as int;
    let ghost orgs2 = w.organisms@;
    let ghost nid2 = w.next_id;
    immigrate_one_species(w, dt, Species::Scavenger);
    proof {
        assert(orgs2.subrange(0, len1) =~= orgs1.subrange(0, len1));
        assert(w.organisms@.subrange(0, len1) =~= orgs2.subrange(0, len1));
        assert(w.organisms@.subrange(0, len0) =~= w.organisms@.subrange(0, len1).subrange(
            0,
            len0,
        ));
        assert(w.organisms@.subrange(0, len0) =~= old(w).organisms@);
        assert(count_species(orgs1, Species::Predator) == count_species(orgs0, Species::Predator));
        assert(count_species(orgs2, Species::Scavenger) == count_species(
            orgs1,
            Species::Scavenger,
        ) == count_species(orgs0, Species::Scavenger));
        assert forall|j: int| len0 <= j < w.organisms@.len() implies {
            let o = #[trigger] w.organisms@[j];
            (o.species == Species::Prey || o.species == Species::Predator || o.species
                == Species::Scavenger) && immigrant_ok(
                o,
                o.species,
                old(w).config.half_w(),
                old(w).config.half_h(),
            ) && count_species(old(w).organisms@, o.species) < 5 && o.id >= old(w).next_id
        } by {
            if j < len1 {
                assert(w.organisms@.subrange(0, len2)[j] == orgs2[j]);
                assert(orgs2.subrange(0, len1)[j] == orgs1[j]);
                assert(w.organisms@[j] == orgs1[j]);
                assert(orgs1[j].species == Species::Prey && orgs1[j].id >= old(w).next_id
                    && immigrant_ok(
                    orgs1[j],
                    Species::Prey,
                    old(w).config.half_w(),
                    old(w).config.half_h(),
                ));
                assert(count_species(orgs0, Species::Prey) < 5);
            } else if j < len2 {
                assert(w.organisms@.subrange(0, len2)[j] == orgs2[j]);
                assert(orgs2[j].species == Species::Predator && orgs2[j].id >= nid1 >= old(
                    w,
                ).next_id && immigrant_ok(
                    orgs2[j],
                    Species::Predator,
                    old(w).config.half_w(),
                    old(w).config.half_h(),
                ));
                assert(count_species(orgs1, Species::Predator) < 5);
            } else {
                assert(w.organisms@[j].species == Species::Scavenger && w.organisms@[j].id >= nid2
                    >= old(w).next_id && immigrant_ok(
                    w.organisms@[j],
                    Species::Scavenger,
                    old(w).config.half_w(),
                    old(w).config.half_h(),
                ));
                assert(count_species(orgs2, Species::Scavenger) < 5);
            }
        }
        assert forall|sp: Species| #[trigger] count_species(w.organisms@, sp) <= count_species(
            orgs0,
            sp,
        ) + 2 by {
            if sp == Species::Prey {
                assert(count_species(orgs1, sp) <= count_species(orgs0, sp) + 2);
                assert(count_species(orgs2, sp) == count_species(orgs1, sp));
                assert(count_species(w.organisms@, sp) == count_species(orgs2, sp));
            } else if sp == Species::Predator {
                assert(count_species(orgs1, sp) == count_species(orgs0, sp));
                assert(count_species(orgs2, sp) <= count_species(orgs1, sp) + 2);
                assert(count_species(w.organisms@, sp) == count_species(orgs2, sp));
            } else if sp == Species::Scavenger {
                assert(count_species(orgs1, sp) == count_species(orgs0, sp));
                assert(count_species(orgs2, sp) == count_species(orgs1, sp));
                assert(count_species(w.organisms@, sp) <= count_species(orgs2, sp) + 2);
            } else {
                assert(count_species(orgs1, sp) == count_species(orgs0, sp));
                assert(count_species(orgs2, sp) == count_species(orgs1, sp));
                assert(count_species(w.organisms@, sp) == count_species(orgs2, sp));
            }
        }
    }
}

} // verus!
