//! The arena of organisms and the simulation-wide state threaded through
//! every system.

use vstd::prelude::*;
use crate::config::{SimulationConfig, SunlightLevel, PopulationStats, SimulationHistory,
    MAX_ORGANISMS};
use crate::organism::{Organism, Species};
use crate::environment::{FULL_TURN, intensity_of_spec};

verus! {

/// Identifiers are issued strictly below this bound, leaving headroom so
/// issuing can never wrap.
pub const ID_LIMIT: u64 = 0x7fff_ffff_ffff_ffff;

/// How many organisms of one species a sequence holds.
pub open spec fn count_species(s: Seq<Organism>, sp: Species) -> int
    decreases s.len(),
{
    if s.len() == 0 {
        0
    } else {
        count_species(s.drop_last(), sp) + if s.last().species == sp {
            1int
        } else {
            0int
        }
    }
}

/// The count of any species never exceeds the sequence's length.
pub proof fn lemma_count_species_le_len(s: Seq<Organism>, sp: Species)
    ensures
        0 <= count_species(s, sp) <= s.len(),
    decreases s.len(),
{
    if s.len() > 0 {
        lemma_count_species_le_len(s.drop_last(), sp);
    }
}

/// Appending one organism raises exactly its own species' count.
pub proof fn lemma_count_species_push(s: Seq<Organism>, o: Organism, sp: Species)
    ensures
        count_species(s.push(o), sp) == count_species(s, sp) + if o.species == sp {
            1int
        } else {
            0int
        },
{
    assert(s.push(o).drop_last() =~= s);
    assert(s.push(o).last() == o);
}

/// No two organisms share an identifier.
pub open spec fn ids_unique(s: Seq<Organism>) -> bool {
    forall|i: int, j: int| 0 <= i < j < s.len() ==> s[i].id != s[j].id
}

/// Every identifier lies below the issue counter.
pub open spec fn ids_below(s: Seq<Organism>, n: u64) -> bool {
    forall|i: int| 0 <= i < s.len() ==> s[i].id < n
}

/// Appending an organism carrying the next identifier keeps identifiers
/// unique and below the advanced counter.
pub proof fn lemma_push_fresh_id(s: Seq<Organism>, o: Organism, n: u64)
    requires
        ids_unique(s),
        ids_below(s, n),
        o.id == n,
        n < 0xffff_ffff_ffff_ffffu64,
    ensures
        ids_unique(s.push(o)),
        ids_below(s.push(o), (n + 1) as u64),
{
    let t = s.push(o);
    assert forall|i: int, j: int| 0 <= i < j < t.len() implies t[i].id != t[j].id by {
        if j < s.len() {
            assert(t[i] == s[i] && t[j] == s[j]);
        } else {
            assert(t[j] == o && t[i] == s[i]);
        }
    }
    assert forall|i: int| 0 <= i < t.len() implies t[i].id < n + 1 by {
        if i < s.len() {
            assert(t[i] == s[i]);
        } else {
            assert(t[i] == o);
        }
    }
}

/// The whole simulation state.
pub struct World {
    pub config: SimulationConfig,
    pub organisms: Vec<Organism>,
    /// The next identifier to issue; strictly above every issued one.
    pub next_id: u64,
    pub sunlight: SunlightLevel,
    pub stats: PopulationStats,
    pub history: SimulationHistory,
}

impl World {
    /// The invariant every system preserves.
    pub open spec fn wf(&self) -> bool {
        &&& self.config.wf()
        &&& self.organisms@.len() <= MAX_ORGANISMS
        &&& (forall|i: int|
            0 <= i < self.organisms@.len() ==> self.organisms@[i].wf(&self.config))
        &&& ids_unique(self.organisms@)
        &&& ids_below(self.organisms@, self.next_id)
        &&& self.next_id <= ID_LIMIT
        &&& 0 <= self.sunlight.phase < FULL_TURN
        &&& self.sunlight.intensity == intensity_of_spec(self.sunlight.phase as int)
            || self.sunlight.intensity == 1000
        &&& 400 <= self.sunlight.intensity <= 1000
        &&& 0 <= self.history.record_interval <= 1_000_000_000_000
        &&& 0 <= self.history.time_since_last_record <= 1_000_000_000_000
        &&& self.stats.plants <= MAX_ORGANISMS
        &&& self.stats.prey <= MAX_ORGANISMS
        &&& self.stats.predators <= MAX_ORGANISMS
        &&& self.stats.scavengers <= MAX_ORGANISMS
    }

    /// An empty world under the given configuration; `setup` populates it.
    pub fn new(config: SimulationConfig) -> (r: World)
        requires
            config.wf(),
        ensures
            r.wf(),
            r.organisms@.len() == 0,
            r.config == config,
            r.history.snapshots@.len() == 0,
    {
        World {
            config,
            organisms: Vec::new(),
            next_id: 0,
            sunlight: Default::default(),
            stats: Default::default(),
            history: SimulationHistory {
                snapshots: Vec::new(),
                record_interval: 1_000_000,
                time_since_last_record: 0,
            },
        }
    }

    /// How many organisms of one species the world holds.
    pub fn count_of(&self, sp: Species) -> (r: usize)
        ensures
            r == count_species(self.organisms@, sp),
    {
        let mut cnt: usize = 0;
        let n = self.organisms.len();
        let mut i: usize = 0;
        while i < n
            invariant
                i <= n,
                n == self.organisms@.len(),
                cnt == count_species(self.organisms@.subrange(0, i as int), sp),
                cnt <= i,
            decreases n - i,
        {
            proof {
                assert(self.organisms@.subrange(0, i + 1).drop_last() =~= self.organisms@.subrange(
                    0,
                    i as int,
                ));
                assert(self.organisms@.subrange(0, i + 1).last() == self.organisms@[i as int]);
            }
            if self.organisms[i].species == sp {
                cnt = cnt + 1;
            }
            i = i + 1;
        }
        proof {
            assert(self.organisms@.subrange(0, n as int) =~= self.organisms@);
        }
        cnt
    }
}

/// Advances the world by one tick, running the systems in their fixed
/// order: environment (sunlight, plant growth, plant respawn,
/// immigration), movement (prey, predators, scavengers), feeding,
/// lifecycle (energy drain, aging, reproduction, death, corpse decay) and
/// statistics. Two properties hold across the whole tick: no organism
/// ends the tick alive with spent energy or beyond the maximum age, and an
/// organism that was already a corpse never regains a living tag — any
/// surviving record of it is the same corpse with its decay timer lowered
/// by exactly the elapsed tick.
#[verifier::rlimit(100)]
pub fn step(w: &mut World, dt: i64)
    requires
        old(w).wf(),
        0 <= dt <= crate::config::MAX_TICK,
    ensures
        final(w).wf(),
        forall|k: int|
            0 <= k < final(w).organisms@.len() ==> ((#[trigger] final(w).organisms@[k]).is_living()
                ==> final(w).organisms@[k].energy > 0 && final(w).organisms@[k].age
                <= crate::config::MAX_AGE),
        forall|j: int, k: int|
            0 <= j < old(w).organisms@.len() && (#[trigger] old(w).organisms@[j]).species
                == Species::Corpse && 0 <= k < final(w).organisms@.len()
                && (#[trigger] final(w).organisms@[k]).id == old(w).organisms@[j].id
                ==> final(w).organisms@[k] == (Organism {
                decay_timer: (old(w).organisms@[j].decay_timer - dt) as i64,
                ..old(w).organisms@[j]
            }),
        final(w).stats.plants == count_species(final(w).organisms@, Species::Plant),
        final(w).stats.prey == count_species(final(w).organisms@, Species::Prey),
        final(w).stats.predators == count_species(final(w).organisms@, Species::Predator),
        final(w).stats.scavengers == count_species(final(w).organisms@, Species::Scavenger),
        final(w).sunlight.phase == (old(w).sunlight.phase + dt as int / 2) % (
        crate::environment::FULL_TURN as int),
        final(w).sunlight.intensity == intensity_of_spec(final(w).sunlight.phase as int),
        final(w).next_id >= old(w).next_id,
        final(w).config == old(w).config,
{
    let ghost g0 = w.organisms@;
    let ghost nid0 = w.next_id;
    crate::environment::sunlight_cycle_system(w, dt);
    crate::environment::plant_growth_system(w, dt);
    let ghost g2 = w.organisms@;
    crate::environment::plant_respawn_system(w, dt);
    let ghost g3 = w.organisms@;
    let ghost nid3 = w.next_id;
    crate::environment::immigration_system(w, dt);
    let ghost g4 = w.organisms@;
    let ghost nid4 = w.next_id;
    crate::movement::prey_movement_system(w, dt);
    let ghost g5 = w.organisms@;
    crate::movement::predator_hunting_system(w, dt);
    let ghost g6 = w.organisms@;
    crate::movement::scavenger_movement_system(w, dt);
    let ghost g7 = w.organisms@;
    crate::interaction::eating_system(w);
    let ghost g8 = w.organisms@;
    crate::lifecycle::energy_consumption_system(w, dt);
    let ghost g9 = w.organisms@;
    crate::lifecycle::age_system(w, dt);
    let ghost g10 = w.organisms@;
    let ghost nid10 = w.next_id;
    crate::lifecycle::reproduction_system(w);
    let ghost g11 = w.organisms@;
    crate::lifecycle::death_system(w);
    let ghost g12 = w.organisms@;
    crate::lifecycle::corpse_decay_system(w, dt);
    let ghost g13 = w.organisms@;
    crate::stats::update_population_stats(w);
    crate::stats::record_history_system(w, dt);
    proof {
        let cfg = old(w).config;
        crate::interaction::lemma_eaten_source(g7, &cfg, g7.len() as int);
        crate::lifecycle::lemma_decay_source(g12, dt as int);
        assert forall|k: int|
            0 <= k < w.organisms@.len() implies ((#[trigger] w.organisms@[k]).is_living()
            ==> w.organisms@[k].energy > 0 && w.organisms@[k].age <= crate::config::MAX_AGE) by {
            if w.organisms@[k].is_living() {
                let j1 = choose|j1: int|
                    0 <= j1 < g12.len() && crate::lifecycle::decay_trace(
                        #[trigger] g13[k],
                        g12[j1],
                        dt as int,
                    );
                assert(crate::lifecycle::death_rel(g11[j1], g12[j1]));
                assert(g13[k] == g12[j1]);
                assert(!crate::lifecycle::dies_now(g11[j1]));
            }
        }
        assert forall|j: int, k: int|
            0 <= j < g0.len() && (#[trigger] g0[j]).species == Species::Corpse && 0 <= k
                < w.organisms@.len() && (#[trigger] w.organisms@[k]).id == g0[j].id implies
            w.organisms@[k] == (Organism {
            decay_timer: (g0[j].decay_timer - dt) as i64,
            ..g0[j]
        }) by {
            let c = g0[j];
            let tid = c.id;
            assert(tid < nid0);
            assert(crate::environment::plant_grown_rel(
                g0[j],
                g2[j],
                cfg.plant_energy_from_sun as int,
                old(w).sunlight.intensity as int,
                dt as int,
            ));
            assert(g2[j] == c);
            assert forall|k1: int| 0 <= k1 < g2.len() && (#[trigger] g2[k1]).id == tid implies
                g2[k1] == c by {
                assert(crate::environment::plant_grown_rel(
                    g0[k1],
                    g2[k1],
                    cfg.plant_energy_from_sun as int,
                    old(w).sunlight.intensity as int,
                    dt as int,
                ));
                assert(g0[k1].id == tid);
                if k1 != j {
                    assert(false);
                }
            }
            assert forall|k1: int| 0 <= k1 < g3.len() && (#[trigger] g3[k1]).id == tid implies
                g3[k1] == c by {
                if k1 < g2.len() {
                    assert(g3.subrange(0, g2.len() as int)[k1] == g2[k1]);
                } else {
                    assert(g3[k1].id >= nid0);
                }
            }
            assert forall|k1: int| 0 <= k1 < g4.len() && (#[trigger] g4[k1]).id == tid implies
                g4[k1] == c by {
                if k1 < g3.len() {
                    assert(g4.subrange(0, g3.len() as int)[k1] == g3[k1]);
                } else {
                    assert(g4[k1].id >= nid3 >= nid0);
                }
            }
            assert forall|k1: int| 0 <= k1 < g5.len() && (#[trigger] g5[k1]).id == tid implies
                g5[k1] == c by {
                assert(crate::movement::prey_out_rel(
                    g4[k1],
                    g5[k1],
                    g4,
                    k1,
                    dt as int,
                    cfg.half_w(),
                    cfg.half_h(),
                ));
                assert(g4[k1].id == tid);
            }
            assert forall|k1: int| 0 <= k1 < g6.len() && (#[trigger] g6[k1]).id == tid implies
                g6[k1] == c by {
                assert(crate::movement::pred_out_rel(
                    g5[k1],
                    g6[k1],
                    g5,
                    k1,
                    dt as int,
                    cfg.half_w(),
                    cfg.half_h(),
                ));
                assert(g5[k1].id == tid);
            }
            assert forall|k1: int| 0 <= k1 < g7.len() && (#[trigger] g7[k1]).id == tid implies
                g7[k1] == c by {
                assert(crate::movement::scav_out_rel(
                    g6[k1],
                    g7[k1],
                    g6,
                    k1,
                    dt as int,
                    cfg.half_w(),
                    cfg.half_h(),
                ));
                assert(g6[k1].id == tid);
            }
            assert forall|k1: int| 0 <= k1 < g8.len() && (#[trigger] g8[k1]).id == tid implies
                g8[k1] == c by {
                let j1 = choose|j1: int|
                    0 <= j1 < g7.len() && #[trigger] g8[k1] == crate::interaction::fed(
                        g7[j1],
                        g7,
                        &cfg,
                    );
                assert(g7[j1].id == tid);
                assert(g7[j1] == c);
                assert(crate::interaction::eat_gain_spec(c, g7, &cfg) == 0);
                assert(g8[k1] == c);
            }
            assert forall|k1: int| 0 <= k1 < g9.len() && (#[trigger] g9[k1]).id == tid implies
                g9[k1] == c by {
                assert(crate::lifecycle::drained_rel(g8[k1], g9[k1], dt as int));
                assert(g8[k1].id == tid);
            }
            assert forall|k1: int| 0 <= k1 < g10.len() && (#[trigger] g10[k1]).id == tid implies
                g10[k1] == c by {
                assert(crate::lifecycle::aged_rel(g9[k1], g10[k1], dt as int));
                assert(g9[k1].id == tid);
            }
            assert forall|k1: int| 0 <= k1 < g11.len() && (#[trigger] g11[k1]).id == tid implies
                g11[k1] == c by {
                if k1 < g10.len() {
                    assert(g11[k1] == g10[k1] || (crate::lifecycle::reproduced_rel(
                        g10[k1],
                        g11[k1],
                    ) && g10[k1].id == g11[k1].id));
                    assert(g10[k1].id == tid);
                    assert(g10[k1] == c);
                } else {
                    assert(g11[k1].id >= nid10 >= nid0);
                }
            }
            assert forall|k1: int| 0 <= k1 < g12.len() && (#[trigger] g12[k1]).id == tid implies
                g12[k1] == c by {
                assert(crate::lifecycle::death_rel(g11[k1], g12[k1]));
                assert(g11[k1].id == tid);
            }
            let j1 = choose|j1: int|
                0 <= j1 < g12.len() && crate::lifecycle::decay_trace(
                    #[trigger] g13[k],
                    g12[j1],
                    dt as int,
                );
            assert(g12[j1].id == tid);
            assert(g12[j1] == c);
            assert(g13[k] == (Organism { decay_timer: (c.decay_timer - dt) as i64, ..c }));
        }
    }
}

} // verus!
