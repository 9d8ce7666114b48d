//! Proximity-based feeding: prey graze plants, predators take living prey
//! and fall back to corpses, scavengers take corpses. Every check uses the
//! wrap-aware toroidal distance, one policy throughout. A consumer eats at
//! most one item per tick, the first match in arena order; removals are
//! deferred to the end of the pass, so two consumers may feed on the same
//! item in one tick, as the deferred-command pattern allows.

use vstd::prelude::*;
use crate::geom::{Vec2m, wrapped_distance_spec, within_range};
use crate::organism::{Organism, Species, same_except_energy};
use crate::config::{SimulationConfig, ENERGY_CEIL, ENERGY_FLOOR};
use crate::world::World;

verus! {

/// Whether one arena entry is food of the given species, within the given
/// radius of `pos`, holding more than the given minimum energy.
pub open spec fn food_match(
    pos: Vec2m,
    o: Organism,
    sp: Species,
    radius: int,
    min_e: int,
    hw: int,
    hh: int,
) -> bool {
    &&& o.species == sp
    &&& wrapped_distance_spec(pos, o.pos, hw, hh) < radius
    &&& o.energy > min_e
}

/// The first arena index at or beyond `from` holding matching food.
pub open spec fn first_food(
    pos: Vec2m,
    s: Seq<Organism>,
    from: int,
    sp: Species,
    radius: int,
    min_e: int,
    hw: int,
    hh: int,
) -> Option<int>
    decreases s.len() - from,
{
    if from < 0 || from >= s.len() {
        None
    } else if food_match(pos, s[from], sp, radius, min_e, hw, hh) {
        Some(from)
    } else {
        first_food(pos, s, from + 1, sp, radius, min_e, hw, hh)
    }
}

/// The energy a consumer gains this pass: prey gain the configured plant
/// value if any plant with energy above 20 lies within 15 units; predators
/// gain the prey value if any living prey lies within 20 units, or seventy
/// percent of it from a corpse with energy above 10 within 20 units when no
/// living prey was found; scavengers gain the corpse value from a corpse
/// with energy above 10 within 15 units.
pub open spec fn eat_gain_spec(me: Organism, s: Seq<Organism>, cfg: &SimulationConfig) -> int {
    let hw = cfg.half_w();
    let hh = cfg.half_h();
    if me.species == Species::Prey {
        if first_food(me.pos, s, 0, Species::Plant, 15_000, 20_000, hw, hh) is Some {
            cfg.prey_energy_from_plant as int
        } else {
            0
        }
    } else if me.species == Species::Predator {
        if first_food(me.pos, s, 0, Species::Prey, 20_000, ENERGY_FLOOR - 1, hw, hh) is Some {
            cfg.predator_energy_from_prey as int
        } else if first_food(me.pos, s, 0, Species::Corpse, 20_000, 10_000, hw, hh) is Some {
            cfg.predator_energy_from_prey * 700 / 1000
        } else {
            0
        }
    } else if me.species == Species::Scavenger {
        if first_food(me.pos, s, 0, Species::Corpse, 15_000, 10_000, hw, hh) is Some {
            cfg.scavenger_energy_from_corpse as int
        } else {
            0
        }
    } else {
        0
    }
}

/// A consumer's energy after the pass: raised by its gain, saturating at
/// the numeric ceiling.
pub open spec fn fed_energy(o: Organism, s: Seq<Organism>, cfg: &SimulationConfig) -> int {
    if o.energy + eat_gain_spec(o, s, cfg) <= ENERGY_CEIL {
        o.energy + eat_gain_spec(o, s, cfg)
    } else {
        ENERGY_CEIL as int
    }
}

/// An organism with its post-pass energy and everything else retained.
pub open spec fn fed(o: Organism, s: Seq<Organism>, cfg: &SimulationConfig) -> Organism {
    Organism { energy: fed_energy(o, s, cfg) as i64, ..o }
}

/// Whether the consumer at index `i` feeds on the entry at index `j`.
pub open spec fn matches_consumer(s: Seq<Organism>, i: int, j: int, cfg: &SimulationConfig) -> bool {
    let me = s[i];
    let hw = cfg.half_w();
    let hh = cfg.half_h();
    ||| (me.species == Species::Prey && first_food(me.pos, s, 0, Species::Plant, 15_000, 20_000, hw, hh)
        == Some(j))
    ||| (me.species == Species::Predator && first_food(
        me.pos,
        s,
        0,
        Species::Prey,
        20_000,
        ENERGY_FLOOR - 1,
        hw,
        hh,
    ) == Some(j))
    ||| (me.species == Species::Predator && first_food(
        me.pos,
        s,
        0,
        Species::Prey,
        20_000,
        ENERGY_FLOOR - 1,
        hw,
        hh,
    ) is None && first_food(me.pos, s, 0, Species::Corpse, 20_000, 10_000, hw, hh) == Some(j))
    ||| (me.species == Species::Scavenger && first_food(me.pos, s, 0, Species::Corpse, 15_000, 10_000, hw, hh)
        == Some(j))
}

/// Whether any consumer among the first `upto` feeds on the entry at `j`.
pub open spec fn consumed_by(s: Seq<Organism>, j: int, cfg: &SimulationConfig, upto: int) -> bool {
    exists|i: int| 0 <= i < upto && #[trigger] matches_consumer(s, i, j, cfg)
}

/// Whether any consumer at all feeds on the entry at `j`: it is then
/// removed at the end of the pass.
pub open spec fn consumed(s: Seq<Organism>, j: int, cfg: &SimulationConfig) -> bool {
    consumed_by(s, j, cfg, s.len() as int)
}

/// What the arena's first `k` entries leave behind after the feeding pass:
/// consumed entries are gone, everything else remains with its post-pass
/// energy.
pub open spec fn eaten_survivors(s: Seq<Organism>, cfg: &SimulationConfig, k: int) -> Seq<
    Organism,
>
    decreases k,
{
    if k <= 0 {
        Seq::empty()
    } else {
        let rest = eaten_survivors(s, cfg, k - 1);
        if consumed(s, k - 1, cfg) {
            rest
        } else {
            rest.push(fed(s[k - 1], s, cfg))
        }
    }
}

/// Every entry left by the feeding pass is some source entry with its
/// post-pass energy, so nothing new appears and identities are kept.
pub proof fn lemma_eaten_source(s: Seq<Organism>, cfg: &SimulationConfig, k: int)
    requires
        0 <= k,
    ensures
        eaten_survivors(s, cfg, k).len() <= k,
        forall|k2: int|
            0 <= k2 < eaten_survivors(s, cfg, k).len() ==> exists|j: int|
                0 <= j < k && #[trigger] eaten_survivors(s, cfg, k)[k2] == fed(s[j], s, cfg),
    decreases k,
{
    if k > 0 {
        lemma_eaten_source(s, cfg, k - 1);
        let rest = eaten_survivors(s, cfg, k - 1);
        let cur = eaten_survivors(s, cfg, k);
        if !consumed(s, k - 1, cfg) {
            assert forall|k2: int| 0 <= k2 < cur.len() implies exists|j: int|
                0 <= j < k && #[trigger] cur[k2] == fed(s[j], s, cfg) by {
                if k2 < rest.len() {
                    assert(cur[k2] == rest[k2]);
                    let j = choose|j: int| 0 <= j < k - 1 && #[trigger] rest[k2] == fed(s[j], s, cfg);
                    assert(cur[k2] == fed(s[j], s, cfg));
                } else {
                    assert(cur[k2] == fed(s[k - 1], s, cfg));
                }
            }
        }
    }
}

/// The executable first-food scan, tied to `first_food`.
fn find_food(
    pos: Vec2m,
    organisms: &Vec<Organism>,
    sp: Species,
    radius: i64,
    min_e: i64,
    hw: i64,
    hh: i64,
    cfg: &SimulationConfig,
) -> (r: Option<usize>)
    requires
        cfg.wf(),
        hw == cfg.half_w(),
        hh == cfg.half_h(),
        -hw <= pos.x <= hw,
        -hh <= pos.y <= hh,
        0 <= radius <= 2_000_000_000,
        forall|i: int| 0 <= i < organisms@.len() ==> (#[trigger] organisms@[i]).wf(cfg),
    ensures
        match r {
            Some(j) => j < organisms@.len() && first_food(
                pos,
                organisms@,
                0,
                sp,
                radius as int,
                min_e as int,
                hw as int,
                hh as int,
            ) == Some(j as int),
            None => first_food(
                pos,
                organisms@,
                0,
                sp,
                radius as int,
                min_e as int,
                hw as int,
                hh as int,
            ) is None,
        },
{
    let n = organisms.len();
    let mut j: usize = 0;
    while j < n
        invariant
            cfg.wf(),
            hw == cfg.half_w(),
            hh == cfg.half_h(),
            -hw <= pos.x <= hw,
            -hh <= pos.y <= hh,
            0 <= radius <= 2_000_000_000,
            forall|i: int| 0 <= i < organisms@.len() ==> (#[trigger] organisms@[i]).wf(cfg),
            n == organisms@.len(),
            j <= n,
            first_food(pos, organisms@, 0, sp, radius as int, min_e as int, hw as int, hh as int)
                == first_food(
                pos,
                organisms@,
                j as int,
                sp,
                radius as int,
                min_e as int,
                hw as int,
                hh as int,
            ),
        decreases n - j,
    {
        let o = &organisms[j];
        if o.species == sp && o.energy > min_e && within_range(pos, o.pos, radius, hw, hh) {
            return Some(j);
        }
        j = j + 1;
    }
    None
}

/// The feeding pass: every prey, predator and scavenger takes at most its
/// first matching food item, gaining the configured energy; every consumed
/// item is removed at the end of the pass. Predators try living prey first
/// and scavenge corpses only otherwise.
pub fn eating_system(w: &mut World)
    requires
        old(w).wf(),
    ensures
        final(w).wf(),
        final(w).organisms@ == eaten_survivors(
            old(w).organisms@,
            &old(w).config,
            old(w).organisms@.len() as int,
        ),
        final(w).config == old(w).config,
        final(w).next_id == old(w).next_id,
        final(w).sunlight == old(w).sunlight,
        final(w).stats == old(w).stats,
        final(w).history == old(w).history,
{
    let n = w.organisms.len();
    let hw = w.config.half_width();
    let hh = w.config.half_height();
    let mut marks: Vec<bool> = Vec::new();
    let mut i: usize = 0;
    while i < n
        invariant
            i <= n,
            marks@.len() == i,
            forall|j: int| 0 <= j < i ==> !(#[trigger] marks@[j]),
        decreases n - i,
    {
        marks.push(false);
        i = i + 1;
    }
    let mut upd: Vec<Organism> = Vec::new();
    let ghost s = w.organisms@;
    let ghost cfg = w.config;
    i = 0;
    while i < n
        invariant
            w == old(w),
            w.wf(),
            s == w.organisms@,
            cfg == w.config,
            hw == cfg.half_w(),
            hh == cfg.half_h(),
            n == s.len(),
            i <= n,
            upd@.len() == i,
            marks@.len() == n,
            forall|j: int|
                0 <= j < i ==> #[trigger] upd@[j] == fed(s[j], s, &cfg) && upd@[j].wf(&cfg),
            forall|j: int| 0 <= j < n ==> marks@[j] == consumed_by(s, j, &cfg, i as int),
        decreases n - i,
    {
        let me = w.organisms[i];
        let ghost marks0 = marks@;
        let mut gain: i64 = 0;
        if me.species == Species::Prey {
            let r = find_food(me.pos, &w.organisms, Species::Plant, 15_000, 20_000, hw, hh, &w.config);
            if let Some(j) = r {
                gain = w.config.prey_energy_from_plant;
                marks.set(j, true);
            }
        } else if me.species == Species::Predator {
            let r = find_food(
                me.pos,
                &w.organisms,
                Species::Prey,
                20_000,
                ENERGY_FLOOR - 1,
                hw,
                hh,
                &w.config,
            );
            if let Some(j) = r {
                gain = w.config.predator_energy_from_prey;
                marks.set(j, true);
            } else {
                let r2 = find_food(
                    me.pos,
                    &w.organisms,
                    Species::Corpse,
                    20_000,
                    10_000,
                    hw,
                    hh,
                    &w.config,
                );
                if let Some(j) = r2 {
                    gain = (w.config.predator_energy_from_prey * 700) / 1000;
                    marks.set(j, true);
                }
            }
        } else if me.species == Species::Scavenger {
            let r = find_food(
                me.pos,
                &w.organisms,
                Species::Corpse,
                15_000,
                10_000,
                hw,
                hh,
                &w.config,
            );
            if let Some(j) = r {
                gain = w.config.scavenger_energy_from_corpse;
                marks.set(j, true);
            }
        }
        proof {
            assert(gain == eat_gain_spec(me, s, &cfg));
            assert forall|j: int| 0 <= j < n implies marks@[j] == consumed_by(
                s,
                j,
                &cfg,
                i + 1,
            ) by {
                if marks@[j] {
                    if marks0[j] {
                        let i2 = choose|i2: int|
                            0 <= i2 < i && #[trigger] matches_consumer(s, i2, j, &cfg);
                        assert(matches_consumer(s, i2, j, &cfg));
                    } else {
                        assert(matches_consumer(s, i as int, j, &cfg));
                    }
                } else {
                    assert(!consumed_by(s, j, &cfg, i as int));
                    assert(!matches_consumer(s, i as int, j, &cfg));
                }
            }
        }
        let e = crate::fixed::min_i64(me.energy + gain, ENERGY_CEIL);
        upd.push(Organism { energy: e, ..me });
        i = i + 1;
    }
    let mut out: Vec<Organism> = Vec::new();
    let ghost mut picked: Seq<int> = Seq::empty();
    let mut j: usize = 0;
    while j < n
        invariant
            w == old(w),
            w.wf(),
            s == w.organisms@,
            cfg == w.config,
            n == s.len(),
            j <= n,
            upd@.len() == n,
            marks@.len() == n,
            forall|j2: int|
                0 <= j2 < n ==> #[trigger] upd@[j2] == fed(s[j2], s, &cfg) && upd@[j2].wf(&cfg),
            forall|j2: int| 0 <= j2 < n ==> marks@[j2] == consumed(s, j2, &cfg),
            out@ == eaten_survivors(s, &cfg, j as int),
            out@.len() <= j,
            picked.len() == out@.len(),
            forall|k: int| 0 <= k < picked.len() ==> 0 <= #[trigger] picked[k] < j,
            forall|k1: int, k2: int| 0 <= k1 < k2 < picked.len() ==> picked[k1] < picked[k2],
            forall|k: int|
                0 <= k < picked.len() ==> (#[trigger] out@[k]).id == s[picked[k]].id
                    && out@[k].wf(&cfg),
        decreases n - j,
    {
        if !marks[j] {
            let o = upd[j];
            out.push(o);
            proof {
                picked = picked.push(j as int);
            }
        }
        j = j + 1;
    }
    w.organisms = out;
    proof {
        assert forall|i2: int, j2: int|
            0 <= i2 < j2 < w.organisms@.len() implies w.organisms@[i2].id
            != w.organisms@[j2].id by {
            assert(w.organisms@[i2].id == s[picked[i2]].id);
            assert(w.organisms@[j2].id == s[picked[j2]].id);
            assert(picked[i2] < picked[j2]);
        }
        assert forall|i2: int| 0 <= i2 < w.organisms@.len() implies (#[trigger] w.organisms@[i2]).id
            < w.next_id by {
            assert(w.organisms@[i2].id == s[picked[i2]].id);
        }
    }
}

} // verus!
