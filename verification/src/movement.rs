//! Per-species locomotion: prey flocking and fleeing, predator pursuit
//! with target load-balancing, scavenger foraging and waypoint wandering,
//! and the age-based senescence curve they all share.

use vstd::prelude::*;
use crate::fixed::{div_tz, lemma_div_tz_bound, lemma_div_tz_magnitude, div_fx, min_i64};
use crate::geom::{Vec2m, wrap_coord_spec, wrap_coord, wrapped_distance_spec,
    wrapped_direction_spec, wrapped_direction, unit_scaled_spec, unit_scaled, lerp10_spec, lerp10,
    length_spec, length, within_range};
use crate::organism::{Organism, Species, Waypoint, Stamina};
use crate::environment::{sin_milli, HALF_TURN, FULL_TURN};
use crate::config::{SimulationConfig, MAX_TICK, VEL_MAX, STAMINA_FLOOR, MAX_ORGANISMS};
use crate::world::World;
use crate::rng::rand_i64_range;

verus! {

/// A quarter turn in microradians, for turning the sine into the cosine.
pub const QUARTER_TURN: i64 = 1_570_796;

/// The age-based speed multiplier, in milli: full speed below 240 seconds,
/// a linear taper from 1.0 to 0.2 up to 270 seconds, a linear taper from
/// 0.2 to zero up to 300 seconds, and zero beyond.
pub open spec fn age_speed_multiplier_spec(age: int) -> int {
    if age < 240_000_000 {
        1000
    } else if age < 270_000_000 {
        1000 - (age - 240_000_000) * 800 / 30_000_000
    } else if age < 300_000_000 {
        200 - (age - 270_000_000) * 200 / 30_000_000
    } else {
        0
    }
}

/// The senescence curve: how much of its genome speed an organism of a
/// given age (in microseconds) retains, in milli.
pub fn age_speed_multiplier(age: i64) -> (r: i64)
    requires
        0 <= age,
    ensures
        r == age_speed_multiplier_spec(age as int),
        0 <= r <= 1000,
{
    if age < 240_000_000 {
        1000
    } else if age < 270_000_000 {
        proof {
            assert(0 <= (age - 240_000_000) as int * 800 <= 30_000_000 * 800) by (nonlinear_arith)
                requires
                    240_000_000 <= age < 270_000_000,
            ;
            assert(0 <= (age - 240_000_000) as int * 800 / 30_000_000 <= 800) by (nonlinear_arith)
                requires
                    0 <= (age - 240_000_000) as int * 800 <= 30_000_000 * 800,
            ;
        }
        1000 - (age - 240_000_000) * 800 / 30_000_000
    } else if age < 300_000_000 {
        proof {
            assert(0 <= (age - 270_000_000) as int * 200 <= 30_000_000 * 200) by (nonlinear_arith)
                requires
                    270_000_000 <= age < 300_000_000,
            ;
            assert(0 <= (age - 270_000_000) as int * 200 / 30_000_000 <= 200) by (nonlinear_arith)
                requires
                    0 <= (age - 270_000_000) as int * 200 <= 30_000_000 * 200,
            ;
        }
        200 - (age - 270_000_000) * 200 / 30_000_000
    } else {
        0
    }
}

/// What a freshly drawn exploration waypoint is: for some drawn bearing
/// and some drawn hop of 100 to 200 units, the target is the starting
/// position displaced by that hop along the bearing (through the rational
/// sine and cosine), wrapped into the world, with the standard arrival
/// threshold of 30 units.
pub open spec fn waypoint_from(wp: Waypoint, px: int, py: int, hw: int, hh: int) -> bool {
    &&& wp.reached_threshold == 30_000
    &&& exists|angle: int, dist: int|
        {
            &&& 0 <= angle < FULL_TURN
            &&& 100_000 <= dist < 200_000
            &&& wp.target.x == #[trigger] wrap_coord_spec(
                px + div_tz(
                    crate::environment::sin_milli_spec((angle + QUARTER_TURN) % (
                    FULL_TURN as int)) * dist,
                    1000,
                ),
                hw,
            )
            &&& wp.target.y == #[trigger] wrap_coord_spec(
                py + div_tz(crate::environment::sin_milli_spec(angle) * dist, 1000),
                hh,
            )
        }
}

/// A fresh exploration waypoint: a random bearing and a random distance of
/// 100 to 200 units from the given position, wrapped into the world, with
/// the standard arrival threshold of 30 units.
pub fn fresh_waypoint(px: i64, py: i64, half_w: i64, half_h: i64) -> (r: Waypoint)
    requires
        0 <= half_w <= 0x4000_0000,
        0 <= half_h <= 0x4000_0000,
        -half_w <= px <= half_w,
        -half_h <= py <= half_h,
    ensures
        -half_w <= r.target.x <= half_w,
        -half_h <= r.target.y <= half_h,
        waypoint_from(r, px as int, py as int, half_w as int, half_h as int),
{
    let angle = rand_i64_range(0, FULL_TURN);
    let dist = rand_i64_range(100_000, 200_000);
    let cos_arg = (angle + QUARTER_TURN) % FULL_TURN;
    let s = sin_milli(angle);
    let c = sin_milli(cos_arg);
    proof {
        assert(-(200_000 * 1000) <= (c as int) * dist <= 200_000 * 1000 && -(200_000 * 1000) <= (
        s as int) * dist <= 200_000 * 1000) by (nonlinear_arith)
            requires
                -1000 <= c <= 1000,
                -1000 <= s <= 1000,
                100_000 <= dist < 200_000,
        ;
        crate::fixed::lemma_div_tz_bound((c as int) * dist, 1000, 200_000);
        crate::fixed::lemma_div_tz_bound((s as int) * dist, 1000, 200_000);
    }
    let ox = crate::fixed::div_fx(c * dist, 1000);
    let oy = crate::fixed::div_fx(s * dist, 1000);
    let tx = wrap_coord(px + ox, half_w);
    let ty = wrap_coord(py + oy, half_h);
    let r = Waypoint { target: Vec2m { x: tx, y: ty }, reached_threshold: 30_000 };
    proof {
        assert(cos_arg as int == (angle + QUARTER_TURN) % (FULL_TURN as int));
        assert(r.target.x == wrap_coord_spec(
            px + div_tz(
                crate::environment::sin_milli_spec((angle + QUARTER_TURN) % (FULL_TURN as int))
                    * dist,
                1000,
            ),
            half_w as int,
        ));
        assert(r.target.y == wrap_coord_spec(
            py + div_tz(crate::environment::sin_milli_spec(angle as int) * dist, 1000),
            half_h as int,
        ));
        assert(waypoint_from(r, px as int, py as int, half_w as int, half_h as int));
    }
    r
}

/// One axis of position integration: the velocity applied over the tick,
/// then wrapped at the half-extent.
pub open spec fn integrate_coord_spec(p: int, v: int, dt: int, half: int) -> int {
    wrap_coord_spec(p + div_tz(v * dt, 1_000_000), half)
}

/// The flee accumulation over the arena prefix of length `k`: for every
/// predator within one and a half vision ranges, a repulsion away from it
/// scaled by closeness; also the running maximum threat and whether any
/// predator was within range at all.
pub open spec fn flee_fold(me: Vec2m, s: Seq<Organism>, k: int, vision: int, hw: int, hh: int)
    -> (int, int, int, bool)
    decreases k,
{
    if k <= 0 {
        (0, 0, 0, false)
    } else {
        let acc = flee_fold(me, s, k - 1, vision, hw, hh);
        let o = s[k - 1];
        if o.species == Species::Predator && wrapped_distance_spec(me, o.pos, hw, hh) < vision * 3
            / 2 {
            let d = wrapped_distance_spec(me, o.pos, hw, hh);
            let strength = (vision * 3 / 2 - d) * 1000 / vision;
            let dir = wrapped_direction_spec(me, o.pos, hw, hh);
            let u = unit_scaled_spec(dir.0, dir.1, 1000);
            (
                acc.0 - div_tz(u.0 * strength * 2, 1000),
                acc.1 - div_tz(u.1 * strength * 2, 1000),
                if strength > acc.2 {
                    strength
                } else {
                    acc.2
                },
                true,
            )
        } else {
            acc
        }
    }
}

/// Whether an arena entry is a flocking neighbor of the prey at `me_idx`:
/// another prey within the 60-unit flocking radius but not closer than a
/// tenth of a unit.
pub open spec fn flock_near(me: Vec2m, me_idx: int, j: int, s: Seq<Organism>, hw: int, hh: int)
    -> bool {
    let d = wrapped_distance_spec(me, s[j].pos, hw, hh);
    j != me_idx && s[j].species == Species::Prey && 100 < d && d < 60_000
}

/// The separation sum over the prefix: an inverse-closeness repulsion from
/// every neighbor closer than 30 units.
pub open spec fn sep_fold(me: Vec2m, me_idx: int, s: Seq<Organism>, k: int, hw: int, hh: int)
    -> (int, int)
    decreases k,
{
    if k <= 0 {
        (0, 0)
    } else {
        let acc = sep_fold(me, me_idx, s, k - 1, hw, hh);
        let d = wrapped_distance_spec(me, s[k - 1].pos, hw, hh);
        if flock_near(me, me_idx, k - 1, s, hw, hh) && d < 30_000 {
            let dir = wrapped_direction_spec(me, s[k - 1].pos, hw, hh);
            let u = unit_scaled_spec(dir.0, dir.1, 1000);
            (acc.0 - div_tz(u.0 * (30_000 - d), 30_000), acc.1 - div_tz(u.1 * (30_000 - d), 30_000))
        } else {
            acc
        }
    }
}

/// The alignment sum over the prefix: every neighbor's velocity.
pub open spec fn align_fold(me: Vec2m, me_idx: int, s: Seq<Organism>, k: int, hw: int, hh: int)
    -> (int, int)
    decreases k,
{
    if k <= 0 {
        (0, 0)
    } else {
        let acc = align_fold(me, me_idx, s, k - 1, hw, hh);
        if flock_near(me, me_idx, k - 1, s, hw, hh) {
            (acc.0 + s[k - 1].vel.x, acc.1 + s[k - 1].vel.y)
        } else {
            acc
        }
    }
}

/// The cohesion sum over the prefix: the wrap-aware displacement to every
/// neighbor.
pub open spec fn coh_fold(me: Vec2m, me_idx: int, s: Seq<Organism>, k: int, hw: int, hh: int)
    -> (int, int)
    decreases k,
{
    if k <= 0 {
        (0, 0)
    } else {
        let acc = coh_fold(me, me_idx, s, k - 1, hw, hh);
        if flock_near(me, me_idx, k - 1, s, hw, hh) {
            let dir = wrapped_direction_spec(me, s[k - 1].pos, hw, hh);
            (acc.0 + dir.0, acc.1 + dir.1)
        } else {
            acc
        }
    }
}

/// How many flocking neighbors the prefix holds.
pub open spec fn flock_count(me: Vec2m, me_idx: int, s: Seq<Organism>, k: int, hw: int, hh: int)
    -> int
    decreases k,
{
    if k <= 0 {
        0
    } else {
        flock_count(me, me_idx, s, k - 1, hw, hh) + if flock_near(me, me_idx, k - 1, s, hw, hh) {
            1int
        } else {
            0int
        }
    }
}

/// The nearest plant in the prefix by squared wrap-aware distance, with
/// that squared distance; the earliest index wins ties.
pub open spec fn nearest_plant_fold(me: Vec2m, s: Seq<Organism>, k: int, hw: int, hh: int)
    -> Option<(int, int)>
    decreases k,
{
    if k <= 0 {
        None
    } else {
        let rest = nearest_plant_fold(me, s, k - 1, hw, hh);
        if s[k - 1].species == Species::Plant {
            let dir = wrapped_direction_spec(me, s[k - 1].pos, hw, hh);
            let d2 = dir.0 * dir.0 + dir.1 * dir.1;
            match rest {
                None => Some((k - 1, d2)),
                Some((bi, bd)) => if d2 < bd {
                    Some((k - 1, d2))
                } else {
                    Some((bi, bd))
                },
            }
        } else {
            rest
        }
    }
}

/// The desired direction a prey accumulates from the snapshot: flee
/// repulsions first; flocking (separation, alignment, cohesion) fully when
/// not fleeing, at reduced weight while the threat is moderate, suppressed
/// at high threat; then a steer of half a unit toward the nearest visible
/// plant when nothing stronger has accumulated and the threat is low.
pub open spec fn prey_desired_spec(i: int, s: Seq<Organism>, hw: int, hh: int) -> (int, int) {
    let o = s[i];
    let me = o.pos;
    let n = s.len() as int;
    let vision = o.genome.vision_range as int;
    let flee = flee_fold(me, s, n, vision, hw, hh);
    let threat = flee.2;
    let fleeing = flee.3;
    let d1 = if !fleeing || threat < 700 {
        let cnt = flock_count(me, i, s, n, hw, hh);
        if cnt > 0 {
            let sep = sep_fold(me, i, s, n, hw, hh);
            let al = align_fold(me, i, s, n, hw, hh);
            let coh = coh_fold(me, i, s, n, hw, hh);
            let au = unit_scaled_spec(div_tz(al.0, cnt), div_tz(al.1, cnt), 1000);
            let cu = unit_scaled_spec(div_tz(coh.0, cnt), div_tz(coh.1, cnt), 1000);
            let sw: int = if fleeing {
                300
            } else {
                900
            };
            let aw: int = if fleeing {
                100
            } else {
                300
            };
            let cw: int = if fleeing {
                160
            } else {
                480
            };
            (
                flee.0 + div_tz(div_tz(sep.0, cnt) * sw, 1000) + div_tz(au.0 * aw, 1000) + div_tz(
                    cu.0 * cw,
                    1000,
                ),
                flee.1 + div_tz(div_tz(sep.1, cnt) * sw, 1000) + div_tz(au.1 * aw, 1000) + div_tz(
                    cu.1 * cw,
                    1000,
                ),
            )
        } else {
            (flee.0, flee.1)
        }
    } else {
        (flee.0, flee.1)
    };
    if length_spec(d1.0, d1.1) < 500 && threat < 300 {
        match nearest_plant_fold(me, s, n, hw, hh) {
            Some((j, d2)) => {
                if wrapped_distance_spec(me, s[j].pos, hw, hh) < vision {
                    let dir = wrapped_direction_spec(me, s[j].pos, hw, hh);
                    let u = unit_scaled_spec(dir.0, dir.1, 1000);
                    (d1.0 + div_tz(u.0, 2), d1.1 + div_tz(u.1, 2))
                } else {
                    d1
                }
            },
            None => d1,
        }
    } else {
        d1
    }
}

/// The desired direction finally steered by: the accumulated one where it
/// is strong enough, otherwise some uniformly random direction with
/// components within one unit.
pub open spec fn desired_choice(i: int, s: Seq<Organism>, hw: int, hh: int, d: (int, int)) -> bool {
    let acc = prey_desired_spec(i, s, hw, hh);
    ||| (d == acc && length_spec(acc.0, acc.1) >= 100)
    ||| (length_spec(acc.0, acc.1) < 100 && -1000 <= d.0 < 1000 && -1000 <= d.1 < 1000)
}

/// A prey's stamina after the tick and whether it sprinted: sprinting
/// (permitted only while fleeing under real threat with stamina above 10
/// and energy above 20) drains 30 per second; otherwise stamina
/// regenerates toward its maximum.
pub open spec fn prey_stamina_next(st: Stamina, fleeing: bool, threat: int, energy: int, dt: int)
    -> (Stamina, bool) {
    let sprint = fleeing && st.current > 10_000 && energy > 20_000 && threat > 500;
    if sprint {
        (Stamina { current: (st.current - div_tz(30_000 * dt, 1_000_000)) as i64, ..st }, true)
    } else {
        let up = st.current + div_tz(st.regen_rate * dt, 1_000_000);
        (
            Stamina {
                current: if up <= st.max {
                    up as i64
                } else {
                    st.max
                },
                ..st
            },
            false,
        )
    }
}

/// How a prey leaves the movement pass, given the desired direction it
/// steered by: stamina resolved by the sprint rule, the velocity smoothed
/// a tenth of the way toward the desired direction at the age- and
/// sprint-scaled genome speed, the position integrated and wrapped, and
/// everything else retained.
pub open spec fn prey_moved_rel(
    o: Organism,
    n: Organism,
    s: Seq<Organism>,
    i: int,
    d: (int, int),
    dt: int,
    hw: int,
    hh: int,
) -> bool {
    let flee = flee_fold(o.pos, s, s.len() as int, o.genome.vision_range as int, hw, hh);
    let stn = prey_stamina_next(o.stamina->Some_0, flee.3, flee.2, o.energy as int, dt);
    let mult: int = if stn.1 {
        2500
    } else {
        1000
    };
    let ts = div_tz(
        div_tz(o.genome.speed * mult, 1000) * age_speed_multiplier_spec(o.age as int),
        1000,
    );
    let tv = unit_scaled_spec(d.0, d.1, ts);
    &&& n.stamina == Some(stn.0)
    &&& n.vel.x == lerp10_spec(o.vel.x as int, tv.0)
    &&& n.vel.y == lerp10_spec(o.vel.y as int, tv.1)
    &&& n.pos.x == integrate_coord_spec(o.pos.x as int, n.vel.x as int, dt, hw)
    &&& n.pos.y == integrate_coord_spec(o.pos.y as int, n.vel.y as int, dt, hh)
    &&& n == (Organism { pos: n.pos, vel: n.vel, stamina: n.stamina, ..o })
}

/// How one arena entry leaves the prey movement pass: prey move by the
/// flee/flock/forage/wander rules; everything else is untouched.
pub open spec fn prey_out_rel(
    o: Organism,
    m: Organism,
    s: Seq<Organism>,
    j: int,
    dt: int,
    hw: int,
    hh: int,
) -> bool {
    if o.species == Species::Prey {
        exists|d: (int, int)|
            #[trigger] desired_choice(j, s, hw, hh, d) && prey_moved_rel(o, m, s, j, d, dt, hw, hh)
    } else {
        m == o
    }
}

/// Moves one prey: accumulates its desired direction from the snapshot,
/// resolves sprinting, smooths the velocity and integrates the position.
#[verifier::rlimit(100)]
fn move_one_prey(
    orgs: &Vec<Organism>,
    i: usize,
    dt: i64,
    hw: i64,
    hh: i64,
    cfg: &SimulationConfig,
) -> (no: Organism)
    requires
        cfg.wf(),
        hw == cfg.half_w(),
        hh == cfg.half_h(),
        0 <= dt <= MAX_TICK,
        orgs@.len() <= MAX_ORGANISMS,
        forall|j: int| 0 <= j < orgs@.len() ==> (#[trigger] orgs@[j]).wf(cfg),
        i < orgs@.len(),
        orgs@[i as int].species == Species::Prey,
    ensures
        no.wf(cfg),
        no.id == orgs@[i as int].id,
        prey_out_rel(orgs@[i as int], no, orgs@, i as int, dt as int, hw as int, hh as int),
{
    let ghost s = orgs@;
    let o = orgs[i];
    let n = orgs.len();
    let me = o.pos;
    let vision = o.genome.vision_range;
    let t15 = vision * 3 / 2;
    let mut ax: i64 = 0;
    let mut ay: i64 = 0;
    let mut threat: i64 = 0;
    let mut fleeing: bool = false;
    let mut sx: i64 = 0;
    let mut sy: i64 = 0;
    let mut alx: i64 = 0;
    let mut aly: i64 = 0;
    let mut cx: i64 = 0;
    let mut cy: i64 = 0;
    let mut cnt: i64 = 0;
    let mut has_best: bool = false;
    let mut best_j: usize = 0;
    let mut best_d2: i64 = 0;
    let mut j: usize = 0;
    while j < n
        invariant
            cfg.wf(),
            s == orgs@,
            hw == cfg.half_w(),
            hh == cfg.half_h(),
            forall|j2: int| 0 <= j2 < s.len() ==> (#[trigger] s[j2]).wf(cfg),
            n == s.len(),
            n <= MAX_ORGANISMS,
            i < n,
            j <= n,
            o == s[i as int],
            me == o.pos,
            vision == o.genome.vision_range,
            0 <= vision <= 200_000,
            t15 == vision * 3 / 2,
            flee_fold(me, s, j as int, vision as int, hw as int, hh as int) == (
                ax as int,
                ay as int,
                threat as int,
                fleeing,
            ),
            -3000 * (j as int) <= ax <= 3000 * (j as int),
            -3000 * (j as int) <= ay <= 3000 * (j as int),
            0 <= threat <= 1500,
            sep_fold(me, i as int, s, j as int, hw as int, hh as int) == (sx as int, sy as int),
            align_fold(me, i as int, s, j as int, hw as int, hh as int) == (alx as int, aly as int),
            coh_fold(me, i as int, s, j as int, hw as int, hh as int) == (cx as int, cy as int),
            cnt == flock_count(me, i as int, s, j as int, hw as int, hh as int),
            0 <= cnt <= j,
            -1000 * cnt <= sx <= 1000 * cnt,
            -1000 * cnt <= sy <= 1000 * cnt,
            -500_000 * cnt <= alx <= 500_000 * cnt,
            -500_000 * cnt <= aly <= 500_000 * cnt,
            -0x4000_0000 * cnt <= cx <= 0x4000_0000 * cnt,
            -0x4000_0000 * cnt <= cy <= 0x4000_0000 * cnt,
            nearest_plant_fold(me, s, j as int, hw as int, hh as int) == (if has_best {
                Some((best_j as int, best_d2 as int))
            } else {
                Option::<(int, int)>::None
            }),
            has_best ==> best_j < n && s[best_j as int].species == Species::Plant && 0 <= best_d2,
        decreases n - j,
    {
        let o2 = orgs[j];
        if o2.species == Species::Predator {
            if within_range(me, o2.pos, t15, hw, hh) {
                let d = crate::geom::wrapped_distance(me, o2.pos, hw, hh);
                proof {
                    assert(vision >= 1);
                    assert(0 <= ((t15 - d) as int) * 1000 <= 300_000_000);
                    assert(0 <= ((t15 - d) as int) * 1000 / (vision as int) <= 1500)
                        by (nonlinear_arith)
                        requires
                            1 <= vision <= 200_000,
                            t15 == vision * 3 / 2,
                            0 <= d,
                            0 <= ((t15 - d) as int) * 1000 <= 300_000_000,
                    ;
                }
                let strength = ((t15 - d) * 1000) / vision;
                let dir = wrapped_direction(me, o2.pos, hw, hh);
                let u = unit_scaled(dir.x, dir.y, 1000);
                proof {
                    assert(-3_000_000 <= (u.0 as int) * strength * 2 <= 3_000_000 && -3_000_000
                        <= (u.1 as int) * strength * 2 <= 3_000_000) by (nonlinear_arith)
                        requires
                            -1000 <= u.0 <= 1000,
                            -1000 <= u.1 <= 1000,
                            0 <= strength <= 1500,
                    ;
                    lemma_div_tz_bound((u.0 as int) * strength * 2, 1000, 3000);
                    lemma_div_tz_bound((u.1 as int) * strength * 2, 1000, 3000);
                }
                ax = ax - div_fx(u.0 * strength * 2, 1000);
                ay = ay - div_fx(u.1 * strength * 2, 1000);
                threat = crate::fixed::max_i64(threat, strength);
                fleeing = true;
            }
        } else if o2.species == Species::Prey && j != i {
            if within_range(me, o2.pos, 60_000, hw, hh) && !within_range(me, o2.pos, 101, hw, hh) {
                proof {
                    assert(-500_000 * (cnt + 1) <= alx + o2.vel.x <= 500_000 * (cnt + 1)
                        && -500_000 * (cnt + 1) <= aly + o2.vel.y <= 500_000 * (cnt + 1)
                        && 500_000 * (cnt + 1) <= 500_000 * 500_001) by (nonlinear_arith)
                        requires
                            -500_000 * cnt <= alx <= 500_000 * cnt,
                            -500_000 * cnt <= aly <= 500_000 * cnt,
                            -500_000 <= o2.vel.x <= 500_000,
                            -500_000 <= o2.vel.y <= 500_000,
                            0 <= cnt <= 500_000,
                    ;
                }
                cnt = cnt + 1;
                alx = alx + o2.vel.x;
                aly = aly + o2.vel.y;
                let dir = wrapped_direction(me, o2.pos, hw, hh);
                proof {
                    assert(-0x4000_0000 * cnt <= cx + dir.x <= 0x4000_0000 * cnt && -0x4000_0000
                        * cnt <= cy + dir.y <= 0x4000_0000 * cnt && 0x4000_0000 * cnt
                        <= 0x4000_0000 * 500_001) by (nonlinear_arith)
                        requires
                            -0x4000_0000 * (cnt - 1) <= cx <= 0x4000_0000 * (cnt - 1),
                            -0x4000_0000 * (cnt - 1) <= cy <= 0x4000_0000 * (cnt - 1),
                            -0x4000_0000 <= dir.x <= 0x4000_0000,
                            -0x4000_0000 <= dir.y <= 0x4000_0000,
                            1 <= cnt <= 500_001,
                    ;
                }
                cx = cx + dir.x;
                cy = cy + dir.y;
                if within_range(me, o2.pos, 30_000, hw, hh) {
                    let d = crate::geom::wrapped_distance(me, o2.pos, hw, hh);
                    let u = unit_scaled(dir.x, dir.y, 1000);
                    proof {
                        assert(-30_000_000 <= (u.0 as int) * (30_000 - d) <= 30_000_000
                            && -30_000_000 <= (u.1 as int) * (30_000 - d) <= 30_000_000)
                            by (nonlinear_arith)
                            requires
                                -1000 <= u.0 <= 1000,
                                -1000 <= u.1 <= 1000,
                                0 <= d < 30_000,
                        ;
                        lemma_div_tz_bound((u.0 as int) * (30_000 - d), 30_000, 1000);
                        lemma_div_tz_bound((u.1 as int) * (30_000 - d), 30_000, 1000);
                        assert(-1000 * cnt <= sx - div_tz((u.0 as int) * (30_000 - d), 30_000)
                            <= 1000 * cnt && -1000 * cnt <= sy - div_tz(
                            (u.1 as int) * (30_000 - d),
                            30_000,
                        ) <= 1000 * cnt) by (nonlinear_arith)
                            requires
                                -1000 * (cnt - 1) <= sx <= 1000 * (cnt - 1),
                                -1000 * (cnt - 1) <= sy <= 1000 * (cnt - 1),
                                -1000 <= div_tz((u.0 as int) * (30_000 - d), 30_000) <= 1000,
                                -1000 <= div_tz((u.1 as int) * (30_000 - d), 30_000) <= 1000,
                                1 <= cnt,
                        ;
                    }
                    sx = sx - div_fx(u.0 * (30_000 - d), 30_000);
                    sy = sy - div_fx(u.1 * (30_000 - d), 30_000);
                } else {
                    proof {
                        assert(-1000 * cnt <= sx <= 1000 * cnt && -1000 * cnt <= sy <= 1000 * cnt)
                            by (nonlinear_arith)
                            requires
                                -1000 * (cnt - 1) <= sx <= 1000 * (cnt - 1),
                                -1000 * (cnt - 1) <= sy <= 1000 * (cnt - 1),
                                1 <= cnt,
                        ;
                    }
                }
            }
        } else if o2.species == Species::Plant {
            let dir = wrapped_direction(me, o2.pos, hw, hh);
            proof {
                assert(0 <= (dir.x as int) * dir.x <= 0x4000_0000 * 0x4000_0000 && 0 <= (
                dir.y as int) * dir.y <= 0x4000_0000 * 0x4000_0000) by (nonlinear_arith)
                    requires
                        -0x4000_0000 <= dir.x <= 0x4000_0000,
                        -0x4000_0000 <= dir.y <= 0x4000_0000,
                ;
            }
            let d2 = dir.x * dir.x + dir.y * dir.y;
            if !has_best || d2 < best_d2 {
                has_best = true;
                best_j = j;
                best_d2 = d2;
            }
        }
        j = j + 1;
    }
    let mut dx: i64 = ax;
    let mut dy: i64 = ay;
    proof {
        assert(-3000 * (n as int) >= -3000 * 500_000 && 3000 * (n as int) <= 3000 * 500_000)
            by (nonlinear_arith)
            requires
                n <= 500_000,
        ;
    }
    if (!fleeing || threat < 700) && cnt > 0 {
        proof {
            lemma_div_tz_bound(sx as int, cnt as int, 1000);
            lemma_div_tz_bound(sy as int, cnt as int, 1000);
            lemma_div_tz_bound(alx as int, cnt as int, 500_000);
            lemma_div_tz_bound(aly as int, cnt as int, 500_000);
            lemma_div_tz_bound(cx as int, cnt as int, 0x4000_0000);
            lemma_div_tz_bound(cy as int, cnt as int, 0x4000_0000);
        }
        let sax = div_fx(sx, cnt);
        let say = div_fx(sy, cnt);
        let alax = div_fx(alx, cnt);
        let alay = div_fx(aly, cnt);
        let cax = div_fx(cx, cnt);
        let cay = div_fx(cy, cnt);
        let au = unit_scaled(alax, alay, 1000);
        let cu = unit_scaled(cax, cay, 1000);
        let sw: i64 = if fleeing {
            300
        } else {
            900
        };
        let aw: i64 = if fleeing {
            100
        } else {
            300
        };
        let cw: i64 = if fleeing {
            160
        } else {
            480
        };
        proof {
            assert(-900_000 <= (sax as int) * sw <= 900_000 && -300_000 <= (au.0 as int) * aw
                <= 300_000 && -480_000 <= (cu.0 as int) * cw <= 480_000 && -900_000 <= (
            say as int) * sw <= 900_000 && -300_000 <= (au.1 as int) * aw <= 300_000 && -480_000
                <= (cu.1 as int) * cw <= 480_000) by (nonlinear_arith)
                requires
                    -1000 <= sax <= 1000,
                    -1000 <= say <= 1000,
                    -1000 <= au.0 <= 1000,
                    -1000 <= au.1 <= 1000,
                    -1000 <= cu.0 <= 1000,
                    -1000 <= cu.1 <= 1000,
                    0 <= sw <= 900,
                    0 <= aw <= 300,
                    0 <= cw <= 480,
            ;
            lemma_div_tz_bound((sax as int) * sw, 1000, 900);
            lemma_div_tz_bound((say as int) * sw, 1000, 900);
            lemma_div_tz_bound((au.0 as int) * aw, 1000, 300);
            lemma_div_tz_bound((au.1 as int) * aw, 1000, 300);
            lemma_div_tz_bound((cu.0 as int) * cw, 1000, 480);
            lemma_div_tz_bound((cu.1 as int) * cw, 1000, 480);
        }
        dx = ax + div_fx(sax * sw, 1000) + div_fx(au.0 * aw, 1000) + div_fx(cu.0 * cw, 1000);
        dy = ay + div_fx(say * sw, 1000) + div_fx(au.1 * aw, 1000) + div_fx(cu.1 * cw, 1000);
    }
    let dlen = length(dx, dy);
    if dlen < 500 && threat < 300 && has_best {
        let plant_pos = orgs[best_j].pos;
        if within_range(me, plant_pos, vision, hw, hh) {
            let dir = wrapped_direction(me, plant_pos, hw, hh);
            let u = unit_scaled(dir.x, dir.y, 1000);
            proof {
                lemma_div_tz_bound(u.0 as int, 2, 500);
                lemma_div_tz_bound(u.1 as int, 2, 500);
            }
            dx = dx + div_fx(u.0, 2);
            dy = dy + div_fx(u.1, 2);
        }
    }
    proof {
        assert((dx as int, dy as int) == prey_desired_spec(i as int, s, hw as int, hh as int));
    }
    let dlen2 = length(dx, dy);
    if dlen2 < 100 {
        dx = rand_i64_range(-1000, 1000);
        dy = rand_i64_range(-1000, 1000);
    }
    proof {
        assert(desired_choice(i as int, s, hw as int, hh as int, (dx as int, dy as int)));
    }
    let st = match o.stamina {
        Some(st) => st,
        None => {
            proof {
                assert(false);
            }
            Stamina { current: 0, max: 0, regen_rate: 0 }
        },
    };
    let sprint = fleeing && st.current > 10_000 && o.energy > 20_000 && threat > 500;
    let st2: Stamina;
    let mult: i64;
    if sprint {
        proof {
            assert(0 <= 30_000 * (dt as int) <= 30_000 * MAX_TICK);
            lemma_div_tz_bound(30_000 * (dt as int), 1_000_000, 1_800_000);
            lemma_div_tz_magnitude(30_000 * (dt as int), 1_000_000);
        }
        st2 = Stamina { current: st.current - div_fx(30_000 * dt, 1_000_000), ..st };
        mult = 2500;
    } else {
        proof {
            assert(0 <= (st.regen_rate as int) * dt <= 100_000 * MAX_TICK) by (nonlinear_arith)
                requires
                    0 <= st.regen_rate <= 100_000,
                    0 <= dt <= MAX_TICK,
            ;
            lemma_div_tz_bound((st.regen_rate as int) * dt, 1_000_000, 6_000_000);
            lemma_div_tz_magnitude((st.regen_rate as int) * dt, 1_000_000);
        }
        st2 = Stamina {
            current: min_i64(st.current + div_fx(st.regen_rate * dt, 1_000_000), st.max),
            ..st
        };
        mult = 1000;
    }
    let agem = age_speed_multiplier(o.age);
    proof {
        assert(0 <= (o.genome.speed as int) * mult <= 500_000_000) by (nonlinear_arith)
            requires
                0 <= o.genome.speed <= 200_000,
                1000 <= mult <= 2500,
        ;
        lemma_div_tz_magnitude((o.genome.speed as int) * mult, 1000);
    }
    let base_speed = div_fx(o.genome.speed * mult, 1000);
    proof {
        assert(0 <= (base_speed as int) * agem <= 500_000_000) by (nonlinear_arith)
            requires
                0 <= base_speed <= 500_000,
                0 <= agem <= 1000,
        ;
        lemma_div_tz_bound((base_speed as int) * agem, 1000, 500_000);
    }
    let ts = div_fx(base_speed * agem, 1000);
    let tv = unit_scaled(dx, dy, ts);
    let nvx = lerp10(o.vel.x, tv.0);
    let nvy = lerp10(o.vel.y, tv.1);
    proof {
        assert(-(VEL_MAX as int) * MAX_TICK <= (nvx as int) * dt <= (VEL_MAX as int) * MAX_TICK
            && -(VEL_MAX as int) * MAX_TICK <= (nvy as int) * dt <= (VEL_MAX as int) * MAX_TICK)
            by (nonlinear_arith)
            requires
                -500_000 <= nvx <= 500_000,
                -500_000 <= nvy <= 500_000,
                0 <= dt <= MAX_TICK,
                VEL_MAX == 500_000,
                MAX_TICK == 60_000_000,
        ;
        lemma_div_tz_bound((nvx as int) * dt, 1_000_000, 30_000_000);
        lemma_div_tz_bound((nvy as int) * dt, 1_000_000, 30_000_000);
    }
    let mx = div_fx(nvx * dt, 1_000_000);
    let my = div_fx(nvy * dt, 1_000_000);
    let npx = wrap_coord(o.pos.x + mx, hw);
    let npy = wrap_coord(o.pos.y + my, hh);
    let no = Organism {
        pos: Vec2m { x: npx, y: npy },
        vel: Vec2m { x: nvx, y: nvy },
        stamina: Some(st2),
        ..o
    };
    proof {
        assert(prey_moved_rel(
            o,
            no,
            s,
            i as int,
            (dx as int, dy as int),
            dt as int,
            hw as int,
            hh as int,
        ));
    }
    no
}

/// Prey movement: each prey accumulates a desired direction (fleeing
/// predators first, then flocking, then foraging, then a random wander
/// when nothing stronger accumulated), resolves sprinting against stamina
/// and threat, smooths its velocity a tenth of the way toward the target,
/// and integrates and wraps its position. All reads are of the pass's
/// starting snapshot, so entities react to the previous state.
pub fn prey_movement_system(w: &mut World, dt: i64)
    requires
        old(w).wf(),
        0 <= dt <= MAX_TICK,
    ensures
        final(w).wf(),
        final(w).organisms@.len() == old(w).organisms@.len(),
        forall|i: int|
            0 <= i < old(w).organisms@.len() ==> prey_out_rel(
                old(w).organisms@[i],
                #[trigger] final(w).organisms@[i],
                old(w).organisms@,
                i,
                dt as int,
                old(w).config.half_w(),
                old(w).config.half_h(),
            ),
        final(w).config == old(w).config,
        final(w).next_id == old(w).next_id,
        final(w).sunlight == old(w).sunlight,
        final(w).stats == old(w).stats,
        final(w).history == old(w).history,
{
    let n = w.organisms.len();
    let hw = w.config.half_width();
    let hh = w.config.half_height();
    let ghost s = w.organisms@;
    let mut out: Vec<Organism> = Vec::new();
    let mut i: usize = 0;
    while i < n
        invariant
            w == old(w),
            w.wf(),
            s == w.organisms@,
            hw == w.config.half_w(),
            hh == w.config.half_h(),
            0 <= dt <= MAX_TICK,
            n == s.len(),
            i <= n,
            out@.len() == i,
            forall|j: int|
                0 <= j < i ==> (#[trigger] out@[j]).wf(&w.config) && out@[j].id == s[j].id
                    && prey_out_rel(s[j], out@[j], s, j, dt as int, hw as int, hh as int),
        decreases n - i,
    {
        let o = w.organisms[i];
        if o.species == Species::Prey {
            let no = move_one_prey(&w.organisms, i, dt, hw, hh, &w.config);
            out.push(no);
        } else {
            out.push(o);
        }
        i = i + 1;
    }
    w.organisms = out;
    proof {
        assert forall|i2: int, j2: int|
            0 <= i2 < j2 < w.organisms@.len() implies w.organisms@[i2].id
            != w.organisms@[j2].id by {
            assert(w.organisms@[i2].id == old(w).organisms@[i2].id);
            assert(w.organisms@[j2].id == old(w).organisms@[j2].id);
        }
    }
}

/// How many predators in the prefix currently target the given identifier.
pub open spec fn hunters_of(s: Seq<Organism>, t: u64, k: int) -> int
    decreases k,
{
    if k <= 0 {
        0
    } else {
        hunters_of(s, t, k - 1) + if s[k - 1].species == Species::Predator && s[k - 1].hunt_target
            == Some(t) {
            1int
        } else {
            0int
        }
    }
}

/// The first index in the prefix holding a living prey with the given
/// identifier.
pub open spec fn first_prey_idx(s: Seq<Organism>, t: u64, k: int) -> Option<int>
    decreases k,
{
    if k <= 0 {
        None
    } else {
        match first_prey_idx(s, t, k - 1) {
            Some(j) => Some(j),
            None => if s[k - 1].species == Species::Prey && s[k - 1].id == t {
                Some(k - 1)
            } else {
                None
            },
        }
    }
}

/// The prey in the prefix within vision range with the fewest current
/// hunters, with that hunter count; the earliest index wins ties.
pub open spec fn best_prey_fold(me: Vec2m, s: Seq<Organism>, k: int, vision: int, hw: int, hh: int)
    -> Option<(int, int)>
    decreases k,
{
    if k <= 0 {
        None
    } else {
        let rest = best_prey_fold(me, s, k - 1, vision, hw, hh);
        let o = s[k - 1];
        if o.species == Species::Prey && wrapped_distance_spec(me, o.pos, hw, hh) < vision {
            let hc = hunters_of(s, o.id, s.len() as int);
            match rest {
                None => Some((k - 1, hc)),
                Some((bi, bc)) => if hc < bc {
                    Some((k - 1, hc))
                } else {
                    Some((bi, bc))
                },
            }
        } else {
            rest
        }
    }
}

/// The separation sum a predator accumulates from other predators within
/// 50 units (a predator at its own exact position contributes nothing).
pub open spec fn pred_sep_fold(me: Vec2m, s: Seq<Organism>, k: int, hw: int, hh: int) -> (
    int,
    int,
)
    decreases k,
{
    if k <= 0 {
        (0, 0)
    } else {
        let acc = pred_sep_fold(me, s, k - 1, hw, hh);
        let o = s[k - 1];
        let d = wrapped_distance_spec(me, o.pos, hw, hh);
        if o.species == Species::Predator && 100 < d && d < 50_000 {
            let dir = wrapped_direction_spec(me, o.pos, hw, hh);
            let u = unit_scaled_spec(dir.0, dir.1, 1000);
            (acc.0 - div_tz(u.0 * (50_000 - d), 50_000), acc.1 - div_tz(u.1 * (50_000 - d), 50_000))
        } else {
            acc
        }
    }
}

/// A predator's current target after validation: dropped when the prey no
/// longer exists, when more than three hunters crowd it, or when it is
/// farther than twice the vision range.
pub open spec fn validated_target(i: int, s: Seq<Organism>, hw: int, hh: int) -> Option<u64> {
    let o = s[i];
    match o.hunt_target {
        None => None,
        Some(t) => match first_prey_idx(s, t, s.len() as int) {
            None => None,
            Some(j) => if hunters_of(s, t, s.len() as int) > 3 || wrapped_distance_spec(
                o.pos,
                s[j].pos,
                hw,
                hh,
            ) > 2 * o.genome.vision_range {
                None
            } else {
                Some(t)
            },
        },
    }
}

/// The target a predator leaves the pass with: the validated current one,
/// or the least-hunted prey within vision when re-targeting is needed.
pub open spec fn chosen_target(i: int, s: Seq<Organism>, hw: int, hh: int) -> Option<u64> {
    match validated_target(i, s, hw, hh) {
        Some(t) => Some(t),
        None => match best_prey_fold(
            s[i].pos,
            s,
            s.len() as int,
            s[i].genome.vision_range as int,
            hw,
            hh,
        ) {
            Some((j, _)) => Some(s[j].id),
            None => None,
        },
    }
}

/// The desired direction a predator accumulates: straight at its chosen
/// target (nothing, when no prey is in sight — exploration waypoints are
/// spawn state the hunting pass never reads or writes), plus three tenths
/// of the separation force from nearby predators.
pub open spec fn pred_desired_spec(i: int, s: Seq<Organism>, hw: int, hh: int) -> (int, int) {
    let o = s[i];
    let base = match chosen_target(i, s, hw, hh) {
        Some(t) => match first_prey_idx(s, t, s.len() as int) {
            Some(j) => {
                let dir = wrapped_direction_spec(o.pos, s[j].pos, hw, hh);
                unit_scaled_spec(dir.0, dir.1, 1000)
            },
            None => (0, 0),
        },
        None => (0, 0),
    };
    let sep = pred_sep_fold(o.pos, s, s.len() as int, hw, hh);
    (base.0 + div_tz(sep.0 * 300, 1000), base.1 + div_tz(sep.1 * 300, 1000))
}

/// How a predator leaves the pass, given the direction it steered by: the
/// chosen target installed, the desired direction the target steer plus
/// separation (or some random wander direction when that accumulates to
/// nothing), the velocity smoothed toward the age-scaled genome speed, the
/// position integrated and wrapped, everything else — the waypoint
/// included — retained.
pub open spec fn pred_moved_rel(
    o: Organism,
    n: Organism,
    s: Seq<Organism>,
    i: int,
    d: (int, int),
    dt: int,
    hw: int,
    hh: int,
) -> bool {
    let acc = pred_desired_spec(i, s, hw, hh);
    let ts = div_tz(o.genome.speed * age_speed_multiplier_spec(o.age as int), 1000);
    let tv = unit_scaled_spec(d.0, d.1, ts);
    &&& n.hunt_target == chosen_target(i, s, hw, hh)
    &&& ((d == acc && length_spec(acc.0, acc.1) >= 100) || (length_spec(acc.0, acc.1) < 100
        && -1000 <= d.0 < 1000 && -1000 <= d.1 < 1000))
    &&& n.vel.x == lerp10_spec(o.vel.x as int, tv.0)
    &&& n.vel.y == lerp10_spec(o.vel.y as int, tv.1)
    &&& n.pos.x == integrate_coord_spec(o.pos.x as int, n.vel.x as int, dt, hw)
    &&& n.pos.y == integrate_coord_spec(o.pos.y as int, n.vel.y as int, dt, hh)
    &&& n == (Organism { pos: n.pos, vel: n.vel, hunt_target: n.hunt_target, ..o })
}

/// How one arena entry leaves the predator pass.
pub open spec fn pred_out_rel(
    o: Organism,
    m: Organism,
    s: Seq<Organism>,
    j: int,
    dt: int,
    hw: int,
    hh: int,
) -> bool {
    if o.species == Species::Predator {
        exists|d: (int, int)| #[trigger] pred_moved_rel(o, m, s, j, d, dt, hw, hh)
    } else {
        m == o
    }
}

/// Whether a current hunt target survives this tick's evaluation: the prey
/// must still exist, carry at most three concurrent hunters, and lie no
/// farther than twice the predator's vision range. A target whose hunter
/// count exceeds three is always cleared here.
pub fn hunt_target_valid(target_alive: bool, hunter_count: i64, distance: i64, vision: i64) -> (r:
    bool)
    requires
        0 <= vision <= 2_000_000_000,
    ensures
        r == (target_alive && hunter_count <= 3 && distance <= 2 * vision),
        hunter_count > 3 ==> !r,
{
    target_alive && hunter_count <= 3 && distance <= 2 * vision
}

/// Counts the predators currently targeting the given identifier.
fn count_hunters(orgs: &Vec<Organism>, t: u64) -> (r: i64)
    requires
        orgs@.len() <= MAX_ORGANISMS,
    ensures
        r == hunters_of(orgs@, t, orgs@.len() as int),
        0 <= r <= orgs@.len(),
{
    let n = orgs.len();
    let mut r: i64 = 0;
    let mut j: usize = 0;
    while j < n
        invariant
            n == orgs@.len(),
            n <= MAX_ORGANISMS,
            j <= n,
            r == hunters_of(orgs@, t, j as int),
            0 <= r <= j,
        decreases n - j,
    {
        let o = &orgs[j];
        if o.species == Species::Predator {
            if let Some(t2) = o.hunt_target {
                if t2 == t {
                    r = r + 1;
                }
            }
        }
        j = j + 1;
    }
    r
}

/// Once the first-prey scan has found an index, longer prefixes agree.
proof fn lemma_first_prey_persist(s: Seq<Organism>, t: u64, k1: int, k2: int)
    requires
        first_prey_idx(s, t, k1) is Some,
        k1 <= k2,
    ensures
        first_prey_idx(s, t, k2) == first_prey_idx(s, t, k1),
    decreases k2 - k1,
{
    if k2 > k1 {
        lemma_first_prey_persist(s, t, k1, k2 - 1);
    }
}

/// Finds the first living prey with the given identifier.
fn find_prey_by_id(orgs: &Vec<Organism>, t: u64) -> (r: Option<usize>)
    ensures
        match r {
            Some(j) => j < orgs@.len() && first_prey_idx(orgs@, t, orgs@.len() as int) == Some(
                j as int,
            ),
            None => first_prey_idx(orgs@, t, orgs@.len() as int) is None,
        },
{
    let n = orgs.len();
    let mut j: usize = 0;
    while j < n
        invariant
            n == orgs@.len(),
            j <= n,
            first_prey_idx(orgs@, t, j as int) is None,
        decreases n - j,
    {
        let o = &orgs[j];
        if o.species == Species::Prey && o.id == t {
            proof {
                assert(first_prey_idx(orgs@, t, j + 1) == Some(j as int));
                lemma_first_prey_persist(orgs@, t, j + 1, orgs@.len() as int);
            }
            return Some(j);
        }
        j = j + 1;
    }
    None
}

/// Moves one predator: validates or re-selects its hunt target, steers at
/// it with separation from other predators (wandering randomly when no
/// prey is in sight), and integrates.
#[verifier::rlimit(100)]
fn move_one_predator(orgs: &Vec<Organism>, i: usize, dt: i64, hw: i64, hh: i64, cfg: &SimulationConfig)
    -> (no: Organism)
    requires
        cfg.wf(),
        hw == cfg.half_w(),
        hh == cfg.half_h(),
        0 <= dt <= MAX_TICK,
        orgs@.len() <= MAX_ORGANISMS,
        forall|j: int| 0 <= j < orgs@.len() ==> (#[trigger] orgs@[j]).wf(cfg),
        i < orgs@.len(),
        orgs@[i as int].species == Species::Predator,
    ensures
        no.wf(cfg),
        no.id == orgs@[i as int].id,
        pred_out_rel(orgs@[i as int], no, orgs@, i as int, dt as int, hw as int, hh as int),
{
    let ghost s = orgs@;
    let o = orgs[i];
    let n = orgs.len();
    let me = o.pos;
    let vision = o.genome.vision_range;
    let target: Option<u64> = match o.hunt_target {
        Some(t) => {
            match find_prey_by_id(orgs, t) {
                Some(j) => {
                    let hc = count_hunters(orgs, t);
                    let d = crate::geom::wrapped_distance(me, orgs[j].pos, hw, hh);
                    if hunt_target_valid(true, hc, d, vision) {
                        Some(t)
                    } else {
                        None
                    }
                },
                None => None,
            }
        },
        None => None,
    };
    proof {
        assert(target == validated_target(i as int, s, hw as int, hh as int));
    }
    let chosen: Option<u64> = match target {
        Some(t) => Some(t),
        None => {
            let mut has_best: bool = false;
            let mut best_j: usize = 0;
            let mut best_hc: i64 = 0;
            let mut j: usize = 0;
            while j < n
                invariant
                    cfg.wf(),
                    s == orgs@,
                    hw == cfg.half_w(),
                    hh == cfg.half_h(),
                    forall|j2: int| 0 <= j2 < s.len() ==> (#[trigger] s[j2]).wf(cfg),
                    n == s.len(),
                    n <= MAX_ORGANISMS,
                    i < n,
                    j <= n,
                    o == s[i as int],
                    me == o.pos,
                    vision == o.genome.vision_range,
                    best_prey_fold(me, s, j as int, vision as int, hw as int, hh as int) == (
                    if has_best {
                        Some((best_j as int, best_hc as int))
                    } else {
                        Option::<(int, int)>::None
                    }),
                    has_best ==> best_j < n,
                decreases n - j,
            {
                let o2 = orgs[j];
                if o2.species == Species::Prey && within_range(me, o2.pos, vision, hw, hh) {
                    let hc = count_hunters(orgs, o2.id);
                    if !has_best || hc < best_hc {
                        has_best = true;
                        best_j = j;
                        best_hc = hc;
                    }
                }
                j = j + 1;
            }
            if has_best {
                Some(orgs[best_j].id)
            } else {
                None
            }
        },
    };
    proof {
        assert(chosen == chosen_target(i as int, s, hw as int, hh as int));
    }
    let mut bx: i64 = 0;
    let mut by: i64 = 0;
    if let Some(t) = chosen {
        if let Some(j) = find_prey_by_id(orgs, t) {
            let dir = wrapped_direction(me, orgs[j].pos, hw, hh);
            let u = unit_scaled(dir.x, dir.y, 1000);
            bx = u.0;
            by = u.1;
        }
    }
    let mut px: i64 = 0;
    let mut py: i64 = 0;
    let mut j: usize = 0;
    while j < n
        invariant
            cfg.wf(),
            s == orgs@,
            hw == cfg.half_w(),
            hh == cfg.half_h(),
            forall|j2: int| 0 <= j2 < s.len() ==> (#[trigger] s[j2]).wf(cfg),
            n == s.len(),
            n <= MAX_ORGANISMS,
            i < n,
            j <= n,
            me == o.pos,
            o == s[i as int],
            pred_sep_fold(me, s, j as int, hw as int, hh as int) == (px as int, py as int),
            -1000 * (j as int) <= px <= 1000 * (j as int),
            -1000 * (j as int) <= py <= 1000 * (j as int),
        decreases n - j,
    {
        let o2 = orgs[j];
        if o2.species == Species::Predator {
            if within_range(me, o2.pos, 50_000, hw, hh) && !within_range(me, o2.pos, 101, hw, hh) {
                let d = crate::geom::wrapped_distance(me, o2.pos, hw, hh);
                let dir = wrapped_direction(me, o2.pos, hw, hh);
                let u = unit_scaled(dir.x, dir.y, 1000);
                proof {
                    assert(-50_000_000 <= (u.0 as int) * (50_000 - d) <= 50_000_000 && -50_000_000
                        <= (u.1 as int) * (50_000 - d) <= 50_000_000) by (nonlinear_arith)
                        requires
                            -1000 <= u.0 <= 1000,
                            -1000 <= u.1 <= 1000,
                            0 <= d < 50_000,
                    ;
                    lemma_div_tz_bound((u.0 as int) * (50_000 - d), 50_000, 1000);
                    lemma_div_tz_bound((u.1 as int) * (50_000 - d), 50_000, 1000);
                }
                px = px - div_fx(u.0 * (50_000 - d), 50_000);
                py = py - div_fx(u.1 * (50_000 - d), 50_000);
            }
        }
        j = j + 1;
    }
    proof {
        assert(-1000 * (n as int) >= -1000 * 500_000 && 1000 * (n as int) <= 1000 * 500_000)
            by (nonlinear_arith)
            requires
                n <= 500_000,
        ;
        assert(-(500_000_000int * 300) <= (px as int) * 300 <= 500_000_000int * 300 && -(
        500_000_000int * 300) <= (py as int) * 300 <= 500_000_000int * 300) by (nonlinear_arith)
            requires
                -500_000_000 <= px <= 500_000_000,
                -500_000_000 <= py <= 500_000_000,
        ;
        lemma_div_tz_bound((px as int) * 300, 1000, 150_000_000);
        lemma_div_tz_bound((py as int) * 300, 1000, 150_000_000);
    }
    let mut dx: i64 = bx + div_fx(px * 300, 1000);
    let mut dy: i64 = by + div_fx(py * 300, 1000);
    let ghost acc = (dx as int, dy as int);
    let dlen = length(dx, dy);
    if dlen < 100 {
        dx = rand_i64_range(-1000, 1000);
        dy = rand_i64_range(-1000, 1000);
    }
    let agem = age_speed_multiplier(o.age);
    proof {
        assert(0 <= (o.genome.speed as int) * agem <= 200_000_000) by (nonlinear_arith)
            requires
                0 <= o.genome.speed <= 200_000,
                0 <= agem <= 1000,
        ;
        lemma_div_tz_bound((o.genome.speed as int) * agem, 1000, 200_000);
    }
    let ts = div_fx(o.genome.speed * agem, 1000);
    let tv = unit_scaled(dx, dy, ts);
    let nvx = lerp10(o.vel.x, tv.0);
    let nvy = lerp10(o.vel.y, tv.1);
    proof {
        assert(-(VEL_MAX as int) * MAX_TICK <= (nvx as int) * dt <= (VEL_MAX as int) * MAX_TICK
            && -(VEL_MAX as int) * MAX_TICK <= (nvy as int) * dt <= (VEL_MAX as int) * MAX_TICK)
            by (nonlinear_arith)
            requires
                -500_000 <= nvx <= 500_000,
                -500_000 <= nvy <= 500_000,
                0 <= dt <= MAX_TICK,
                VEL_MAX == 500_000,
                MAX_TICK == 60_000_000,
        ;
        lemma_div_tz_bound((nvx as int) * dt, 1_000_000, 30_000_000);
        lemma_div_tz_bound((nvy as int) * dt, 1_000_000, 30_000_000);
    }
    let mx = div_fx(nvx * dt, 1_000_000);
    let my = div_fx(nvy * dt, 1_000_000);
    let npx = wrap_coord(o.pos.x + mx, hw);
    let npy = wrap_coord(o.pos.y + my, hh);
    let no = Organism {
        pos: Vec2m { x: npx, y: npy },
        vel: Vec2m { x: nvx, y: nvy },
        hunt_target: chosen,
        ..o
    };
    proof {
        assert(acc == pred_desired_spec(i as int, s, hw as int, hh as int));
        assert(pred_moved_rel(
            o,
            no,
            s,
            i as int,
            (dx as int, dy as int),
            dt as int,
            hw as int,
            hh as int,
        ));
    }
    no
}

/// Predator hunting: each predator validates its hunt target (dropping a
/// dead, crowded or distant one), re-targets the least-hunted prey within
/// vision when needed, steers at the target with separation from other
/// predators — falling back to a random wander when nothing accumulates —
/// and integrates its position. Only the target, velocity and position
/// change; prey are read-only here (capture happens in the feeding pass)
/// and the exploration waypoint is untouched.
pub fn predator_hunting_system(w: &mut World, dt: i64)
    requires
        old(w).wf(),
        0 <= dt <= MAX_TICK,
    ensures
        final(w).wf(),
        final(w).organisms@.len() == old(w).organisms@.len(),
        forall|i: int|
            0 <= i < old(w).organisms@.len() ==> pred_out_rel(
                old(w).organisms@[i],
                #[trigger] final(w).organisms@[i],
                old(w).organisms@,
                i,
                dt as int,
                old(w).config.half_w(),
                old(w).config.half_h(),
            ),
        final(w).config == old(w).config,
        final(w).next_id == old(w).next_id,
        final(w).sunlight == old(w).sunlight,
        final(w).stats == old(w).stats,
        final(w).history == old(w).history,
{
    let n = w.organisms.len();
    let hw = w.config.half_width();
    let hh = w.config.half_height();
    let ghost s = w.organisms@;
    let mut out: Vec<Organism> = Vec::new();
    let mut i: usize = 0;
    while i < n
        invariant
            w == old(w),
            w.wf(),
            s == w.organisms@,
            hw == w.config.half_w(),
            hh == w.config.half_h(),
            0 <= dt <= MAX_TICK,
            n == s.len(),
            i <= n,
            out@.len() == i,
            forall|j: int|
                0 <= j < i ==> (#[trigger] out@[j]).wf(&w.config) && out@[j].id == s[j].id
                    && pred_out_rel(s[j], out@[j], s, j, dt as int, hw as int, hh as int),
        decreases n - i,
    {
        let o = w.organisms[i];
        if o.species == Species::Predator {
            let no = move_one_predator(&w.organisms, i, dt, hw, hh, &w.config);
            out.push(no);
        } else {
            out.push(o);
        }
        i = i + 1;
    }
    w.organisms = out;
    proof {
        assert forall|i2: int, j2: int|
            0 <= i2 < j2 < w.organisms@.len() implies w.organisms@[i2].id
            != w.organisms@[j2].id by {
            assert(w.organisms@[i2].id == old(w).organisms@[i2].id);
            assert(w.organisms@[j2].id == old(w).organisms@[j2].id);
        }
    }
}

/// The nearest corpse holding more than 10 energy, by squared wrap-aware
/// distance; the earliest index wins ties.
pub open spec fn nearest_corpse_fold(me: Vec2m, s: Seq<Organism>, k: int, hw: int, hh: int)
    -> Option<(int, int)>
    decreases k,
{
    if k <= 0 {
        None
    } else {
        let rest = nearest_corpse_fold(me, s, k - 1, hw, hh);
        if s[k - 1].species == Species::Corpse && s[k - 1].energy > 10_000 {
            let dir = wrapped_direction_spec(me, s[k - 1].pos, hw, hh);
            let d2 = dir.0 * dir.0 + dir.1 * dir.1;
            match rest {
                None => Some((k - 1, d2)),
                Some((bi, bd)) => if d2 < bd {
                    Some((k - 1, d2))
                } else {
                    Some((bi, bd))
                },
            }
        } else {
            rest
        }
    }
}

/// The corpse a scavenger sees: the nearest eligible one, if it lies
/// within vision range.
pub open spec fn scav_visible(i: int, s: Seq<Organism>, hw: int, hh: int) -> Option<int> {
    let o = s[i];
    match nearest_corpse_fold(o.pos, s, s.len() as int, hw, hh) {
        Some((j, _)) => if wrapped_distance_spec(o.pos, s[j].pos, hw, hh)
            < o.genome.vision_range {
            Some(j)
        } else {
            None
        },
        None => None,
    }
}

/// How a scavenger's waypoint leaves the pass: untouched while a corpse is
/// visible or while the current waypoint is still out of reach; otherwise
/// reassigned to some fresh in-world waypoint with the standard threshold.
pub open spec fn scav_wp_rel(o: Organism, n: Organism, s: Seq<Organism>, i: int, hw: int, hh: int)
    -> bool {
    if scav_visible(i, s, hw, hh) is Some {
        n.waypoint == o.waypoint
    } else {
        match o.waypoint {
            Some(wp) => if wrapped_distance_spec(o.pos, wp.target, hw, hh)
                >= wp.reached_threshold {
                n.waypoint == o.waypoint
            } else {
                fresh_wp_ok(o, n, hw, hh)
            },
            None => fresh_wp_ok(o, n, hw, hh),
        }
    }
}

/// A freshly assigned waypoint: present, in the world, and a drawn hop of
/// 100 to 200 units at a drawn bearing from the organism's position, with
/// the standard arrival threshold.
pub open spec fn fresh_wp_ok(o: Organism, n: Organism, hw: int, hh: int) -> bool {
    &&& n.waypoint is Some
    &&& -hw <= n.waypoint->Some_0.target.x <= hw
    &&& -hh <= n.waypoint->Some_0.target.y <= hh
    &&& waypoint_from(n.waypoint->Some_0, o.pos.x as int, o.pos.y as int, hw, hh)
}

/// The direction a scavenger wants: straight at the visible corpse, else
/// toward its (possibly fresh) waypoint.
pub open spec fn scav_base_spec(
    o: Organism,
    nwp: Option<Waypoint>,
    s: Seq<Organism>,
    i: int,
    hw: int,
    hh: int,
) -> (int, int) {
    match scav_visible(i, s, hw, hh) {
        Some(j) => {
            let dir = wrapped_direction_spec(o.pos, s[j].pos, hw, hh);
            unit_scaled_spec(dir.0, dir.1, 1000)
        },
        None => match nwp {
            Some(wp) => {
                let dir = wrapped_direction_spec(o.pos, wp.target, hw, hh);
                unit_scaled_spec(dir.0, dir.1, 1000)
            },
            None => (0, 0),
        },
    }
}

/// How a scavenger leaves the pass, given the direction it steered by.
pub open spec fn scav_moved_rel(
    o: Organism,
    n: Organism,
    s: Seq<Organism>,
    i: int,
    d: (int, int),
    dt: int,
    hw: int,
    hh: int,
) -> bool {
    let base = scav_base_spec(o, n.waypoint, s, i, hw, hh);
    let ts = div_tz(o.genome.speed * age_speed_multiplier_spec(o.age as int), 1000);
    let tv = unit_scaled_spec(d.0, d.1, ts);
    &&& scav_wp_rel(o, n, s, i, hw, hh)
    &&& ((d == base && length_spec(base.0, base.1) >= 100) || (length_spec(base.0, base.1) < 100
        && -1000 <= d.0 < 1000 && -1000 <= d.1 < 1000))
    &&& n.vel.x == lerp10_spec(o.vel.x as int, tv.0)
    &&& n.vel.y == lerp10_spec(o.vel.y as int, tv.1)
    &&& n.pos.x == integrate_coord_spec(o.pos.x as int, n.vel.x as int, dt, hw)
    &&& n.pos.y == integrate_coord_spec(o.pos.y as int, n.vel.y as int, dt, hh)
    &&& n == (Organism { pos: n.pos, vel: n.vel, waypoint: n.waypoint, ..o })
}

/// How one arena entry leaves the scavenger pass.
pub open spec fn scav_out_rel(
    o: Organism,
    m: Organism,
    s: Seq<Organism>,
    j: int,
    dt: int,
    hw: int,
    hh: int,
) -> bool {
    if o.species == Species::Scavenger {
        exists|d: (int, int)| #[trigger] scav_moved_rel(o, m, s, j, d, dt, hw, hh)
    } else {
        m == o
    }
}

/// Moves one scavenger: seeks the nearest visible corpse, else wanders
/// toward its exploration waypoint, reassigning it on arrival.
#[verifier::rlimit(100)]
fn move_one_scavenger(
    orgs: &Vec<Organism>,
    i: usize,
    dt: i64,
    hw: i64,
    hh: i64,
    cfg: &SimulationConfig,
) -> (no: Organism)
    requires
        cfg.wf(),
        hw == cfg.half_w(),
        hh == cfg.half_h(),
        0 <= dt <= MAX_TICK,
        orgs@.len() <= MAX_ORGANISMS,
        forall|j: int| 0 <= j < orgs@.len() ==> (#[trigger] orgs@[j]).wf(cfg),
        i < orgs@.len(),
        orgs@[i as int].species == Species::Scavenger,
    ensures
        no.wf(cfg),
        no.id == orgs@[i as int].id,
        scav_out_rel(orgs@[i as int], no, orgs@, i as int, dt as int, hw as int, hh as int),
{
    let ghost s = orgs@;
    let o = orgs[i];
    let n = orgs.len();
    let me = o.pos;
    let vision = o.genome.vision_range;
    let mut has_best: bool = false;
    let mut best_j: usize = 0;
    let mut best_d2: i64 = 0;
    let mut j: usize = 0;
    while j < n
        invariant
            cfg.wf(),
            s == orgs@,
            hw == cfg.half_w(),
            hh == cfg.half_h(),
            forall|j2: int| 0 <= j2 < s.len() ==> (#[trigger] s[j2]).wf(cfg),
            n == s.len(),
            i < n,
            j <= n,
            o == s[i as int],
            me == o.pos,
            nearest_corpse_fold(me, s, j as int, hw as int, hh as int) == (if has_best {
                Some((best_j as int, best_d2 as int))
            } else {
                Option::<(int, int)>::None
            }),
            has_best ==> best_j < n,
        decreases n - j,
    {
        let o2 = orgs[j];
        if o2.species == Species::Corpse && o2.energy > 10_000 {
            let dir = wrapped_direction(me, o2.pos, hw, hh);
            proof {
                assert(0 <= (dir.x as int) * dir.x <= 0x4000_0000 * 0x4000_0000 && 0 <= (
                dir.y as int) * dir.y <= 0x4000_0000 * 0x4000_0000) by (nonlinear_arith)
                    requires
                        -0x4000_0000 <= dir.x <= 0x4000_0000,
                        -0x4000_0000 <= dir.y <= 0x4000_0000,
                ;
            }
            let d2 = dir.x * dir.x + dir.y * dir.y;
            if !has_best || d2 < best_d2 {
                has_best = true;
                best_j = j;
                best_d2 = d2;
            }
        }
        j = j + 1;
    }
    let visible: Option<usize> = if has_best {
        if within_range(me, orgs[best_j].pos, vision, hw, hh) {
            Some(best_j)
        } else {
            None
        }
    } else {
        None
    };
    proof {
        assert(match visible {
            Some(v) => scav_visible(i as int, s, hw as int, hh as int) == Some(v as int),
            None => scav_visible(i as int, s, hw as int, hh as int) is None,
        });
    }
    let nwp: Option<Waypoint> = if visible.is_some() {
        o.waypoint
    } else {
        match o.waypoint {
            Some(wp) => {
                if !within_range(me, wp.target, wp.reached_threshold, hw, hh) {
                    Some(wp)
                } else {
                    Some(fresh_waypoint(me.x, me.y, hw, hh))
                }
            },
            None => Some(fresh_waypoint(me.x, me.y, hw, hh)),
        }
    };
    let mut dx: i64;
    let mut dy: i64;
    match visible {
        Some(vj) => {
            let dir = wrapped_direction(me, orgs[vj].pos, hw, hh);
            let u = unit_scaled(dir.x, dir.y, 1000);
            dx = u.0;
            dy = u.1;
        },
        None => {
            match nwp {
                Some(wp) => {
                    let dir = wrapped_direction(me, wp.target, hw, hh);
                    let u = unit_scaled(dir.x, dir.y, 1000);
                    dx = u.0;
                    dy = u.1;
                },
                None => {
                    dx = 0;
                    dy = 0;
                },
            }
        },
    }
    let ghost base = (dx as int, dy as int);
    let dlen = length(dx, dy);
    if dlen < 100 {
        dx = rand_i64_range(-1000, 1000);
        dy = rand_i64_range(-1000, 1000);
    }
    let agem = age_speed_multiplier(o.age);
    proof {
        assert(0 <= (o.genome.speed as int) * agem <= 200_000_000) by (nonlinear_arith)
            requires
                0 <= o.genome.speed <= 200_000,
                0 <= agem <= 1000,
        ;
        lemma_div_tz_bound((o.genome.speed as int) * agem, 1000, 200_000);
    }
    let ts = div_fx(o.genome.speed * agem, 1000);
    let tv = unit_scaled(dx, dy, ts);
    let nvx = lerp10(o.vel.x, tv.0);
    let nvy = lerp10(o.vel.y, tv.1);
    proof {
        assert(-(VEL_MAX as int) * MAX_TICK <= (nvx as int) * dt <= (VEL_MAX as int) * MAX_TICK
            && -(VEL_MAX as int) * MAX_TICK <= (nvy as int) * dt <= (VEL_MAX as int) * MAX_TICK)
            by (nonlinear_arith)
            requires
                -500_000 <= nvx <= 500_000,
                -500_000 <= nvy <= 500_000,
                0 <= dt <= MAX_TICK,
                VEL_MAX == 500_000,
                MAX_TICK == 60_000_000,
        ;
        lemma_div_tz_bound((nvx as int) * dt, 1_000_000, 30_000_000);
        lemma_div_tz_bound((nvy as int) * dt, 1_000_000, 30_000_000);
    }
    let mx = div_fx(nvx * dt, 1_000_000);
    let my = div_fx(nvy * dt, 1_000_000);
    let npx = wrap_coord(o.pos.x + mx, hw);
    let npy = wrap_coord(o.pos.y + my, hh);
    let no = Organism {
        pos: Vec2m { x: npx, y: npy },
        vel: Vec2m { x: nvx, y: nvy },
        waypoint: nwp,
        ..o
    };
    proof {
        assert(scav_wp_rel(o, no, s, i as int, hw as int, hh as int));
        assert(base == scav_base_spec(o, no.waypoint, s, i as int, hw as int, hh as int));
        assert(scav_moved_rel(
            o,
            no,
            s,
            i as int,
            (dx as int, dy as int),
            dt as int,
            hw as int,
            hh as int,
        ));
    }
    no
}

/// Scavenger movement: each scavenger steers at the nearest corpse it can
/// see, or wanders toward an exploration waypoint, reassigned on arrival
/// to a random point 100 to 200 units away; velocity smoothing, the age
/// multiplier and position integration follow the shared movement rules.
pub fn scavenger_movement_system(w: &mut World, dt: i64)
    requires
        old(w).wf(),
        0 <= dt <= MAX_TICK,
    ensures
        final(w).wf(),
        final(w).organisms@.len() == old(w).organisms@.len(),
        forall|i: int|
            0 <= i < old(w).organisms@.len() ==> scav_out_rel(
                old(w).organisms@[i],
                #[trigger] final(w).organisms@[i],
                old(w).organisms@,
                i,
                dt as int,
                old(w).config.half_w(),
                old(w).config.half_h(),
            ),
        final(w).config == old(w).config,
        final(w).next_id == old(w).next_id,
        final(w).sunlight == old(w).sunlight,
        final(w).stats == old(w).stats,
        final(w).history == old(w).history,
{
    let n = w.organisms.len();
    let hw = w.config.half_width();
    let hh = w.config.half_height();
    let ghost s = w.organisms@;
    let mut out: Vec<Organism> = Vec::new();
    let mut i: usize = 0;
    while i < n
        invariant
            w == old(w),
            w.wf(),
            s == w.organisms@,
            hw == w.config.half_w(),
            hh == w.config.half_h(),
            0 <= dt <= MAX_TICK,
            n == s.len(),
            i <= n,
            out@.len() == i,
            forall|j: int|
                0 <= j < i ==> (#[trigger] out@[j]).wf(&w.config) && out@[j].id == s[j].id
                    && scav_out_rel(s[j], out@[j], s, j, dt as int, hw as int, hh as int),
        decreases n - i,
    {
        let o = w.organisms[i];
        if o.species == Species::Scavenger {
            let no = move_one_scavenger(&w.organisms, i, dt, hw, hh, &w.config);
            out.push(no);
        } else {
            out.push(o);
        }
        i = i + 1;
    }
    w.organisms = out;
    proof {
        assert forall|i2: int, j2: int|
            0 <= i2 < j2 < w.organisms@.len() implies w.organisms@[i2].id
            != w.organisms@[j2].id by {
            assert(w.organisms@[i2].id == old(w).organisms@[i2].id);
            assert(w.organisms@[j2].id == old(w).organisms@[j2].id);
        }
    }
}

} // verus!
