//! The firefight from step to step: bursts, shots and their victims, noise, grenades, and
//! everything that explodes.
use vstd::prelude::*;

use crate::combat::{Camp, HitReport, HitZone, Spark};
use crate::explosives::{
    armed_in, blast_puffs, booms, cascade, chain_reaction, mines_left, mines_step, mines_tripped,
    mines_where, placed_in, puff_draws, set_off, step_projectiles, still_flying, take_remote_mines,
    Detonation, Explosion, Mine, MineCues, MineSweep, MineTrigger, Projectile, Sweep,
};
use crate::hunter::{AiMode, FireStep, FireTiming, Hunter, Target, WeaponClass, ENEMY_MUZZLE_TIME};
use crate::props::{RayHit, ShotEffect};
use crate::rng::{draw_units, drawn, rand_below, shifted, shifted_by, units};
use crate::settings::Settings;
use crate::space::Point;
use crate::ticks::{advance, count_down, later, left};
use crate::world::{Mode, World};

verus! {

/// Half the width of the torso that a round must pass through.
pub const PD_TORSO_RADIUS: u32 = 350;

/// How far a gunshot is heard.
pub const GUNSHOT_HEARING_RANGE: u32 = 25_000;

/// Below this speed footsteps make no noise.
pub const MOVE_NOISE_MIN_SPEED: u32 = 2500;

/// The speed at which footsteps are loudest.
pub const PLAYER_RUN_SPEED: u32 = 6400;

/// How far from where it settled the player still counts as camping.
pub const CAMP_RADIUS: u32 = 2500;

/// How far a hunter throws a grenade.
pub const GRENADE_THROW_RANGE: u32 = 16_000;

/// No grenade is thrown with a hunter this close to where it would land, now or then.
pub const GRENADE_SAFE_DIST: u32 = 6500;

/// How long a lobbed grenade stays in the air at most.
pub const GRENADE_FUSE: u32 = 3600;

/// The time between two grenades.
pub const GRENADE_COOLDOWN: u32 = 4800;

/// How high above the feet a hunter's centre is.
pub const ENEMY_CENTER_Y: u32 = 700;

/// How high above the feet the player's centre is.
pub const PLAYER_CENTER_Y: u32 = 900;

// ---- Bursts ----

/// The hunter with a fading muzzle flash.
pub open spec fn flash_settled(h: Hunter, dt: u32) -> Hunter {
    Hunter { muzzle_timer: left(h.muzzle_timer, dt), ..h }
}

/// The hunters among the first `n` whose trigger lets a round go.
pub open spec fn triggered(hs: Seq<Hunter>, dt: u32, mode: AiMode, n: nat) -> Seq<usize>
    decreases n,
{
    if n == 0 {
        Seq::empty()
    } else {
        let rest = triggered(hs, dt, mode, (n - 1) as nat);
        if hs[n - 1].trigger_due(dt) && hs[n - 1].has_round(mode) {
            rest.push((n - 1) as usize)
        } else {
            rest
        }
    }
}

/// Whether a burst of `h` ends now and left the body standing sideways.
pub open spec fn ends_sideways(h: Hunter, dt: u32) -> bool {
    h.fire_elapsed matches Some(t) && h.fire.over(later(t, dt)) && h.fire.angle_offset != 0
}

/// The hunters among the first `n` that have to be turned square again.
pub open spec fn sideways(hs: Seq<Hunter>, dt: u32, n: nat) -> Seq<usize>
    decreases n,
{
    if n == 0 {
        Seq::empty()
    } else {
        let rest = sideways(hs, dt, (n - 1) as nat);
        if ends_sideways(hs[n - 1], dt) {
            rest.push((n - 1) as usize)
        } else {
            rest
        }
    }
}

/// What a step of the hunters' fire asks for.
pub struct FireOrders {
    /// The hunters that shoot, in order.
    pub shots: Vec<usize>,
    /// The hunters that go back to their forward attack animation.
    pub ended_sideways: Vec<usize>,
}

impl World {
    /// Runs the hunters' bursts and the fading of flashes for a time `dt`. While the player is
    /// dead nobody shoots.
    pub fn enemy_combat_step(&mut self, dt: u32) -> (o: FireOrders)
        ensures
            old(self).mode != Mode::Hunt ==> *final(self) == *old(self) && o.shots@.len() == 0
                && o.ended_sideways@.len() == 0,
            old(self).mode == Mode::Hunt ==> {
                &&& final(self).player == old(self).player.settled(dt)
                &&& final(self).hunters@ == old(self).hunters@.map_values(
                    |h: Hunter|
                        if old(self).player.dead {
                            flash_settled(h, dt)
                        } else {
                            flash_settled(h, dt).fire_stepped(dt, old(self).settings.ai_mode)
                        },
                )
                &&& o.shots@ == if old(self).player.dead {
                    Seq::empty()
                } else {
                    triggered(
                        old(self).hunters@,
                        dt,
                        old(self).settings.ai_mode,
                        old(self).hunters@.len(),
                    )
                }
                &&& o.ended_sideways@ == if old(self).player.dead {
                    Seq::empty()
                } else {
                    sideways(old(self).hunters@, dt, old(self).hunters@.len())
                }
                &&& *final(self) == (World {
                    player: final(self).player,
                    hunters: final(self).hunters,
                    ..*old(self)
                })
            },
    {
        let mut shots: Vec<usize> = Vec::new();
        let mut ended_sideways: Vec<usize> = Vec::new();
        if self.mode != Mode::Hunt {
            return FireOrders { shots, ended_sideways };
        }
        self.player.settle(dt);
        let frozen: bool = self.player.dead;
        let mode: AiMode = self.settings.ai_mode;
        let ghost was = self.hunters@;
        let mut k: usize = 0;
        while k < self.hunters.len()
            invariant
                k <= self.hunters@.len(),
                self.hunters@.len() == was.len(),
                was == old(self).hunters@,
                frozen == old(self).player.dead,
                mode == old(self).settings.ai_mode,
                self.player == old(self).player.settled(dt),
                *self == (World { player: self.player, hunters: self.hunters, ..*old(self) }),
                forall|j: int|
                    0 <= j < k ==> #[trigger] self.hunters@[j] == if frozen {
                        flash_settled(was[j], dt)
                    } else {
                        flash_settled(was[j], dt).fire_stepped(dt, mode)
                    },
                forall|j: int| k <= j < was.len() ==> #[trigger] self.hunters@[j] == was[j],
                shots@ == if frozen {
                    Seq::empty()
                } else {
                    triggered(was, dt, mode, k as nat)
                },
                ended_sideways@ == if frozen {
                    Seq::empty()
                } else {
                    sideways(was, dt, k as nat)
                },
            decreases self.hunters@.len() - k,
        {
            let mut h: Hunter = self.hunters[k];
            h.muzzle_timer = count_down(h.muzzle_timer, dt);
            if !frozen {
                let s: FireStep = h.fire_step(dt, mode);
                if s.shot {
                    shots.push(k);
                }
                if s.ended_sideways {
                    ended_sideways.push(k);
                }
            }
            self.hunters.set(k, h);
            k = k + 1;
        }
        assert(self.hunters@ =~= old(self).hunters@.map_values(
            |h: Hunter|
                if old(self).player.dead {
                    flash_settled(h, dt)
                } else {
                    flash_settled(h, dt).fire_stepped(dt, old(self).settings.ai_mode)
                },
        ));
        FireOrders { shots, ended_sideways }
    }

    /// Runs Perfect Dark's reload rule for a time `dt`; `seen` tells for each hunter whether
    /// it sees its target. The other model has no magazines.
    pub fn enemy_reload_step(&mut self, dt: u32, seen: &Vec<bool>)
        requires
            seen@.len() == old(self).hunters@.len(),
        ensures
            old(self).settings.ai_mode != AiMode::Pd ==> *final(self) == *old(self),
            old(self).settings.ai_mode == AiMode::Pd ==> final(self).hunters@ == Seq::new(
                old(self).hunters@.len(),
                |i: int| old(self).hunters@[i].reload_stepped(dt, seen@[i]),
            ),
            *final(self) == (World { hunters: final(self).hunters, ..*old(self) }),
    {
        if self.settings.ai_mode != AiMode::Pd {
            return ;
        }
        let mut k: usize = 0;
        while k < self.hunters.len()
            invariant
                k <= self.hunters@.len(),
                self.hunters@.len() == old(self).hunters@.len(),
                seen@.len() == self.hunters@.len(),
                *self == (World { hunters: self.hunters, ..*old(self) }),
                forall|j: int|
                    0 <= j < k ==> #[trigger] self.hunters@[j] == old(
                        self).hunters@[j].reload_stepped(dt, seen@[j]),
                forall|j: int|
                    k <= j < self.hunters@.len() ==> #[trigger] self.hunters@[j] == old(self).hunters@[j],
            decreases self.hunters@.len() - k,
        {
            let mut h: Hunter = self.hunters[k];
            h.reload_step(dt, seen[k]);
            self.hunters.set(k, h);
            k = k + 1;
        }
        assert(self.hunters@ =~= Seq::new(
            old(self).hunters@.len(),
            |i: int| old(self).hunters@[i].reload_stepped(dt, seen@[i]),
        ));
    }

    /// Starts a burst of hunter `i`, on the attack animation that was chosen for it.
    pub fn start_enemy_fire(&mut self, i: usize, row: Option<FireTiming>)
        ensures
            i >= old(self).hunters@.len() ==> *final(self) == *old(self),
            i < old(self).hunters@.len() ==> {
                let h = old(self).hunters@[i as int];
                let fire = match row {
                    Some(f) => f,
                    None => h.fire,
                };
                final(self).hunters@ == old(self).hunters@.update(
                    i as int,
                    Hunter { fire, fire_elapsed: Some(fire.start), shot_timer: 0, ..h },
                )
            },
            *final(self) == (World { hunters: final(self).hunters, ..*old(self) }),
    {
        if i < self.hunters.len() {
            let mut h: Hunter = self.hunters[i];
            h.start_fire(row);
            self.hunters.set(i, h);
        }
    }

    /// Cancels the burst of hunter `i`.
    pub fn stop_enemy_fire(&mut self, i: usize)
        ensures
            i >= old(self).hunters@.len() ==> *final(self) == *old(self),
            i < old(self).hunters@.len() ==> final(self).hunters@ == old(self).hunters@.update(
                i as int,
                old(self).hunters@[i as int].ceased(),
            ),
            *final(self) == (World { hunters: final(self).hunters, ..*old(self) }),
    {
        if i < self.hunters.len() {
            let mut h: Hunter = self.hunters[i];
            h.stop_fire();
            self.hunters.set(i, h);
        }
    }

    /// Puts hunter `i` on an attack animation. Without its clip or the measurement of how it
    /// holds the gun the animation is refused outright.
    pub fn install_fire_row(&mut self, i: usize, row: FireTiming, clip: bool, measured: bool) -> (
        done: bool)
        ensures
            done == (i < old(self).hunters@.len() && clip && measured),
            done ==> final(self).hunters@ == old(self).hunters@.update(
                i as int,
                Hunter { fire: row, ..old(self).hunters@[i as int] },
            ),
            !done ==> *final(self) == *old(self),
            *final(self) == (World { hunters: final(self).hunters, ..*old(self) }),
    {
        if i < self.hunters.len() && clip && measured {
            let mut h: Hunter = self.hunters[i];
            h.fire = row;
            self.hunters.set(i, h);
            true
        } else {
            false
        }
    }

    // ---- Shots ----

    /// Whom hunter `i` is up against: the one its aim model picked while that one lives, the
    /// player otherwise.
    pub open spec fn engaged_at(self, i: int) -> Option<Point> {
        if 0 <= i < self.hunters@.len() {
            match self.hunters@[i].target {
                Some(Target::Hunter(j)) => if self.lives(j as int) {
                    Some(self.hunters@[j as int].pos)
                } else {
                    self.player.pos
                },
                _ => self.player.pos,
            }
        } else {
            self.player.pos
        }
    }

    pub fn engage_target_pos(&self, i: usize) -> (p: Option<Point>)
        ensures
            p == self.engaged_at(i as int),
    {
        if i < self.hunters.len() {
            match self.hunters[i].target {
                Some(Target::Hunter(j)) => {
                    if j < self.hunters.len() && !self.hunters[j].dead {
                        return Some(self.hunters[j].pos);
                    }
                },
                _ => {},
            }
        }
        self.player.pos
    }

    /// The bearing by which hunter `i` picks its attack animation, as an offset on the floor
    /// plan, and the roll among the animations for it. There is none without authored
    /// animations, without a target, and on top of it.
    pub fn pd_fire_row(&mut self, i: usize) -> (b: Option<(i64, i64, usize)>)
        ensures
            b is Some <==> i < old(self).hunters@.len() && old(self).hunters@[i as int].pd_anims
                && (old(self).engaged_at(i as int) matches Some(t) && (t.x != old(
                self).hunters@[i as int].pos.x || t.z != old(self).hunters@[i as int].pos.z)),
            b matches Some((dx, dz, roll)) ==> {
                &&& dx == old(self).engaged_at(i as int)->0.x - old(self).hunters@[i as int].pos.x
                &&& dz == old(self).engaged_at(i as int)->0.z - old(self).hunters@[i as int].pos.z
                &&& roll == drawn(old(self).char_rng, 65536)
                &&& *final(self) == (World {
                    char_rng: shifted(old(self).char_rng),
                    ..*old(self)
                })
            },
            b is None ==> *final(self) == *old(self),
    {
        if i >= self.hunters.len() || !self.hunters[i].pd_anims {
            return None;
        }
        let from: Point = self.hunters[i].pos;
        let to: Point = match self.engage_target_pos(i) {
            Some(p) => p,
            None => return None,
        };
        let dx: i64 = to.x as i64 - from.x as i64;
        let dz: i64 = to.z as i64 - from.z as i64;
        if dx == 0 && dz == 0 {
            return None;
        }
        let roll: usize = rand_below(&mut self.char_rng, 65536);
        Some((dx, dz, roll))
    }

    /// A round leaves the barrel of hunter `i`: the muzzle flashes. The result tells whether
    /// the arm kicks, which only a pistol's does and only in its window; there is none when
    /// the hunter is dead or nobody is there to be shot at.
    pub fn emit_enemy_shot(&mut self, i: usize) -> (kick: Option<bool>)
        ensures
            kick is Some <==> old(self).lives(i as int) && old(self).player.pos is Some,
            kick matches Some(k) ==> {
                let h = old(self).hunters@[i as int];
                &&& k == (h.weapon.class == WeaponClass::Pistol && match h.fire_elapsed {
                    Some(t) => h.fire.recoiling(t),
                    None => true,
                })
                &&& final(self).hunters@ == old(self).hunters@.update(
                    i as int,
                    Hunter { muzzle_timer: ENEMY_MUZZLE_TIME, ..h },
                )
            },
            kick is None ==> *final(self) == *old(self),
            *final(self) == (World { hunters: final(self).hunters, ..*old(self) }),
    {
        if i >= self.hunters.len() || self.hunters[i].dead || self.player.pos.is_none() {
            return None;
        }
        let mut h: Hunter = self.hunters[i];
        h.muzzle_timer = ENEMY_MUZZLE_TIME;
        let window: bool = match h.fire_elapsed {
            Some(t) => h.fire.recoil_from <= t && t <= h.fire.recoil_to,
            None => true,
        };
        let kick: bool = h.weapon.class == WeaponClass::Pistol && window;
        self.hunters.set(i, h);
        Some(kick)
    }
}

/// What a round of a hunter is aimed by.
pub struct ShotAim {
    /// Whom the barrel is raised or lowered to.
    pub at: Point,
    /// The fractions that the scatter of the round is made of.
    pub scatter: Vec<u32>,
}

/// How many fractions the scatter of a round takes.
pub const SCATTER_DRAWS: usize = 4;

impl World {
    /// Whose chest hunter `i` means to hit: the one that its aim model picked, dead or alive, and
    /// the player otherwise.
    pub open spec fn meant(self, i: int) -> Option<Point> {
        match (self.hunters@[i].target, self.player.pos) {
            (_, None) => None,
            (Some(Target::Hunter(j)), Some(p)) => if j < self.hunters@.len() {
                Some(self.hunters@[j as int].pos)
            } else {
                Some(p)
            },
            (_, Some(p)) => Some(p),
        }
    }

    /// Aims a round of hunter `i`. There is nothing to aim without its aim model, and with
    /// nobody there to be shot at.
    pub fn aim_shot(&mut self, i: usize) -> (a: Option<ShotAim>)
        ensures
            a is Some <==> i < old(self).hunters@.len() && old(self).hunters@[i as int].simulant
                && old(self).player.pos is Some,
            a matches Some(s) ==> {
                &&& old(self).meant(i as int) == Some(s.at)
                &&& s.scatter@ == units(old(self).char_rng, SCATTER_DRAWS as nat)
                &&& *final(self) == (World {
                    char_rng: shifted_by(old(self).char_rng, SCATTER_DRAWS as nat),
                    ..*old(self)
                })
            },
            a is None ==> *final(self) == *old(self),
    {
        if i >= self.hunters.len() || !self.hunters[i].simulant {
            return None;
        }
        let player: Point = match self.player.pos {
            Some(p) => p,
            None => return None,
        };
        let at: Point = match self.hunters[i].target {
            Some(Target::Hunter(j)) => if j < self.hunters.len() {
                self.hunters[j].pos
            } else {
                player
            },
            _ => player,
        };
        let scatter: Vec<u32> = draw_units(&mut self.char_rng, SCATTER_DRAWS);
        Some(ShotAim { at, scatter })
    }
}

/// How a shot passes a body: the closest it comes to the torso, and how far along the line.
#[derive(Clone, Copy, PartialEq, Eq, Debug, Structural)]
pub struct ShotLine {
    pub miss: u32,
    pub along: i32,
}

impl ShotLine {
    /// Whether the line goes through the torso, in front of the barrel.
    pub open spec fn strikes(self) -> bool {
        self.along > 0 && self.miss <= PD_TORSO_RADIUS
    }

    fn hits(&self) -> (b: bool)
        ensures
            b == self.strikes(),
    {
        self.along > 0 && self.miss <= PD_TORSO_RADIUS
    }
}

impl World {
    /// Whether hunter `j` stands in the line of hunter `shooter`.
    pub open spec fn in_line(self, shooter: int, lines: Seq<ShotLine>, j: int) -> bool {
        j != shooter && self.lives(j) && lines[j].strikes()
    }

    /// Whether a round of hunter `shooter` strikes `victim`: of everyone in the line the one
    /// closest to the barrel, the player before a hunter at the same distance.
    pub open spec fn is_victim(
        self,
        shooter: int,
        player: ShotLine,
        lines: Seq<ShotLine>,
        victim: Target,
    ) -> bool {
        match victim {
            Target::Player => player.strikes() && forall|j: int|
                #[trigger] self.in_line(shooter, lines, j) ==> player.along <= lines[j].along,
            Target::Hunter(v) => {
                &&& self.in_line(shooter, lines, v as int)
                &&& player.strikes() ==> lines[v as int].along < player.along
                &&& forall|j: int|
                    #[trigger] self.in_line(shooter, lines, j) ==> lines[v as int].along
                        <= lines[j].along && (j < v ==> lines[v as int].along < lines[j].along)
            },
        }
    }

    /// Who is struck by a round of hunter `shooter`, given how its line passes the player and
    /// each hunter. There is no chance in it: the round lands on whoever the barrel points at.
    pub fn emit_pd_shot(&self, shooter: usize, player: ShotLine, lines: &Vec<ShotLine>) -> (victim:
        Option<Target>)
        requires
            lines@.len() == self.hunters@.len(),
        ensures
            victim matches Some(v) ==> shooter < self.hunters@.len()
                && self.hunters@[shooter as int].simulant && self.is_victim(
                shooter as int,
                player,
                lines@,
                v,
            ),
            victim is None ==> shooter >= self.hunters@.len()
                || !self.hunters@[shooter as int].simulant || (!player.strikes() && forall|j: int|
                !#[trigger] self.in_line(shooter as int, lines@, j)),
    {
        if shooter >= self.hunters.len() || !self.hunters[shooter].simulant {
            return None;
        }
        let mut best: Option<usize> = None;
        let mut near: i32 = 0;
        let mut k: usize = 0;
        while k < self.hunters.len()
            invariant
                k <= self.hunters@.len(),
                lines@.len() == self.hunters@.len(),
                match best {
                    Some(b) => {
                        &&& b < k
                        &&& self.in_line(shooter as int, lines@, b as int)
                        &&& near == lines@[b as int].along
                        &&& forall|j: int|
                            j < k && #[trigger] self.in_line(shooter as int, lines@, j) ==> near
                                <= lines@[j].along && (j < b ==> near < lines@[j].along)
                    },
                    None => forall|j: int|
                        j < k ==> !#[trigger] self.in_line(shooter as int, lines@, j),
                },
            decreases self.hunters@.len() - k,
        {
            if k != shooter && !self.hunters[k].dead && lines[k].hits() {
                assert(self.in_line(shooter as int, lines@, k as int));
                if best.is_none() || lines[k].along < near {
                    best = Some(k);
                    near = lines[k].along;
                }
            }
            k = k + 1;
        }
        match best {
            Some(b) => if player.hits() && player.along <= near {
                Some(Target::Player)
            } else {
                Some(Target::Hunter(b))
            },
            None => if player.hits() {
                Some(Target::Player)
            } else {
                None
            },
        }
    }

    /// What landing a round on `victim` does. A hunter is struck in the chest; one that does not
    /// live is not struck.
    pub open spec fn is_landed(
        before: World,
        victim: Target,
        damage: u32,
        part: Option<usize>,
        after: World,
        r: Option<HitReport>,
    ) -> bool {
        match victim {
            Target::Player => r is None && after == (World {
                player: before.player.hurt(damage),
                ..before
            }),
            Target::Hunter(j) => {
                &&& r is Some <==> before.lives(j as int)
                &&& r is None ==> after == before
                &&& r matches Some(rep) ==> {
                    let h = Hunter { hit_part: part, ..before.hunters@[j as int] };
                    let out = before.hit_outcome(before.char_rng, h, HitZone::Torso, damage, false);
                    &&& rep == out.0
                    &&& after.hunters@ == before.hunters@.update(j as int, out.1)
                    &&& after.char_rng == out.2
                    &&& after.arms == if rep.died {
                        (crate::arms::Armory {
                            credits: later(before.arms.credits, before.arms.bounty),
                            ..before.arms
                        })
                    } else {
                        before.arms
                    }
                    &&& after == (World {
                        hunters: after.hunters,
                        char_rng: after.char_rng,
                        arms: after.arms,
                        ..before
                    })
                }
            },
        }
    }

    /// Settles a round that is on its way to `victim`: stopped by the level it hurts nobody,
    /// with the way clear it lands.
    pub fn resolve_shot(&mut self, victim: Target, clear: bool, damage: u32, part: Option<usize>)
        -> (r: Option<HitReport>)
        ensures
            !clear ==> r is None && *final(self) == *old(self),
            clear ==> World::is_landed(*old(self), victim, damage, part, *final(self), r),
    {
        if clear {
            self.land_shot(victim, damage, part)
        } else {
            None
        }
    }

    /// Lands a round on its victim.
    pub fn land_shot(&mut self, victim: Target, damage: u32, part: Option<usize>) -> (r: Option<
        HitReport,
    >)
        ensures
            World::is_landed(*old(self), victim, damage, part, *final(self), r),
    {
        match victim {
            Target::Player => {
                self.take_player_damage(damage);
                None
            },
            Target::Hunter(j) => {
                if j >= self.hunters.len() || self.hunters[j].dead {
                    return None;
                }
                let tall: i64 = self.bodies.body_height(self.hunters[j].body) as i64;
                let chest: i64 = (tall * 55 + 99) / 100;
                proof {
                    crate::combat::heads_hurt_more_than_legs(damage);
                    lemma_chest_is_torso(tall as int, chest as int);
                }
                self.hit_enemy_with(j, chest, damage, part)
            },
        }
    }
}

proof fn lemma_chest_is_torso(tall: int, chest: int)
    requires
        100 < tall <= u32::MAX,
        chest == (tall * 55 + 99) / 100,
    ensures
        550 * tall <= chest * 1500 < 1100 * tall,
{
    assert(tall * 55 <= chest * 100 <= tall * 55 + 99);
}

// ---- Noise ----

/// The hunters among the first `n` that live and stand within `range` of `at`.
pub open spec fn hearers(hs: Seq<Hunter>, at: Point, range: int, n: nat) -> Seq<usize>
    decreases n,
{
    if n == 0 {
        Seq::empty()
    } else {
        let rest = hearers(hs, at, range, (n - 1) as nat);
        if !hs[n - 1].dead && hs[n - 1].pos.within_of(at, range) {
            rest.push((n - 1) as usize)
        } else {
            rest
        }
    }
}

/// Whether footsteps at `speed` carry from `at` to `pos`: ten metres at a full run and the
/// top of the dial, less in proportion to both.
pub open spec fn footsteps_reach(pos: Point, at: Point, speed: u32, difficulty: u32) -> bool {
    let loud = if speed < PLAYER_RUN_SPEED {
        speed
    } else {
        PLAYER_RUN_SPEED
    };
    let reach = 1000 * difficulty * loud;
    reach > 0 && pos.dist2_to(at) * (PLAYER_RUN_SPEED * PLAYER_RUN_SPEED) <= reach * reach
}

/// The hunters among the first `n` that hear footsteps.
pub open spec fn stirred(hs: Seq<Hunter>, at: Point, speed: u32, difficulty: u32, n: nat) -> Seq<
    usize,
>
    decreases n,
{
    if n == 0 {
        Seq::empty()
    } else {
        let rest = stirred(hs, at, speed, difficulty, (n - 1) as nat);
        if !hs[n - 1].dead && footsteps_reach(hs[n - 1].pos, at, speed, difficulty) {
            rest.push((n - 1) as usize)
        } else {
            rest
        }
    }
}

/// The hunters that hear a player at `at` move at `speed`: sneaking is silent.
pub open spec fn movement_heard(
    hs: Seq<Hunter>,
    at: Option<Point>,
    speed: u32,
    difficulty: u32,
) -> Seq<usize> {
    match at {
        Some(p) => if speed < MOVE_NOISE_MIN_SPEED {
            Seq::empty()
        } else {
            stirred(hs, p, speed, difficulty, hs.len())
        },
        None => Seq::empty(),
    }
}

impl World {
    /// The hunters that hear the player's gun.
    pub fn alert_enemies_to_noise(&self) -> (who: Vec<usize>)
        ensures
            who@ == self.shot_heard(),
    {
        let mut who: Vec<usize> = Vec::new();
        if let Some(p) = self.player.pos {
            let mut k: usize = 0;
            while k < self.hunters.len()
                invariant
                    k <= self.hunters@.len(),
                    who@ == hearers(self.hunters@, p, GUNSHOT_HEARING_RANGE as int, k as nat),
                decreases self.hunters@.len() - k,
            {
                let h: Hunter = self.hunters[k];
                if !h.dead && h.pos.within(&p, GUNSHOT_HEARING_RANGE) {
                    who.push(k);
                }
                k = k + 1;
            }
        }
        who
    }

    /// The hunters that hear the player's footsteps at `speed`. Sneaking is silent, and at the
    /// bottom of the dial nobody hears anything.
    pub fn alert_enemies_to_movement(&self, speed: u32) -> (who: Vec<usize>)
        requires
            self.settings.wf(),
        ensures
            who@ == movement_heard(
                self.hunters@,
                self.player.pos,
                speed,
                self.settings.difficulty,
            ),
    {
        let mut who: Vec<usize> = Vec::new();
        if speed < MOVE_NOISE_MIN_SPEED {
            return who;
        }
        if let Some(p) = self.player.pos {
            let loud: u32 = if speed < PLAYER_RUN_SPEED {
                speed
            } else {
                PLAYER_RUN_SPEED
            };
            let difficulty: u32 = self.settings.difficulty;
            assert(0 <= 1000 * difficulty * loud <= 64_000_000) by (nonlinear_arith)
                requires
                    0 <= difficulty <= 10,
                    0 <= loud <= 6400,
            ;
            let reach: u128 = 1000 * (difficulty as u128) * (loud as u128);
            assert(0 <= reach * reach <= 64_000_000 * 64_000_000) by (nonlinear_arith)
                requires
                    0 <= reach <= 64_000_000,
            ;
            let most: u128 = reach * reach;
            let mut k: usize = 0;
            while k < self.hunters.len()
                invariant
                    k <= self.hunters@.len(),
                    difficulty == self.settings.difficulty,
                    difficulty <= 10,
                    loud == if speed < PLAYER_RUN_SPEED {
                        speed
                    } else {
                        PLAYER_RUN_SPEED
                    },
                    reach == 1000 * difficulty * loud,
                    most == reach * reach,
                    who@ == stirred(self.hunters@, p, speed, difficulty, k as nat),
                decreases self.hunters@.len() - k,
            {
                let h: Hunter = self.hunters[k];
                let d: u128 = h.pos.dist2(&p);
                let far: bool = d > 100_000_000;
                if !h.dead && reach > 0 && !far && d * 40_960_000 <= most {
                    who.push(k);
                }
                proof {
                    assert(PLAYER_RUN_SPEED * PLAYER_RUN_SPEED == 40_960_000) by (nonlinear_arith);
                    assert(0 <= reach <= 64_000_000) by (nonlinear_arith)
                        requires
                            reach == 1000 * difficulty * loud,
                            0 <= difficulty <= 10,
                            0 <= loud <= 6400,
                    ;
                    assert(reach * reach <= 64_000_000 * 64_000_000) by (nonlinear_arith)
                        requires
                            0 <= reach <= 64_000_000,
                    ;
                    if far {
                        assert(d * 40_960_000 > 100_000_000 * 40_960_000);
                    }
                }
                k = k + 1;
            }
        }
        who
    }
}

/// At the bottom of the dial footsteps carry nowhere.
pub proof fn novices_are_deaf_to_footsteps(pos: Point, at: Point, speed: u32)
    ensures
        !footsteps_reach(pos, at, speed, 0),
{
    let loud = if speed < PLAYER_RUN_SPEED {
        speed
    } else {
        PLAYER_RUN_SPEED
    };
    assert(1000 * 0 * loud == 0) by (nonlinear_arith);
}

// ---- Grenades ----

/// How long the player may stay in one place before a grenade comes: five seconds at the
/// bottom of the dial, two at the top.
pub open spec fn dwell(difficulty: u32) -> int {
    6000 - 360 * difficulty
}

/// Whether a hunter is too close to `anchor` for a grenade, now or when it lands: one is in the
/// air for about a second.
pub open spec fn endangered(h: Hunter, anchor: Point) -> bool {
    h.pos.dist2_to(anchor) < GRENADE_SAFE_DIST * GRENADE_SAFE_DIST || h.pos.dist2_after(
        h.vel,
        anchor,
    ) < GRENADE_SAFE_DIST * GRENADE_SAFE_DIST
}

/// Whether a grenade at `anchor` would endanger a living hunter.
pub open spec fn someone_close(hs: Seq<Hunter>, anchor: Point) -> bool {
    exists|k: int| 0 <= k < hs.len() && !(#[trigger] hs[k]).dead && endangered(hs[k], anchor)
}

/// Whether a hunter can throw a grenade at `anchor`.
pub open spec fn can_throw(h: Hunter, anchor: Point) -> bool {
    !h.dead && h.engaged && h.pos.within_of(anchor, GRENADE_THROW_RANGE as int)
}

/// Whether hunter `i` is the one to throw: the closest that can, the first if several are.
pub open spec fn is_thrower(hs: Seq<Hunter>, anchor: Point, i: int) -> bool {
    &&& 0 <= i < hs.len()
    &&& can_throw(hs[i], anchor)
    &&& forall|k: int|
        0 <= k < hs.len() && can_throw(#[trigger] hs[k], anchor) ==> hs[i].pos.dist2_to(anchor)
            <= hs[k].pos.dist2_to(anchor) && (k < i ==> hs[i].pos.dist2_to(anchor)
            < hs[k].pos.dist2_to(anchor))
}

/// Where a player at `at` camps after a time `dt`.
pub open spec fn camped(camp: Camp, dt: u32, at: Point) -> Camp {
    let c = Camp { cooldown: left(camp.cooldown, dt), ..camp };
    if c.anchor matches Some(a) && a.within_of(at, CAMP_RADIUS as int) {
        Camp { timer: later(c.timer, dt), ..c }
    } else {
        Camp { anchor: Some(at), timer: 0, ..c }
    }
}

/// What a time `dt` does to the watch on a player's camping, and who throws a grenade at the
/// camp. None is thrown at the bottom of the dial, with grenades switched off, or where it would
/// catch one of the pack.
pub open spec fn is_flushed(
    camp: Camp,
    settings: Settings,
    at: Option<Point>,
    hs: Seq<Hunter>,
    dt: u32,
    after: Camp,
    thrower: Option<usize>,
) -> bool {
    if !settings.grenades || settings.difficulty == 0 {
        thrower is None && after == (Camp {
            anchor: None,
            timer: 0,
            cooldown: left(camp.cooldown, dt),
        })
    } else {
        match at {
            None => thrower is None && after == (Camp {
                cooldown: left(camp.cooldown, dt),
                ..camp
            }),
            Some(p) => {
                let c = camped(camp, dt, p);
                let anchor = c.anchor->0;
                let due = c.timer >= dwell(settings.difficulty) && c.cooldown == 0
                    && !someone_close(hs, anchor);
                match thrower {
                    Some(i) => due && is_thrower(hs, anchor, i as int) && after == (Camp {
                        cooldown: GRENADE_COOLDOWN,
                        timer: 0,
                        ..c
                    }),
                    None => after == c && (due ==> forall|k: int|
                        0 <= k < hs.len() ==> !can_throw(#[trigger] hs[k], anchor)),
                }
            },
        }
    }
}

impl World {
    /// Watches the player's camping for a time `dt`; the result is the hunter that throws a
    /// grenade at the camp. None is thrown at the bottom of the dial, with grenades switched
    /// off, or where it would catch one of the pack.
    pub fn grenade_flush_step(&mut self, dt: u32) -> (thrower: Option<usize>)
        requires
            old(self).settings.wf(),
        ensures
            is_flushed(
                old(self).camp,
                old(self).settings,
                old(self).player.pos,
                old(self).hunters@,
                dt,
                final(self).camp,
                thrower,
            ),
            *final(self) == (World { camp: final(self).camp, ..*old(self) }),
    {
        self.camp.cooldown = count_down(self.camp.cooldown, dt);
        if !self.settings.grenades || self.settings.difficulty == 0 {
            self.camp.anchor = None;
            self.camp.timer = 0;
            return None;
        }
        let at: Point = match self.player.pos {
            Some(p) => p,
            None => return None,
        };
        let stays: bool = match self.camp.anchor {
            Some(a) => a.within(&at, CAMP_RADIUS),
            None => false,
        };
        if stays {
            self.camp.timer = advance(self.camp.timer, dt);
        } else {
            self.camp.anchor = Some(at);
            self.camp.timer = 0;
        }
        let anchor: Point = self.camp.anchor.unwrap();
        let wait: u32 = 6000 - 360 * self.settings.difficulty;
        if self.camp.timer < wait || self.camp.cooldown > 0 {
            return None;
        }
        let mut best: Option<usize> = None;
        let mut near: u128 = 0;
        let mut k: usize = 0;
        while k < self.hunters.len()
            invariant
                k <= self.hunters@.len(),
                forall|j: int|
                    0 <= j < k ==> (#[trigger] self.hunters@[j]).dead || !endangered(
                        self.hunters@[j],
                        anchor,
                    ),
                match best {
                    Some(b) => {
                        &&& b < k
                        &&& can_throw(self.hunters@[b as int], anchor)
                        &&& near == self.hunters@[b as int].pos.dist2_to(anchor)
                        &&& forall|j: int|
                            0 <= j < k && can_throw(#[trigger] self.hunters@[j], anchor) ==> near
                                <= self.hunters@[j].pos.dist2_to(anchor) && (j < b ==> near
                                < self.hunters@[j].pos.dist2_to(anchor))
                    },
                    None => forall|j: int|
                        0 <= j < k ==> !can_throw(#[trigger] self.hunters@[j], anchor),
                },
                self.hunters@ == old(self).hunters@,
                old(self).settings.grenades && old(self).settings.difficulty > 0,
                old(self).player.pos == Some(at),
                self.camp == camped(old(self).camp, dt, at),
                self.camp.anchor == Some(anchor),
                self.camp.timer >= dwell(old(self).settings.difficulty),
                self.camp.cooldown == 0,
                *self == (World { camp: self.camp, ..*old(self) }),
            decreases self.hunters@.len() - k,
        {
            let h: Hunter = self.hunters[k];
            let d: u128 = h.pos.dist2(&anchor);
            assert(GRENADE_SAFE_DIST * GRENADE_SAFE_DIST == 42_250_000) by (nonlinear_arith);
            let landing: u128 = h.pos.dist2_moved(&h.vel, &anchor);
            if !h.dead && (d < 42_250_000 || landing < 42_250_000) {
                assert(someone_close(old(self).hunters@, anchor));
                return None;
            }
            if !h.dead && h.engaged && h.pos.within(&anchor, GRENADE_THROW_RANGE) && (
            best.is_none() || d < near) {
                best = Some(k);
                near = d;
            }
            k = k + 1;
        }
        if best.is_some() {
            self.camp.cooldown = GRENADE_COOLDOWN;
            self.camp.timer = 0;
        }
        best
    }
}

/// A grenade never lands on the pack: no living hunter is within its reach when it is thrown,
/// nor where it will be when it lands.
pub proof fn grenades_spare_the_pack(hs: Seq<Hunter>, anchor: Point, k: int)
    requires
        !someone_close(hs, anchor),
        0 <= k < hs.len(),
        !hs[k].dead,
    ensures
        hs[k].pos.dist2_to(anchor) >= GRENADE_SAFE_DIST * GRENADE_SAFE_DIST,
        hs[k].pos.dist2_after(hs[k].vel, anchor) >= GRENADE_SAFE_DIST * GRENADE_SAFE_DIST,
{
    assert(!(!hs[k].dead && endangered(hs[k], anchor)));
}

// ---- Explosions ----

/// The centres of the living hunters among the first `n`.
pub open spec fn hunter_centres(hs: Seq<Hunter>, n: nat) -> Seq<Point>
    decreases n,
{
    if n == 0 {
        Seq::empty()
    } else {
        let rest = hunter_centres(hs, (n - 1) as nat);
        if hs[n - 1].dead {
            rest
        } else {
            rest.push(hs[n - 1].pos.above(ENEMY_CENTER_Y as int))
        }
    }
}

/// Whether a blast reaches a centre.
pub open spec fn blast_reaches(d: Detonation, centre: Point) -> bool {
    centre.within_of(d.at, d.blast.radius as int)
}

/// Whom a blast reaches, by where their centres are.
pub struct BlastReach {
    pub hunters: Vec<Option<Point>>,
    pub player: Option<Point>,
}

/// What a blast did.
pub struct BlastReport {
    /// The fractions that its puffs are made of.
    pub puffs: Vec<u32>,
    /// What it did to each hunter.
    pub hunters: Vec<Option<HitReport>>,
}

/// The state that a blast changes as it goes over the hunters one after another.
pub struct BlastState {
    pub hunters: Seq<Hunter>,
    pub rng: u64,
    pub credits: u32,
    pub reports: Seq<Option<HitReport>>,
}

impl World {
    /// Everyone who can trip a mine: the living hunters and the player.
    pub open spec fn mine_targets(self) -> Seq<Point> {
        let hs = hunter_centres(self.hunters@, self.hunters@.len());
        match self.player.pos {
            Some(p) => hs.push(p.above(PLAYER_CENTER_Y as int)),
            None => hs,
        }
    }

    fn targets_for_mines(&self) -> (t: Vec<Point>)
        ensures
            t@ == self.mine_targets(),
    {
        let mut t: Vec<Point> = Vec::new();
        let mut k: usize = 0;
        while k < self.hunters.len()
            invariant
                k <= self.hunters@.len(),
                t@ == hunter_centres(self.hunters@, k as nat),
            decreases self.hunters@.len() - k,
        {
            let h: Hunter = self.hunters[k];
            if !h.dead {
                t.push(h.pos.raised(ENEMY_CENTER_Y));
            }
            k = k + 1;
        }
        if let Some(p) = self.player.pos {
            t.push(p.raised(PLAYER_CENTER_Y));
        }
        t
    }

    /// Moves every projectile and every mine for a time `dt`, along flights that were traced
    /// through the level. The result is every blast, chain reactions included, in the order
    /// they go off, and the sounds of the mines.
    pub fn explosives_step(
        &mut self,
        dt: u32,
        sweeps: &Vec<Sweep>,
        mine_sweeps: &Vec<MineSweep>,
    ) -> (out: (Vec<Detonation>, MineCues))
        requires
            sweeps@.len() == old(self).projectiles@.len(),
            mine_sweeps@.len() == old(self).mines@.len(),
        ensures
            ({
                let n = old(self).projectiles@.len();
                let m = old(self).mines@.len();
                let targets = old(self).mine_targets();
                let first = set_off(old(self).projectiles@, sweeps@, dt, n) + mines_tripped(
                    old(self).mines@,
                    mine_sweeps@,
                    targets,
                    dt,
                    m,
                );
                let still = mines_left(old(self).mines@, mine_sweeps@, targets, dt, m);
                &&& final(self).projectiles@ == still_flying(
                    old(self).projectiles@,
                    sweeps@,
                    dt,
                    n,
                )
                &&& out.0@ == cascade(first, still).0
                &&& final(self).mines@ == cascade(first, still).1
                &&& out.1.placed == placed_in(old(self).mines@, mine_sweeps@, dt, m)
                &&& out.1.armed == armed_in(old(self).mines@, dt, m)
            }),
            *final(self) == (World {
                projectiles: final(self).projectiles,
                mines: final(self).mines,
                ..*old(self)
            }),
    {
        let mut blasts: Vec<Detonation> = step_projectiles(&mut self.projectiles, sweeps, dt);
        let targets: Vec<Point> = self.targets_for_mines();
        let (mut tripped, cues): (Vec<Detonation>, MineCues) = mines_step(
            &mut self.mines,
            mine_sweeps,
            &targets,
            dt,
        );
        blasts.append(&mut tripped);
        let fired: Vec<Detonation> = chain_reaction(blasts, &mut self.mines);
        (fired, cues)
    }

    /// Lets a round fly from `at`.
    pub fn launch(
        &mut self,
        at: Point,
        fuse: Option<u32>,
        bounces: bool,
        blast: Explosion,
        model: Option<usize>,
    )
        ensures
            final(self).projectiles@ == old(self).projectiles@.push(
                Projectile { pos: at, age: 0, at_rest: false, fuse, bounces, blast, model },
            ),
            *final(self) == (World { projectiles: final(self).projectiles, ..*old(self) }),
    {
        self.projectiles.push(
            Projectile { pos: at, age: 0, at_rest: false, fuse, bounces, blast, model },
        );
    }

    /// Throws a mine from `at`, the weapon in hand; it flies until it sticks, and arms after
    /// that.
    pub fn throw_mine(&mut self, at: Point, arm_time: u32, trigger: MineTrigger, blast: Explosion)
        ensures
            final(self).mines@ == old(self).mines@.push(
                Mine {
                    pos: at,
                    stuck: false,
                    flight_time: 0,
                    arm_left: arm_time,
                    trigger,
                    blast,
                    model: old(self).arms.index,
                },
            ),
            *final(self) == (World { mines: final(self).mines, ..*old(self) }),
    {
        self.mines.push(
            Mine {
                pos: at,
                stuck: false,
                flight_time: 0,
                arm_left: arm_time,
                trigger,
                blast,
                model: self.arms.index,
            },
        );
    }

    /// Sets off every remote mine, and what they reach. Nothing happens outside a hunt, or
    /// with the player dead.
    pub fn detonate_remote_mines(&mut self) -> (fired: Option<Vec<Detonation>>)
        ensures
            fired is Some <==> old(self).mode == Mode::Hunt && !old(self).player.dead,
            fired matches Some(f) ==> {
                let n = old(self).mines@.len();
                let c = cascade(
                    booms(mines_where(old(self).mines@, true, n)),
                    mines_where(old(self).mines@, false, n),
                );
                &&& f@ == c.0
                &&& final(self).mines@ == c.1
            },
            fired is None ==> *final(self) == *old(self),
            *final(self) == (World { mines: final(self).mines, ..*old(self) }),
    {
        if self.mode != Mode::Hunt || self.player.dead {
            return None;
        }
        let blasts: Vec<Detonation> = take_remote_mines(&mut self.mines);
        Some(chain_reaction(blasts, &mut self.mines))
    }

    /// A blast over the first `n` hunters, with the damage that its distance leaves for each.
    /// Its puffs are drawn first.
    pub open spec fn blasted(self, d: Detonation, damage: Seq<u32>, n: nat) -> BlastState
        decreases n,
    {
        if n == 0 {
            BlastState {
                hunters: self.hunters@,
                rng: shifted_by(self.char_rng, puff_draws(d.blast.radius)),
                credits: self.arms.credits,
                reports: Seq::empty(),
            }
        } else {
            let s = self.blasted(d, damage, (n - 1) as nat);
            let h = self.hunters@[n - 1];
            if h.dead || damage[n - 1] == 0 || !blast_reaches(
                d,
                h.pos.above(ENEMY_CENTER_Y as int),
            ) {
                BlastState { reports: s.reports.push(None), ..s }
            } else {
                let out = self.hit_outcome(s.rng, h, HitZone::Torso, damage[n - 1], true);
                BlastState {
                    hunters: s.hunters.update(n - 1, out.1),
                    rng: out.2,
                    credits: if out.0.died {
                        later(s.credits, self.arms.bounty)
                    } else {
                        s.credits
                    },
                    reports: s.reports.push(Some(out.0)),
                }
            }
        }
    }

    /// The centres of those that a blast reaches: by hunter, the living ones whose centre lies
    /// within its radius; and the player's.
    pub fn blast_reach(&self, d: &Detonation) -> (r: BlastReach)
        ensures
            r.hunters@ == self.hunters@.map_values(
                |h: Hunter|
                    if !h.dead && blast_reaches(*d, h.pos.above(ENEMY_CENTER_Y as int)) {
                        Some(h.pos.above(ENEMY_CENTER_Y as int))
                    } else {
                        None
                    },
            ),
            r.player == match self.player.pos {
                Some(p) => if blast_reaches(*d, p.above(PLAYER_CENTER_Y as int)) {
                    Some(p.above(PLAYER_CENTER_Y as int))
                } else {
                    None
                },
                None => None,
            },
    {
        let mut hunters: Vec<Option<Point>> = Vec::new();
        let mut k: usize = 0;
        while k < self.hunters.len()
            invariant
                k <= self.hunters@.len(),
                hunters@.len() == k,
                forall|j: int|
                    0 <= j < k ==> #[trigger] hunters@[j] == if !self.hunters@[j].dead
                        && blast_reaches(*d, self.hunters@[j].pos.above(ENEMY_CENTER_Y as int)) {
                        Some(self.hunters@[j].pos.above(ENEMY_CENTER_Y as int))
                    } else {
                        None
                    },
            decreases self.hunters@.len() - k,
        {
            let h: Hunter = self.hunters[k];
            let centre: Point = h.pos.raised(ENEMY_CENTER_Y);
            if !h.dead && centre.within(&d.at, d.blast.radius) {
                hunters.push(Some(centre));
            } else {
                hunters.push(None);
            }
            k = k + 1;
        }
        assert(hunters@ =~= self.hunters@.map_values(
            |h: Hunter|
                if !h.dead && blast_reaches(*d, h.pos.above(ENEMY_CENTER_Y as int)) {
                    Some(h.pos.above(ENEMY_CENTER_Y as int))
                } else {
                    None
                },
        ));
        let player: Option<Point> = match self.player.pos {
            Some(p) => {
                let centre: Point = p.raised(PLAYER_CENTER_Y);
                if centre.within(&d.at, d.blast.radius) {
                    Some(centre)
                } else {
                    None
                }
            },
            None => None,
        };
        BlastReach { hunters, player }
    }

    /// Lets a blast go off: its puffs are drawn, and it does the damage that its distance leaves
    /// to every living hunter it reaches, then to the player.
    pub fn detonate(&mut self, d: &Detonation, damage: &Vec<u32>, player_damage: u32) -> (report:
        BlastReport)
        requires
            damage@.len() == old(self).hunters@.len(),
        ensures
            ({
                let s = old(self).blasted(*d, damage@, old(self).hunters@.len());
                &&& final(self).hunters@ == s.hunters
                &&& final(self).char_rng == s.rng
                &&& final(self).arms == (crate::arms::Armory { credits: s.credits, ..old(self).arms })
                &&& report.hunters@ == s.reports
            }),
            report.puffs@ == units(old(self).char_rng, puff_draws(d.blast.radius)),
            final(self).player == if player_damage > 0 && (old(self).player.pos matches Some(p)
                && blast_reaches(*d, p.above(PLAYER_CENTER_Y as int))) {
                old(self).player.hurt(player_damage)
            } else {
                old(self).player
            },
            *final(self) == (World {
                hunters: final(self).hunters,
                char_rng: final(self).char_rng,
                arms: final(self).arms,
                player: final(self).player,
                ..*old(self)
            }),
    {
        let n: u32 = blast_puffs(d.blast.radius);
        let puffs: Vec<u32> = draw_units(&mut self.char_rng, (1 + 6 * (n - 1)) as usize);
        let mut hunters: Vec<Option<HitReport>> = Vec::new();
        let mut k: usize = 0;
        while k < self.hunters.len()
            invariant
                k <= self.hunters@.len(),
                self.hunters@.len() == old(self).hunters@.len(),
                damage@.len() == self.hunters@.len(),
                ({
                    let s = old(self).blasted(*d, damage@, k as nat);
                    &&& self.hunters@ == s.hunters
                    &&& self.char_rng == s.rng
                    &&& self.arms == (crate::arms::Armory { credits: s.credits, ..old(self).arms })
                    &&& hunters@ == s.reports
                }),
                forall|j: int|
                    k <= j < self.hunters@.len() ==> #[trigger] self.hunters@[j] == old(
                        self).hunters@[j],
                *self == (World {
                    hunters: self.hunters,
                    char_rng: self.char_rng,
                    arms: self.arms,
                    ..*old(self)
                }),
            decreases self.hunters@.len() - k,
        {
            let ghost before = *self;
            let centre: Point = self.hunters[k].pos.raised(ENEMY_CENTER_Y);
            let r: Option<HitReport> = if damage[k] > 0 && centre.within(&d.at, d.blast.radius) {
                self.blast_hit_enemy(k, damage[k])
            } else {
                None
            };
            proof {
                let h = old(self).hunters@[k as int];
                let s = old(self).blasted(*d, damage@, k as nat);
                assert(before.hunters@[k as int] == h);
                assert(before.hit_outcome(s.rng, h, HitZone::Torso, damage@[k as int], true)
                    == old(self).hit_outcome(s.rng, h, HitZone::Torso, damage@[k as int], true));
            }
            hunters.push(r);
            k = k + 1;
        }
        if let Some(p) = self.player.pos {
            if player_damage > 0 && p.raised(PLAYER_CENTER_Y).within(&d.at, d.blast.radius) {
                self.take_player_damage(player_damage);
            }
        }
        BlastReport { puffs, hunters }
    }

    /// A hunter lobs a grenade from `at`: it goes off on contact, or after three seconds in the
    /// air.
    pub fn throw_enemy_grenade(&mut self, at: Point, blast: Explosion, model: Option<usize>)
        ensures
            final(self).projectiles@ == old(self).projectiles@.push(
                Projectile {
                    pos: at,
                    age: 0,
                    at_rest: false,
                    fuse: Some(GRENADE_FUSE),
                    bounces: false,
                    blast,
                    model,
                },
            ),
            *final(self) == (World { projectiles: final(self).projectiles, ..*old(self) }),
    {
        self.launch(at, Some(GRENADE_FUSE), false, blast, model);
    }
}

// ---- The player's own step ----

/// The sparks among the first `n` that still show after `dt`.
pub open spec fn sparks_left(s: Seq<Spark>, dt: u32, n: nat) -> Seq<Spark>
    decreases n,
{
    if n == 0 {
        Seq::empty()
    } else {
        let rest = sparks_left(s, dt, (n - 1) as nat);
        if s[n - 1].ttl > dt {
            rest.push(Spark { ttl: (s[n - 1].ttl - dt) as u32, ..s[n - 1] })
        } else {
            rest
        }
    }
}

/// What the player's weapon is told in a step.
#[derive(Clone, Copy, PartialEq, Eq, Debug, Structural)]
pub struct TriggerStep {
    /// Whether the trigger counts as pulled.
    pub trigger: bool,
    /// Whether another weapon has come to hand.
    pub swapped: bool,
}

impl World {
    /// Lets sparks fade and a weapon switch run, and passes the trigger on: it counts only
    /// with the pointer held and no switch under way. Nothing happens outside a hunt.
    pub fn combat_step(&mut self, dt: u32, pointer_locked: bool, button: bool) -> (s: Option<
        TriggerStep,
    >)
        requires
            old(self).arms.wf(),
        ensures
            s is Some <==> old(self).mode == Mode::Hunt,
            s matches Some(t) ==> {
                &&& final(self).sparks@ == sparks_left(
                    old(self).sparks@,
                    dt,
                    old(self).sparks@.len(),
                )
                &&& final(self).arms == old(self).arms.switch_stepped(dt)
                &&& t.trigger == (pointer_locked && button && !final(self).arms.switching)
                &&& t.swapped == (old(self).arms.switching && !old(self).arms.switch_swapped
                    && final(self).arms.switch_swapped)
            },
            s is None ==> *final(self) == *old(self),
            *final(self) == (World {
                sparks: final(self).sparks,
                arms: final(self).arms,
                ..*old(self)
            }),
            final(self).arms.wf(),
    {
        if self.mode != Mode::Hunt {
            return None;
        }
        let mut kept: Vec<Spark> = Vec::new();
        let mut k: usize = 0;
        while k < self.sparks.len()
            invariant
                k <= self.sparks@.len(),
                kept@ == sparks_left(self.sparks@, dt, k as nat),
            decreases self.sparks@.len() - k,
        {
            let sp: Spark = self.sparks[k];
            if sp.ttl > dt {
                kept.push(Spark { pos: sp.pos, ttl: sp.ttl - dt });
            }
            k = k + 1;
        }
        self.sparks = kept;
        let swapped: bool = self.arms.switch_step(dt);
        Some(
            TriggerStep { trigger: pointer_locked && button && !self.arms.switching, swapped },
        )
    }

    /// Starts to switch to the next owned weapon, in a hunt.
    pub fn begin_weapon_switch(&mut self)
        requires
            old(self).arms.wf(),
        ensures
            old(self).mode != Mode::Hunt ==> *final(self) == *old(self),
            old(self).mode == Mode::Hunt ==> crate::arms::switch_begins(
                old(self).arms,
                final(self).arms,
            ),
            *final(self) == (World { arms: final(self).arms, ..*old(self) }),
            final(self).arms.wf(),
    {
        if self.mode == Mode::Hunt {
            self.arms.begin_switch();
        }
    }
}

// ---- The player's shots ----

/// How a weapon delivers a shot.
#[derive(Clone, Copy, PartialEq, Eq, Debug, Structural)]
pub enum FireKind {
    Hitscan,
    Projectile { fuse: Option<u32>, bounces: bool, blast: Explosion, model: Option<usize> },
    Mine { arm_time: u32, trigger: MineTrigger, blast: Explosion },
}

/// What a shot of the player's did.
pub struct ShotReport {
    /// The hunters that heard it.
    pub heard: Vec<usize>,
    /// What a ray struck; nothing where a round or a mine left the hand.
    pub effect: ShotEffect,
}

impl World {
    /// The hunters that hear a shot of the player's.
    pub open spec fn shot_heard(self) -> Seq<usize> {
        match self.player.pos {
            Some(p) => hearers(
                self.hunters@,
                p,
                GUNSHOT_HEARING_RANGE as int,
                self.hunters@.len(),
            ),
            None => Seq::empty(),
        }
    }

    /// Delivers a shot of the player's: a ray strikes what it met, a round flies from `at`, a mine
    /// is thrown from there. It is heard first. Without a player there is no shot.
    pub fn deliver_shot(&mut self, kind: FireKind, at: Point, hit: RayHit, damage: u32) -> (r:
        ShotReport)
        requires
            hit matches RayHit::Enemy { height, .. } ==> -0x1_0000_0000 <= height <= 0x1_0000_0000,
        ensures
            r.heard@ == old(self).shot_heard(),
            old(self).player.pos is None ==> r.effect is Nothing && *final(self) == *old(self),
            old(self).player.pos is Some ==> match kind {
                FireKind::Hitscan => World::is_hitscan(
                    *old(self),
                    hit,
                    damage,
                    *final(self),
                    r.effect,
                ),
                FireKind::Projectile { fuse, bounces, blast, model } => {
                    &&& r.effect is Nothing
                    &&& final(self).projectiles@ == old(self).projectiles@.push(
                        Projectile { pos: at, age: 0, at_rest: false, fuse, bounces, blast, model },
                    )
                    &&& *final(self) == (World {
                        projectiles: final(self).projectiles,
                        ..*old(self)
                    })
                },
                FireKind::Mine { arm_time, trigger, blast } => {
                    &&& r.effect is Nothing
                    &&& final(self).mines@ == old(self).mines@.push(
                        Mine {
                            pos: at,
                            stuck: false,
                            flight_time: 0,
                            arm_left: arm_time,
                            trigger,
                            blast,
                            model: old(self).arms.index,
                        },
                    )
                    &&& *final(self) == (World { mines: final(self).mines, ..*old(self) })
                },
            },
    {
        let heard: Vec<usize> = self.alert_enemies_to_noise();
        if self.player.pos.is_none() {
            return ShotReport { heard, effect: ShotEffect::Nothing };
        }
        let effect: ShotEffect = match kind {
            FireKind::Hitscan => self.fire_hitscan(hit, damage),
            FireKind::Projectile { fuse, bounces, blast, model } => {
                self.launch(at, fuse, bounces, blast, model);
                ShotEffect::Nothing
            },
            FireKind::Mine { arm_time, trigger, blast } => {
                self.throw_mine(at, arm_time, trigger, blast);
                ShotEffect::Nothing
            },
        };
        ShotReport { heard, effect }
    }
}

/// Every living hunter within earshot of a noise hears it, in order, and nobody else does.
pub proof fn gunshots_are_heard_in_range(hs: Seq<Hunter>, at: Point, range: u32, n: nat)
    requires
        n <= hs.len() <= usize::MAX,
    ensures
        forall|k: int| 0 <= k < hearers(hs, at, range as int, n).len() ==> (#[trigger] hearers(hs, at, range as int, n)[k]) < n,
        forall|a: int, b: int|
            0 <= a < b < hearers(hs, at, range as int, n).len() ==> (#[trigger] hearers(hs, at, range as int, n)[a]) < (#[trigger] hearers(hs, at, range as int, n)[b]),
        forall|i: int|
            0 <= i < n ==> (#[trigger] hearers(hs, at, range as int, n).contains(i as usize) <==> (!hs[i].dead && hs[i].pos.dist2_to(at) <= range * range)),
    decreases n,
{
    if n > 0 {
        gunshots_are_heard_in_range(hs, at, range, (n - 1) as nat);
        let rest = hearers(hs, at, range as int, (n - 1) as nat);
        let all = hearers(hs, at, range as int, n);
        
        assert forall|i: int| 0 <= i < n implies (#[trigger] all.contains(i as usize) <==> (!hs[i].dead && hs[i].pos.dist2_to(at) <= range * range)) by {
            
            if i < n - 1 {
                if rest.contains(i as usize) {
                    let k = choose|k: int| 0 <= k < rest.len() && rest[k] == i as usize;
                    assert(all[k] == i as usize);
                }
                if all.contains(i as usize) {
                    let k = choose|k: int| 0 <= k < all.len() && all[k] == i as usize;
                    assert(k < rest.len());
                    assert(rest[k] == i as usize);
                }
            } else {
                if (!hs[i].dead && hs[i].pos.dist2_to(at) <= range * range) {
                    assert(all[rest.len() as int] == i as usize);
                }
                if all.contains(i as usize) {
                    let k = choose|k: int| 0 <= k < all.len() && all[k] == i as usize;
                    if k < rest.len() {
                        assert(rest[k] < n - 1);
                    }
                }
            }
        }
    }
}

/// A round is asked of every hunter that one is due of, in order, and of nobody else.
pub proof fn rounds_are_asked_of_those_who_are_due(hs: Seq<Hunter>, dt: u32, mode: AiMode, n: nat)
    requires
        n <= hs.len() <= usize::MAX,
        forall|i: int|
            #![trigger hs[i]]
            0 <= i < hs.len() ==> (hs[i].fire_elapsed matches Some(t) ==> t + dt <= u32::MAX),
    ensures
        forall|k: int| 0 <= k < triggered(hs, dt, mode, n).len() ==> (#[trigger] triggered(hs, dt, mode, n)[k]) < n,
        forall|a: int, b: int|
            0 <= a < b < triggered(hs, dt, mode, n).len() ==> (#[trigger] triggered(hs, dt, mode, n)[a]) < (#[trigger] triggered(hs, dt, mode, n)[b]),
        forall|i: int|
            0 <= i < n ==> (#[trigger] triggered(hs, dt, mode, n).contains(i as usize) <==> crate::hunter::round_leaves(hs[i], dt, mode)),
    decreases n,
{
    if n > 0 {
        rounds_are_asked_of_those_who_are_due(hs, dt, mode, (n - 1) as nat);
        let rest = triggered(hs, dt, mode, (n - 1) as nat);
        let all = triggered(hs, dt, mode, n);
        crate::hunter::rounds_leave_when_they_are_due(hs[n - 1], dt, mode);
        assert forall|i: int| 0 <= i < n implies (#[trigger] all.contains(i as usize) <==> crate::hunter::round_leaves(hs[i], dt, mode)) by {
            
            if i < n - 1 {
                if rest.contains(i as usize) {
                    let k = choose|k: int| 0 <= k < rest.len() && rest[k] == i as usize;
                    assert(all[k] == i as usize);
                }
                if all.contains(i as usize) {
                    let k = choose|k: int| 0 <= k < all.len() && all[k] == i as usize;
                    assert(k < rest.len());
                    assert(rest[k] == i as usize);
                }
            } else {
                if crate::hunter::round_leaves(hs[i], dt, mode) {
                    assert(all[rest.len() as int] == i as usize);
                }
                if all.contains(i as usize) {
                    let k = choose|k: int| 0 <= k < all.len() && all[k] == i as usize;
                    if k < rest.len() {
                        assert(rest[k] < n - 1);
                    }
                }
            }
        }
    }
}

/// The hunters whose burst ends in this step and was fired across the body are told of, in order.
pub proof fn sideways_bursts_end_with_a_turn(hs: Seq<Hunter>, dt: u32, n: nat)
    requires
        n <= hs.len() <= usize::MAX,
        forall|i: int|
            #![trigger hs[i]]
            0 <= i < hs.len() ==> (hs[i].fire_elapsed matches Some(t) ==> t + dt <= u32::MAX),
    ensures
        forall|k: int| 0 <= k < sideways(hs, dt, n).len() ==> (#[trigger] sideways(hs, dt, n)[k]) < n,
        forall|a: int, b: int|
            0 <= a < b < sideways(hs, dt, n).len() ==> (#[trigger] sideways(hs, dt, n)[a]) < (#[trigger] sideways(hs, dt, n)[b]),
        forall|i: int|
            0 <= i < n ==> (#[trigger] sideways(hs, dt, n).contains(i as usize) <==> (hs[i].fire_elapsed matches Some(t) && t + dt >= hs[i].fire.shoot_to + 300 && t + dt >= hs[i].fire.end && hs[i].fire.angle_offset != 0)),
    decreases n,
{
    if n > 0 {
        sideways_bursts_end_with_a_turn(hs, dt, (n - 1) as nat);
        let rest = sideways(hs, dt, (n - 1) as nat);
        let all = sideways(hs, dt, n);
        
        assert forall|i: int| 0 <= i < n implies (#[trigger] all.contains(i as usize) <==> (hs[i].fire_elapsed matches Some(t) && t + dt >= hs[i].fire.shoot_to + 300 && t + dt >= hs[i].fire.end && hs[i].fire.angle_offset != 0)) by {
            
            if i < n - 1 {
                if rest.contains(i as usize) {
                    let k = choose|k: int| 0 <= k < rest.len() && rest[k] == i as usize;
                    assert(all[k] == i as usize);
                }
                if all.contains(i as usize) {
                    let k = choose|k: int| 0 <= k < all.len() && all[k] == i as usize;
                    assert(k < rest.len());
                    assert(rest[k] == i as usize);
                }
            } else {
                if (hs[i].fire_elapsed matches Some(t) && t + dt >= hs[i].fire.shoot_to + 300 && t + dt >= hs[i].fire.end && hs[i].fire.angle_offset != 0) {
                    assert(all[rest.len() as int] == i as usize);
                }
                if all.contains(i as usize) {
                    let k = choose|k: int| 0 <= k < all.len() && all[k] == i as usize;
                    if k < rest.len() {
                        assert(rest[k] < n - 1);
                    }
                }
            }
        }
    }
}

/// Footsteps are heard by every living hunter within a metre for each step of the difficulty
/// dial, at a run, and proportionally less far at less than a run; in order, and by nobody else.
pub proof fn footsteps_are_heard_by_how_loud_they_are(hs: Seq<Hunter>, at: Point, speed: u32, difficulty: u32, n: nat)
    requires
        n <= hs.len() <= usize::MAX,
    ensures
        forall|k: int| 0 <= k < stirred(hs, at, speed, difficulty, n).len() ==> (#[trigger] stirred(hs, at, speed, difficulty, n)[k]) < n,
        forall|a: int, b: int|
            0 <= a < b < stirred(hs, at, speed, difficulty, n).len() ==> (#[trigger] stirred(hs, at, speed, difficulty, n)[a]) < (#[trigger] stirred(hs, at, speed, difficulty, n)[b]),
        forall|i: int|
            0 <= i < n ==> (#[trigger] stirred(hs, at, speed, difficulty, n).contains(i as usize) <==> (!hs[i].dead && carries(hs[i].pos.dist2_to(at), speed, difficulty))),
    decreases n,
{
    if n > 0 {
        footsteps_are_heard_by_how_loud_they_are(hs, at, speed, difficulty, (n - 1) as nat);
        lemma_carries(hs[n - 1].pos, at, speed, difficulty);
        let rest = stirred(hs, at, speed, difficulty, (n - 1) as nat);
        let all = stirred(hs, at, speed, difficulty, n);
        
        assert forall|i: int| 0 <= i < n implies (#[trigger] all.contains(i as usize) <==> (!hs[i].dead && carries(hs[i].pos.dist2_to(at), speed, difficulty))) by {
            
            if i < n - 1 {
                if rest.contains(i as usize) {
                    let k = choose|k: int| 0 <= k < rest.len() && rest[k] == i as usize;
                    assert(all[k] == i as usize);
                }
                if all.contains(i as usize) {
                    let k = choose|k: int| 0 <= k < all.len() && all[k] == i as usize;
                    assert(k < rest.len());
                    assert(rest[k] == i as usize);
                }
            } else {
                if (!hs[i].dead && carries(hs[i].pos.dist2_to(at), speed, difficulty)) {
                    assert(all[rest.len() as int] == i as usize);
                }
                if all.contains(i as usize) {
                    let k = choose|k: int| 0 <= k < all.len() && all[k] == i as usize;
                    if k < rest.len() {
                        assert(rest[k] < n - 1);
                    }
                }
            }
        }
    }
}

/// Whether footsteps at that speed carry over a distance whose square is `d2`: difficulty times a
/// metre at a run of 6.4 m/s or more, less in proportion below that.
pub open spec fn carries(d2: int, speed: u32, difficulty: u32) -> bool {
    let loud = if speed < 6400 {
        speed as int
    } else {
        6400
    };
    difficulty > 0 && loud > 0 && d2 * (6400 * 6400) <= (1000 * difficulty * loud) * (1000
        * difficulty * loud)
}

proof fn lemma_carries(pos: Point, at: Point, speed: u32, difficulty: u32)
    ensures
        footsteps_reach(pos, at, speed, difficulty) <==> carries(
            pos.dist2_to(at),
            speed,
            difficulty,
        ),
{
    let loud = if speed < 6400 {
        speed as int
    } else {
        6400
    };
    assert(1000 * difficulty * loud > 0 <==> difficulty > 0 && loud > 0) by (nonlinear_arith)
        requires
            loud >= 0,
    ;
}

/// Without a player nobody hears it walk or shoot, and below 2.5 m/s its steps make no noise. A
/// shot is heard for 25 metres.
pub proof fn what_the_pack_hears_of_the_player(w: World, speed: u32)
    requires
        w.hunters@.len() <= usize::MAX,
    ensures
        w.player.pos is None ==> w.shot_heard().len() == 0 && movement_heard(
            w.hunters@,
            w.player.pos,
            speed,
            w.settings.difficulty,
        ).len() == 0,
        speed < 2500 ==> movement_heard(
            w.hunters@,
            w.player.pos,
            speed,
            w.settings.difficulty,
        ).len() == 0,
        w.player.pos matches Some(p) ==> forall|i: int|
            0 <= i < w.hunters@.len() ==> (#[trigger] w.shot_heard().contains(i as usize)
                <==> !w.hunters@[i].dead && w.hunters@[i].pos.dist2_to(p) <= 25_000 * 25_000),
        speed >= 2500 ==> (w.player.pos matches Some(p) ==> forall|i: int|
            0 <= i < w.hunters@.len() ==> (#[trigger] movement_heard(
                w.hunters@,
                w.player.pos,
                speed,
                w.settings.difficulty,
            ).contains(i as usize) <==> !w.hunters@[i].dead && carries(
                w.hunters@[i].pos.dist2_to(p),
                speed,
                w.settings.difficulty,
            ))),
{
    if let Some(p) = w.player.pos {
        gunshots_are_heard_in_range(w.hunters@, p, 25_000, w.hunters@.len());
        footsteps_are_heard_by_how_loud_they_are(
            w.hunters@,
            p,
            speed,
            w.settings.difficulty,
            w.hunters@.len(),
        );
    }
}

/// A hunter faces the packmate that its aim model picked while that one lives, and the player
/// otherwise.
pub proof fn hunters_face_whom_they_picked(w: World, i: int)
    requires
        0 <= i < w.hunters@.len(),
    ensures
        w.hunters@[i].target matches Some(Target::Hunter(j)) ==> w.engaged_at(i) == (if j
            < w.hunters@.len() && !w.hunters@[j as int].dead {
            Some(w.hunters@[j as int].pos)
        } else {
            w.player.pos
        }),
        !(w.hunters@[i].target matches Some(Target::Hunter(_))) ==> w.engaged_at(i) == w.player.pos,
{
}

/// A round is meant for the packmate that was picked, alive or not, and otherwise for the player;
/// there is none without a player.
pub proof fn rounds_are_meant_for_whom_they_picked(w: World, i: int)
    requires
        0 <= i < w.hunters@.len(),
    ensures
        w.meant(i) is None <==> w.player.pos is None,
        w.player.pos is Some ==> w.meant(i) == (match w.hunters@[i].target {
            Some(Target::Hunter(j)) => if j < w.hunters@.len() {
                Some(w.hunters@[j as int].pos)
            } else {
                w.player.pos
            },
            _ => w.player.pos,
        }),
{
}

/// Whether a line passes a body's core, in front of the barrel and within 0.35 m.
pub open spec fn hits_the_core(l: ShotLine) -> bool {
    l.along > 0 && l.miss <= 350
}

/// A round strikes whoever comes first on its line among the player and the living hunters other
/// than the shooter; at equal distances the player, and among hunters the one listed first.
pub proof fn a_round_strikes_the_first_on_its_line(
    w: World,
    shooter: int,
    player: ShotLine,
    lines: Seq<ShotLine>,
    victim: Target,
    j: int,
)
    requires
        lines.len() == w.hunters@.len(),
        w.is_victim(shooter, player, lines, victim),
        0 <= j < w.hunters@.len(),
        j != shooter,
        !w.hunters@[j].dead,
        hits_the_core(lines[j]),
    ensures
        victim is Player ==> hits_the_core(player) && player.along <= lines[j].along,
        victim matches Target::Hunter(v) ==> {
            &&& v < w.hunters@.len() && v != shooter && !w.hunters@[v as int].dead
            &&& hits_the_core(lines[v as int])
            &&& hits_the_core(player) ==> lines[v as int].along < player.along
            &&& lines[v as int].along <= lines[j].along
            &&& j < v ==> lines[v as int].along < lines[j].along
        },
{
    assert(w.in_line(shooter, lines, j));
}

/// Nobody is struck who is not on the line: a struck player is in front of the barrel and close
/// enough, and so is a struck hunter, who is alive and not the shooter.
pub proof fn a_round_strikes_only_what_is_on_its_line(
    w: World,
    shooter: int,
    player: ShotLine,
    lines: Seq<ShotLine>,
    victim: Target,
)
    requires
        lines.len() == w.hunters@.len(),
        w.is_victim(shooter, player, lines, victim),
    ensures
        victim is Player ==> hits_the_core(player),
        victim matches Target::Hunter(v) ==> v < w.hunters@.len() && v != shooter
            && !w.hunters@[v as int].dead && hits_the_core(lines[v as int]) && (hits_the_core(
            player,
        ) ==> lines[v as int].along < player.along),
{
}

/// A point can trip a mine exactly when it is the centre of a living hunter or of the player:
/// 0.7 m above a hunter's feet, 0.9 m above the player's.
pub proof fn the_living_trip_mines(w: World, p: Point)
    ensures
        w.mine_targets().contains(p) <==> (exists|i: int|
            0 <= i < w.hunters@.len() && !(#[trigger] w.hunters@[i]).dead
                && w.hunters@[i].pos.above(700) == p) || (w.player.pos matches Some(q)
            && q.above(900) == p),
{
    let hs = w.hunters@;
    let centres = hunter_centres(hs, hs.len());
    let all = w.mine_targets();
    lemma_centres(hs, p, hs.len());
    if centres.contains(p) {
        let k = choose|k: int| 0 <= k < centres.len() && centres[k] == p;
        assert(all[k] == p);
    }
    if let Some(q) = w.player.pos {
        assert(all[centres.len() as int] == q.above(900));
    }
    if all.contains(p) {
        let k = choose|k: int| 0 <= k < all.len() && all[k] == p;
        if k < centres.len() {
            assert(centres[k] == p);
        }
    }
}

proof fn lemma_centres(hs: Seq<Hunter>, p: Point, n: nat)
    requires
        n <= hs.len(),
    ensures
        hunter_centres(hs, n).contains(p) <==> exists|i: int|
            0 <= i < n && !(#[trigger] hs[i]).dead && hs[i].pos.above(700) == p,
    decreases n,
{
    if n > 0 {
        lemma_centres(hs, p, (n - 1) as nat);
        let rest = hunter_centres(hs, (n - 1) as nat);
        let all = hunter_centres(hs, n);
        if rest.contains(p) {
            let k = choose|k: int| 0 <= k < rest.len() && rest[k] == p;
            assert(all[k] == p);
        }
        if !hs[n - 1].dead && hs[n - 1].pos.above(700) == p {
            assert(all[rest.len() as int] == p);
        }
        if all.contains(p) {
            let k = choose|k: int| 0 <= k < all.len() && all[k] == p;
            if k < rest.len() {
                assert(rest[k] == p);
            } else {
                assert(!hs[n - 1].dead);
            }
        }
    }
}

/// What the first round of blasts of a step is, and which mines are left for them to reach.
pub open spec fn first_blasts(w: World, dt: u32, sweeps: Seq<Sweep>, mine_sweeps: Seq<MineSweep>) -> (
    Seq<Detonation>,
    Seq<Mine>,
) {
    let targets = w.mine_targets();
    (
        set_off(w.projectiles@, sweeps, dt, w.projectiles@.len()) + mines_tripped(
            w.mines@,
            mine_sweeps,
            targets,
            dt,
            w.mines@.len(),
        ),
        mines_left(w.mines@, mine_sweeps, targets, dt, w.mines@.len()),
    )
}

/// A stuck, armed proximity mine goes off in the step in which a living hunter's centre, or the
/// player's, is within its range.
pub proof fn walking_into_a_mine_sets_it_off(
    w: World,
    dt: u32,
    sweeps: Seq<Sweep>,
    mine_sweeps: Seq<MineSweep>,
    k: int,
    range: u32,
    centre: Point,
)
    requires
        mine_sweeps.len() == w.mines@.len(),
        0 <= k < w.mines@.len(),
        w.mines@[k].stuck,
        w.mines@[k].arm_left <= dt,
        w.mines@[k].trigger == MineTrigger::Proximity(range),
        (exists|i: int|
            0 <= i < w.hunters@.len() && !(#[trigger] w.hunters@[i]).dead
                && w.hunters@[i].pos.above(700) == centre) || (w.player.pos matches Some(q)
            && q.above(900) == centre),
        centre.dist2_to(w.mines@[k].pos) <= range * range,
    ensures
        cascade(
            first_blasts(w, dt, sweeps, mine_sweeps).0,
            first_blasts(w, dt, sweeps, mine_sweeps).1,
        ).0.contains(Detonation { at: w.mines@[k].pos, blast: w.mines@[k].blast }),
{
    let m = w.mines@[k];
    let d = Detonation { at: m.pos, blast: m.blast };
    let targets = w.mine_targets();
    the_living_trip_mines(w, centre);
    let j = choose|j: int| 0 <= j < targets.len() && targets[j] == centre;
    assert(targets[j].dist2_to(m.pos) <= range * range);
    crate::explosives::a_stuck_mine_goes_off_when_it_should(m, dt, mine_sweeps[k], targets);
    lemma_tripped(w.mines@, mine_sweeps, targets, dt, k, w.mines@.len());
    let (first, still) = first_blasts(w, dt, sweeps, mine_sweeps);
    let rounds = set_off(w.projectiles@, sweeps, dt, w.projectiles@.len());
    let tripped = mines_tripped(w.mines@, mine_sweeps, targets, dt, w.mines@.len());
    let i = choose|i: int| 0 <= i < tripped.len() && tripped[i] == d;
    assert(first[rounds.len() + i] == d);
    crate::explosives::what_waits_goes_off(first, still, d);
}

proof fn lemma_tripped(
    ms: Seq<Mine>,
    sweeps: Seq<MineSweep>,
    targets: Seq<Point>,
    dt: u32,
    k: int,
    n: nat,
)
    requires
        0 <= k < n <= ms.len(),
        crate::explosives::mine_after(ms[k], sweeps[k], targets, dt) is None,
    ensures
        mines_tripped(ms, sweeps, targets, dt, n).contains(
            Detonation { at: ms[k].pos, blast: ms[k].blast },
        ),
    decreases n,
{
    let d = Detonation { at: ms[k].pos, blast: ms[k].blast };
    let rest = mines_tripped(ms, sweeps, targets, dt, (n - 1) as nat);
    let all = mines_tripped(ms, sweeps, targets, dt, n);
    if k == n - 1 {
        assert(all[rest.len() as int] == d);
    } else {
        lemma_tripped(ms, sweeps, targets, dt, k, (n - 1) as nat);
        let j = choose|j: int| 0 <= j < rest.len() && rest[j] == d;
        assert(all[j] == d);
    }
}

/// A blast hurts exactly the living hunters whose centre it reaches and for whom there is damage
/// left at that distance: each of them is reported, loses that much health, and pays its bounty
/// when it dies. The others are not reported and stay as they were.
pub proof fn a_blast_hurts_whom_it_reaches(w: World, d: Detonation, damage: Seq<u32>, n: nat, i: int)
    requires
        n <= w.hunters@.len(),
        damage.len() == w.hunters@.len(),
        0 <= i < w.hunters@.len(),
    ensures
        ({
            let s = w.blasted(d, damage, n);
            let h = w.hunters@[i];
            let struck = i < n && !h.dead && damage[i] > 0 && h.pos.above(700).dist2_to(d.at)
                <= d.blast.radius * d.blast.radius;
            &&& s.hunters.len() == w.hunters@.len()
            &&& s.reports.len() == n
            &&& i < n ==> (s.reports[i] is Some <==> struck)
            &&& !struck ==> s.hunters[i] == h
            &&& struck ==> {
                &&& s.hunters[i].dead <==> damage[i] >= h.health
                &&& damage[i] < h.health ==> s.hunters[i].health == h.health - damage[i]
                &&& damage[i] >= h.health ==> s.hunters[i].health == 0
                &&& s.reports[i]->0.damage == damage[i]
                &&& s.reports[i]->0.died == s.hunters[i].dead
                &&& s.reports[i]->0.zone is Torso
            }
        }),
    decreases n,
{
    if n > 0 {
        let m = (n - 1) as nat;
        a_blast_hurts_whom_it_reaches(w, d, damage, m, i);
        a_blast_hurts_whom_it_reaches(w, d, damage, m, m as int);
    }
}

/// What a blast earns: the bounty for each hunter that it kills.
pub open spec fn kills_among(reports: Seq<Option<HitReport>>, n: nat) -> nat
    decreases n,
{
    if n == 0 {
        0
    } else {
        kills_among(reports, (n - 1) as nat) + if reports[n - 1] is Some && reports[n - 1]->0.died {
            1nat
        } else {
            0nat
        }
    }
}

/// Every hunter that a blast kills pays the bounty once, as far as credits can be counted.
pub proof fn blasts_pay_for_their_kills(w: World, d: Detonation, damage: Seq<u32>, n: nat)
    requires
        n <= w.hunters@.len(),
        damage.len() == w.hunters@.len(),
        w.arms.credits + n * w.arms.bounty <= u32::MAX,
    ensures
        w.blasted(d, damage, n).reports.len() == n,
        w.blasted(d, damage, n).credits == w.arms.credits + kills_among(
            w.blasted(d, damage, n).reports,
            n,
        ) * w.arms.bounty,
        kills_among(w.blasted(d, damage, n).reports, n) <= n,
    decreases n,
{
    let b = w.arms.bounty as int;
    if n > 0 {
        let m = (n - 1) as nat;
        assert(m * b <= n * b) by (nonlinear_arith)
            requires
                m <= n,
                b >= 0,
        ;
        blasts_pay_for_their_kills(w, d, damage, m);
        let before = w.blasted(d, damage, m).reports;
        let after = w.blasted(d, damage, n).reports;
        lemma_kills_prefix(before, after, m);
        let k = kills_among(before, m);
        assert((k + 1) * b == k * b + b) by (nonlinear_arith);
        assert(k * b <= m * b && m * b + b == n * b) by (nonlinear_arith)
            requires
                k <= m,
                b >= 0,
                n == m + 1,
        ;
    } else {
        assert(0 * b == 0) by (nonlinear_arith);
    }
}

proof fn lemma_kills_prefix(a: Seq<Option<HitReport>>, b: Seq<Option<HitReport>>, n: nat)
    requires
        n <= a.len() <= b.len(),
        forall|i: int| 0 <= i < n ==> a[i] == b[i],
    ensures
        kills_among(a, n) == kills_among(b, n),
    decreases n,
{
    if n > 0 {
        lemma_kills_prefix(a, b, (n - 1) as nat);
    }
}

/// A camper is one who has stayed within 2.5 m of one place: there its time adds up, and from
/// anywhere else it starts over.
pub proof fn campers_stay_in_one_place(camp: Camp, dt: u32, at: Point)
    requires
        camp.timer + dt <= u32::MAX,
    ensures
        camped(camp, dt, at).cooldown == (if camp.cooldown > dt {
            camp.cooldown - dt
        } else {
            0
        }),
        camp.anchor matches Some(a) && a.dist2_to(at) <= 2500 * 2500 ==> camped(camp, dt, at).anchor
            == camp.anchor && camped(camp, dt, at).timer == camp.timer + dt,
        !(camp.anchor matches Some(a) && a.dist2_to(at) <= 2500 * 2500) ==> camped(
            camp,
            dt,
            at,
        ).anchor == Some(at) && camped(camp, dt, at).timer == 0,
{
}

/// A grenade is thrown only with grenades on and the dial above its bottom, at a player who has
/// camped for five seconds less three tenths for each step of the dial, when the last one is four
/// seconds past, and when no living hunter is within 6.5 m of the camp or will be a second later.
/// The thrower is alive, in a fight and within 16 m, and nobody such is closer.
pub proof fn a_grenade_is_thrown_for_a_reason(
    camp: Camp,
    settings: Settings,
    p: Point,
    hs: Seq<Hunter>,
    dt: u32,
    after: Camp,
    i: usize,
    k: int,
)
    requires
        is_flushed(camp, settings, Some(p), hs, dt, after, Some(i)),
        settings.difficulty <= 10,
        camp.timer + dt <= u32::MAX,
        0 <= k < hs.len(),
        !hs[k].dead,
    ensures
        settings.grenades && settings.difficulty > 0,
        camp.cooldown <= dt,
        ({
            let anchor = if camp.anchor matches Some(a) && a.dist2_to(p) <= 2500 * 2500 {
                camp.anchor->0
            } else {
                p
            };
            let stayed = if camp.anchor matches Some(a) && a.dist2_to(p) <= 2500 * 2500 {
                camp.timer + dt
            } else {
                0
            };
            &&& stayed >= 6000 - 360 * settings.difficulty
            &&& hs[k].pos.dist2_to(anchor) >= 6500 * 6500
            &&& hs[k].pos.dist2_after(hs[k].vel, anchor) >= 6500 * 6500
            &&& i < hs.len() && !hs[i as int].dead && hs[i as int].engaged
                && hs[i as int].pos.dist2_to(anchor) <= 16_000 * 16_000
            &&& hs[k].engaged && hs[k].pos.dist2_to(anchor) <= 16_000 * 16_000
                ==> hs[i as int].pos.dist2_to(anchor) <= hs[k].pos.dist2_to(anchor)
            &&& hs[k].engaged && hs[k].pos.dist2_to(anchor) <= 16_000 * 16_000 && k < i
                ==> hs[i as int].pos.dist2_to(anchor) < hs[k].pos.dist2_to(anchor)
            &&& after.anchor == Some(anchor) && after.timer == 0 && after.cooldown == 4800
        }),
{
    let c = camped(camp, dt, p);
    let anchor = c.anchor->0;
    campers_stay_in_one_place(camp, dt, p);
    grenades_spare_the_pack(hs, anchor, k);
    if hs[k].engaged && hs[k].pos.dist2_to(anchor) <= 16_000 * 16_000 {
        assert(can_throw(hs[k], anchor));
    }
}

/// When everything is there for a grenade, one is thrown.
pub proof fn a_grenade_is_thrown_when_it_can_be(
    camp: Camp,
    settings: Settings,
    p: Point,
    hs: Seq<Hunter>,
    dt: u32,
    after: Camp,
    thrower: Option<usize>,
    a: Point,
    k: int,
)
    requires
        is_flushed(camp, settings, Some(p), hs, dt, after, thrower),
        settings.grenades,
        0 < settings.difficulty <= 10,
        camp.anchor == Some(a),
        a.dist2_to(p) <= 2500 * 2500,
        camp.timer + dt <= u32::MAX,
        camp.timer + dt >= 6000 - 360 * settings.difficulty,
        camp.cooldown <= dt,
        forall|j: int|
            0 <= j < hs.len() && !(#[trigger] hs[j]).dead ==> hs[j].pos.dist2_to(a) >= 6500 * 6500
                && hs[j].pos.dist2_after(hs[j].vel, a) >= 6500 * 6500,
        0 <= k < hs.len(),
        !hs[k].dead,
        hs[k].engaged,
        hs[k].pos.dist2_to(a) <= 16_000 * 16_000,
    ensures
        thrower is Some,
{
    campers_stay_in_one_place(camp, dt, p);
    assert(can_throw(hs[k], a));
    assert(!someone_close(hs, a));
}

/// With grenades off, or at the bottom of the dial, no camp is kept and nothing is thrown; and
/// nothing is thrown without a player.
pub proof fn no_grenades_no_camps(
    camp: Camp,
    settings: Settings,
    at: Option<Point>,
    hs: Seq<Hunter>,
    dt: u32,
    after: Camp,
    thrower: Option<usize>,
)
    requires
        is_flushed(camp, settings, at, hs, dt, after, thrower),
    ensures
        !settings.grenades || settings.difficulty == 0 ==> thrower is None && after.anchor is None
            && after.timer == 0,
        at is None ==> thrower is None,
        thrower is None && camp.cooldown > dt ==> after.cooldown == camp.cooldown - dt,
        thrower is None && camp.cooldown <= dt ==> after.cooldown == 0,
{
}

/// A round that lands takes its damage off the player, or hits a living hunter in the torso; for
/// anyone else nothing happens.
pub proof fn a_round_lands_on_its_victim(
    before: World,
    victim: Target,
    damage: u32,
    part: Option<usize>,
    after: World,
    r: Option<HitReport>,
)
    requires
        World::is_landed(before, victim, damage, part, after, r),
        before.player.wf(),
    ensures
        victim is Player ==> r is None && after.hunters@ == before.hunters@ && (
        !before.player.invulnerable && !before.player.dead ==> before.player.health
            + before.player.armor == after.player.health + after.player.armor + (if damage
            <= before.player.health + before.player.armor {
            damage as int
        } else {
            before.player.health + before.player.armor
        })),
        victim matches Target::Hunter(j) ==> {
            let there = j < before.hunters@.len() && !before.hunters@[j as int].dead;
            &&& !there ==> r is None && after == before
            &&& there ==> {
                let h = before.hunters@[j as int];
                &&& r is Some && r->0.zone is Torso && r->0.damage == damage
                &&& after.hunters@.len() == before.hunters@.len()
                &&& after.hunters@[j as int].hit_part == part
                &&& after.hunters@[j as int].dead <==> damage >= h.health
                &&& damage < h.health ==> after.hunters@[j as int].health == h.health - damage
                &&& damage < h.health ==> after.arms == before.arms
                &&& damage >= h.health && before.arms.credits + before.arms.bounty <= u32::MAX
                    ==> after.arms.credits == before.arms.credits + before.arms.bounty
                &&& after.player == before.player
                &&& forall|i: int|
                    0 <= i < before.hunters@.len() && i != j ==> #[trigger] after.hunters@[i]
                        == before.hunters@[i]
            }
        },
{
    if victim is Player && !before.player.dead && !before.player.invulnerable {
        crate::player::damage_is_paid_in_full(before.player, damage);
    }
}

/// A spark shows until its time is up, and then is gone.
pub proof fn sparks_fade(s: Seq<Spark>, dt: u32, n: nat)
    requires
        n <= s.len(),
    ensures
        sparks_left(s, dt, n) == s.take(n as int).filter(|x: Spark| x.ttl > dt).map_values(|x: Spark| Spark { pos: x.pos, ttl: (x.ttl - dt) as u32 }),
    decreases n,
{
    reveal(Seq::filter);
    let t = s.take(n as int);
    if n > 0 {
        sparks_fade(s, dt, (n - 1) as nat);
        assert(t.drop_last() =~= s.take(n - 1));
        assert(t.last() == s[n - 1]);
    } else {
        assert(t =~= Seq::empty());
    }
    assert(sparks_left(s, dt, n) =~= t.filter(|x: Spark| x.ttl > dt).map_values(|x: Spark| Spark { pos: x.pos, ttl: (x.ttl - dt) as u32 }));
}

} // verus!
