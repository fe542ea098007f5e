//! One hunter: its body, its gun, and when it may shoot.
use vstd::prelude::*;

use crate::space::Point;
use crate::ticks::{advance, count_down, later, left};

verus! {

/// What a hunter is about.
#[derive(Clone, Copy, PartialEq, Eq, Debug, Structural)]
pub enum AiState {
    Idle,
    Search,
    Investigate,
    Fetch,
    Alert,
    Chase,
    Attack,
    Cooldown,
    TakeCover,
    Peek,
}

impl AiState {
    /// Whether a hunter in this state is fighting someone.
    pub open spec fn fights(self) -> bool {
        match self {
            AiState::Alert | AiState::Chase | AiState::Attack | AiState::Cooldown
            | AiState::TakeCover | AiState::Peek => true,
            _ => false,
        }
    }

    pub fn is_fighting(self) -> (b: bool)
        ensures
            b == self.fights(),
    {
        match self {
            AiState::Alert => true,
            AiState::Chase => true,
            AiState::Attack => true,
            AiState::Cooldown => true,
            AiState::TakeCover => true,
            AiState::Peek => true,
            AiState::Idle => false,
            AiState::Search => false,
            AiState::Investigate => false,
            AiState::Fetch => false,
        }
    }
}

/// Who a hunter means to shoot.
#[derive(Clone, Copy, PartialEq, Eq, Debug, Structural)]
pub enum Target {
    Player,
    Hunter(usize),
}

/// What the body of a hunter adds to the readout of its aim model.
#[derive(Clone, Copy, PartialEq, Eq, Debug, Structural)]
pub struct PdDebug {
    pub id: usize,
    pub health: u32,
    pub max_health: u32,
    pub dead: bool,
    pub state: AiState,
    /// The hunter it means to shoot, where it is one.
    pub target_hunter: Option<usize>,
    /// How far the attack animation stands off the aim, while a burst runs.
    pub fire_offset: Option<i32>,
}

/// Which engagement model the hunters follow.
#[derive(Clone, Copy, PartialEq, Eq, Debug, Structural)]
pub enum AiMode {
    Ours,
    Pd,
}

#[derive(Clone, Copy, PartialEq, Eq, Debug, Structural)]
pub enum WeaponClass {
    Pistol,
    Rifle,
}

/// A weapon as a hunter carries it. Damage is in thousandths of a point.
#[derive(Clone, Copy, PartialEq, Eq, Debug, Structural)]
pub struct WeaponSpec {
    /// Which weapon of the arsenal it is.
    pub id: usize,
    pub class: WeaponClass,
    pub automatic: bool,
    /// Time between two rounds fired one by one.
    pub interval: u32,
    pub damage: u32,
    /// Rounds in a full magazine.
    pub clip: u32,
    /// How long a reload takes.
    pub reload: u32,
    pub unarmed: bool,
}

/// When a burst may shoot and when it is over, counted from the start of its animation, and
/// how far the body stands sideways to the target.
#[derive(Clone, Copy, PartialEq, Eq, Debug, Structural)]
pub struct FireTiming {
    pub start: u32,
    pub shoot_from: u32,
    pub shoot_to: u32,
    pub recoil_from: u32,
    pub recoil_to: u32,
    pub end: u32,
    pub angle_offset: i32,
}

#[derive(Clone, Copy, PartialEq, Eq, Debug, Structural)]
pub struct Hunter {
    pub pos: Point,
    /// How it moves, in millimetres per second.
    pub vel: Point,
    pub state: AiState,
    /// Whether its own senses have it in a fight.
    pub engaged: bool,
    /// Where it last knew the player to be.
    pub last_known: Option<Point>,
    /// Where it was sent to look.
    pub search_target: Option<Point>,
    /// Health left and at the start, in thousandths of a point.
    pub health: u32,
    pub max_health: u32,
    pub dead: bool,
    /// Which body it wears.
    pub body: usize,
    pub weapon: WeaponSpec,
    /// A second copy of the weapon in the other hand.
    pub dual: bool,
    /// The capsule that shots are tested against.
    pub collider: u64,
    /// Whether it carries the aim model.
    pub simulant: bool,
    /// Who the aim model has picked.
    pub target: Option<Target>,
    /// What the overlay of the laboratory shows of its last step with the aim model.
    pub pd_debug: Option<PdDebug>,
    /// Whether its clips come with authored reactions.
    pub pd_anims: bool,
    /// The body part that the last shot landed on.
    pub hit_part: Option<usize>,
    /// Time since the corpse began to fade.
    pub fade: Option<u32>,
    /// Time until the next round of the burst.
    pub shot_timer: u32,
    /// Rounds left in the magazine, and spare ones.
    pub loaded: u32,
    pub reserve: u32,
    /// What is left of a reload.
    pub reload_timer: u32,
    /// How long its target has been out of sight.
    pub unseen: u32,
    /// Rounds already sent in the current burst.
    pub burst_shot: u32,
    /// How long the current burst has run.
    pub fire_elapsed: Option<u32>,
    pub fire: FireTiming,
    pub muzzle_timer: u32,
    /// The way its body is drawn facing, once it has been drawn.
    pub render_yaw: Option<i32>,
    /// The rigid bodies of its corpse, and how long they have moved.
    pub ragdoll: Option<u64>,
    pub ragdoll_time: u32,
    /// The rigid bodies of a stagger, and how long it has lasted.
    pub reaction: Option<u64>,
    pub reaction_time: u32,
}

/// How long the burst stays up after its last shot.
pub const ENEMY_FIRE_TAIL: u32 = 300;

/// How long a muzzle flash shows.
pub const ENEMY_MUZZLE_TIME: u32 = 120;

/// Rounds in a burst.
pub const PD_BURST_ROUNDS: u32 = 3;

/// Time between two rounds of a burst.
pub const PD_BURST_SPACING: u32 = 100;

/// Time between two bursts.
pub const PD_BURST_GAP: u32 = 480;

/// A partial magazine is topped up once the target has been out of sight for longer than this.
pub const PD_RELOAD_UNSEEN: u32 = 2400;

impl FireTiming {
    /// Whether a round may leave at `t`.
    pub open spec fn shooting(self, t: u32) -> bool {
        self.shoot_from <= t <= self.shoot_to
    }

    /// Whether a shot at `t` kicks.
    pub open spec fn recoiling(self, t: u32) -> bool {
        self.recoil_from <= t <= self.recoil_to
    }

    /// Whether the burst is over at `t`.
    pub open spec fn over(self, t: u32) -> bool {
        t >= self.shoot_to + ENEMY_FIRE_TAIL && t >= self.end
    }
}

/// What one step of a burst does.
#[derive(Clone, Copy, PartialEq, Eq, Debug, Structural)]
pub struct FireStep {
    /// A round leaves the barrel.
    pub shot: bool,
    /// The burst is over and left the body standing sideways.
    pub ended_sideways: bool,
}

impl Hunter {
    /// Whether it fires in bursts.
    pub open spec fn fires_bursts(self) -> bool {
        self.simulant && self.weapon.automatic
    }

    /// Whether the trigger is due a time `dt` from now: a burst is running, its window is
    /// open, and the wait for the next round is over.
    pub open spec fn trigger_due(self, dt: u32) -> bool {
        self.fire_elapsed matches Some(t) && self.fire.shooting(later(t, dt)) && self.shot_timer
            <= dt
    }

    /// Whether a round can leave: only Perfect Dark's rules count them.
    pub open spec fn has_round(self, mode: AiMode) -> bool {
        mode == AiMode::Ours || self.loaded > 0
    }

    /// The wait after a round, and the rounds of the burst that are then out.
    pub open spec fn after_round(self) -> (u32, u32) {
        if !self.fires_bursts() {
            (self.weapon.interval, self.burst_shot)
        } else if self.burst_shot + 1 >= PD_BURST_ROUNDS {
            (PD_BURST_GAP, 0)
        } else {
            (PD_BURST_SPACING, (self.burst_shot + 1) as u32)
        }
    }

    /// The hunter after a time `dt` of a burst, or of none.
    pub open spec fn fire_stepped(self, dt: u32, mode: AiMode) -> Hunter {
        match self.fire_elapsed {
            None => Hunter { shot_timer: 0, burst_shot: 0, ..self },
            Some(t) => {
                let now = later(t, dt);
                let shot = self.trigger_due(dt) && self.has_round(mode);
                Hunter {
                    shot_timer: if shot {
                        self.after_round().0
                    } else if self.fire.shooting(now) {
                        left(self.shot_timer, dt)
                    } else {
                        self.shot_timer
                    },
                    burst_shot: if shot {
                        self.after_round().1
                    } else {
                        self.burst_shot
                    },
                    loaded: if shot && mode == AiMode::Pd {
                        (self.loaded - 1) as u32
                    } else {
                        self.loaded
                    },
                    fire_elapsed: if self.fire.over(now) {
                        None
                    } else {
                        Some(now)
                    },
                    ..self
                }
            },
        }
    }

    /// Runs a burst for a time `dt`.
    pub fn fire_step(&mut self, dt: u32, mode: AiMode) -> (s: FireStep)
        ensures
            *final(self) == old(self).fire_stepped(dt, mode),
            s.shot == (old(self).trigger_due(dt) && old(self).has_round(mode)),
            s.ended_sideways == (old(self).fire_elapsed is Some && final(self).fire_elapsed is None
                && old(self).fire.angle_offset != 0),
    {
        let t: u32 = match self.fire_elapsed {
            None => {
                self.shot_timer = 0;
                self.burst_shot = 0;
                return FireStep { shot: false, ended_sideways: false };
            },
            Some(t) => advance(t, dt),
        };
        let mut shot: bool = false;
        if self.fire.shoot_from <= t && t <= self.fire.shoot_to {
            let due: bool = self.shot_timer <= dt;
            self.shot_timer = count_down(self.shot_timer, dt);
            if due && (mode == AiMode::Ours || self.loaded > 0) {
                shot = true;
                if mode == AiMode::Pd {
                    self.loaded = self.loaded - 1;
                }
                if self.simulant && self.weapon.automatic {
                    if self.burst_shot >= PD_BURST_ROUNDS - 1 {
                        self.burst_shot = 0;
                        self.shot_timer = PD_BURST_GAP;
                    } else {
                        self.burst_shot = self.burst_shot + 1;
                        self.shot_timer = PD_BURST_SPACING;
                    }
                } else {
                    self.shot_timer = self.weapon.interval;
                }
            }
        }
        let over: bool = t as u64 >= self.fire.shoot_to as u64 + ENEMY_FIRE_TAIL as u64 && t
            >= self.fire.end;
        self.fire_elapsed = if over {
            None
        } else {
            Some(t)
        };
        FireStep { shot, ended_sideways: over && self.fire.angle_offset != 0 }
    }

    /// Drops the trigger.
    pub open spec fn ceased(self) -> Hunter {
        Hunter { fire_elapsed: None, shot_timer: 0, burst_shot: 0, ..self }
    }

    pub fn stop_fire(&mut self)
        ensures
            *final(self) == old(self).ceased(),
    {
        self.fire_elapsed = None;
        self.shot_timer = 0;
        self.burst_shot = 0;
    }

    /// Starts a burst, on another attack animation when one was chosen.
    pub fn start_fire(&mut self, row: Option<FireTiming>)
        ensures
            ({
                let fire = match row {
                    Some(f) => f,
                    None => old(self).fire,
                };
                *final(self) == (Hunter {
                    fire,
                    fire_elapsed: Some(fire.start),
                    shot_timer: 0,
                    ..*old(self)
                })
            }),
    {
        if let Some(f) = row {
            self.fire = f;
        }
        self.fire_elapsed = Some(self.fire.start);
        self.shot_timer = 0;
    }

    // ---- Reloading, by Perfect Dark's rule ----

    /// Whether a reload is due: out of rounds, or below half a magazine with the target out
    /// of sight for a while. There must be something to reload from.
    pub open spec fn reload_due(self) -> bool {
        &&& self.reload_timer == 0
        &&& self.reserve > 0
        &&& self.loaded == 0 || (2 * self.loaded < self.weapon.clip && self.unseen
            > PD_RELOAD_UNSEEN)
    }

    /// The rounds that a reload moves from the reserve to the magazine.
    pub open spec fn refill(self) -> u32 {
        let room = left(self.weapon.clip, self.loaded);
        if room < self.reserve {
            room
        } else {
            self.reserve
        }
    }

    /// The hunter after a time `dt`, its target in sight or not.
    pub open spec fn reload_stepped(self, dt: u32, seen: bool) -> Hunter {
        let h = Hunter {
            unseen: if seen {
                0
            } else {
                later(self.unseen, dt)
            },
            ..self
        };
        if h.reload_timer > dt {
            Hunter { reload_timer: (h.reload_timer - dt) as u32, ..h }
        } else if h.reload_timer > 0 {
            Hunter {
                reload_timer: 0,
                loaded: (h.loaded + h.refill()) as u32,
                reserve: (h.reserve - h.refill()) as u32,
                ..h
            }
        } else if h.reload_due() {
            Hunter { reload_timer: h.weapon.reload, ..h }
        } else {
            h
        }
    }

    /// Runs the reload rule for a time `dt`.
    pub fn reload_step(&mut self, dt: u32, seen: bool)
        ensures
            *final(self) == old(self).reload_stepped(dt, seen),
    {
        self.unseen = if seen {
            0
        } else {
            advance(self.unseen, dt)
        };
        if self.reload_timer > dt {
            self.reload_timer = self.reload_timer - dt;
        } else if self.reload_timer > 0 {
            self.reload_timer = 0;
            let room: u32 = count_down(self.weapon.clip, self.loaded);
            let take: u32 = if room < self.reserve {
                room
            } else {
                self.reserve
            };
            self.loaded = self.loaded + take;
            self.reserve = self.reserve - take;
        } else if self.reserve > 0 && (self.loaded == 0 || (2 * (self.loaded as u64)
            < self.weapon.clip as u64 && self.unseen > PD_RELOAD_UNSEEN)) {
            self.reload_timer = self.weapon.reload;
        }
    }

    // ---- Damage ----

    /// Alive exactly while there is health left.
    pub open spec fn wf(self) -> bool {
        self.dead == (self.health == 0)
    }

    pub open spec fn hurt(self, dmg: u32) -> Hunter {
        let health = left(self.health, dmg);
        Hunter { health, dead: self.dead || health == 0, ..self }
    }

    /// Takes a hit; tells whether it was the last one.
    pub fn take_damage(&mut self, dmg: u32) -> (died: bool)
        requires
            !old(self).dead,
        ensures
            *final(self) == old(self).hurt(dmg),
            died == final(self).dead,
            old(self).wf() ==> final(self).wf(),
    {
        self.health = count_down(self.health, dmg);
        if self.health == 0 {
            self.dead = true;
            true
        } else {
            false
        }
    }
}

// ---- Laws of fire ----

/// A burst weapon waits out the long pause after its last round, and only then starts to
/// count a new burst.
pub proof fn a_burst_ends_in_a_pause(h: Hunter, dt: u32, mode: AiMode)
    requires
        h.fires_bursts(),
        h.trigger_due(dt),
        h.has_round(mode),
        h.burst_shot < PD_BURST_ROUNDS,
    ensures
        h.burst_shot == PD_BURST_ROUNDS - 1 ==> h.fire_stepped(dt, mode).shot_timer == PD_BURST_GAP
            && h.fire_stepped(dt, mode).burst_shot == 0,
        h.burst_shot < PD_BURST_ROUNDS - 1 ==> h.fire_stepped(dt, mode).shot_timer
            == PD_BURST_SPACING && h.fire_stepped(dt, mode).burst_shot == h.burst_shot + 1,
{
}

/// The number of rounds out in the current burst never reaches the length of a burst: no
/// more than that many rounds ever leave back to back.
pub proof fn bursts_stay_short(h: Hunter, dt: u32, mode: AiMode)
    requires
        h.burst_shot < PD_BURST_ROUNDS,
    ensures
        h.fire_stepped(dt, mode).burst_shot < PD_BURST_ROUNDS,
{
}

/// A round never leaves before the wait since the last one is over.
pub proof fn rounds_keep_their_distance(h: Hunter, dt: u32)
    requires
        h.shot_timer > dt,
    ensures
        !h.trigger_due(dt),
{
}

/// The hunter after `n` steps of length `dt`.
pub open spec fn fire_run(h: Hunter, dt: u32, mode: AiMode, n: nat) -> Hunter
    decreases n,
{
    if n == 0 {
        h
    } else {
        fire_run(h, dt, mode, (n - 1) as nat).fire_stepped(dt, mode)
    }
}

/// However long a burst runs, the rounds out in the current burst stay below the burst
/// length.
pub proof fn bursts_stay_short_throughout(h: Hunter, dt: u32, mode: AiMode, n: nat)
    requires
        h.burst_shot < PD_BURST_ROUNDS,
    ensures
        fire_run(h, dt, mode, n).burst_shot < PD_BURST_ROUNDS,
    decreases n,
{
    if n > 0 {
        bursts_stay_short_throughout(h, dt, mode, (n - 1) as nat);
    }
}

/// Rounds are neither made nor lost by a reload.
pub proof fn a_reload_moves_rounds(h: Hunter, dt: u32, seen: bool)
    ensures
        h.reload_stepped(dt, seen).loaded + h.reload_stepped(dt, seen).reserve == h.loaded
            + h.reserve,
        h.loaded <= h.weapon.clip ==> h.reload_stepped(dt, seen).loaded <= h.weapon.clip,
{
}

/// A hunter that runs dry reloads as soon as it can, and one that sees its target does not
/// top up a magazine that still holds rounds.
pub proof fn reloads_start_when_they_must(h: Hunter, dt: u32)
    requires
        h.reload_timer == 0,
        h.reserve > 0,
    ensures
        h.loaded == 0 ==> h.reload_stepped(dt, true).reload_timer == h.weapon.reload,
        h.loaded > 0 ==> h.reload_stepped(dt, true).reload_timer == 0,
{
}

/// Whether a round is due of a hunter at the trigger: its burst is running, the animation is in
/// its shooting part, the time since the last round is up, and, by Perfect Dark's rule, there is
/// a round to fire.
pub open spec fn round_leaves(h: Hunter, dt: u32, mode: AiMode) -> bool {
    &&& h.fire_elapsed matches Some(t) && h.fire.shoot_from <= t + dt <= h.fire.shoot_to
    &&& h.shot_timer <= dt
    &&& mode == AiMode::Pd ==> h.loaded > 0
}

/// A round leaves exactly when one is due. It takes one from the magazine by Perfect Dark's rule
/// and none otherwise, and the next waits for the weapon's interval; an automatic in the hand of
/// a simulant waits a twelfth of a second between the three rounds of a burst, and four tenths
/// after the third.
pub proof fn rounds_leave_when_they_are_due(h: Hunter, dt: u32, mode: AiMode)
    requires
        h.fire_elapsed matches Some(t) ==> t + dt <= u32::MAX,
    ensures
        h.trigger_due(dt) && h.has_round(mode) <==> round_leaves(h, dt, mode),
        round_leaves(h, dt, mode) ==> {
            let after = h.fire_stepped(dt, mode);
            &&& mode == AiMode::Pd ==> after.loaded == h.loaded - 1
            &&& mode == AiMode::Ours ==> after.loaded == h.loaded
            &&& !(h.simulant && h.weapon.automatic) ==> after.shot_timer == h.weapon.interval
                && after.burst_shot == h.burst_shot
            &&& h.simulant && h.weapon.automatic && h.burst_shot < 2 ==> after.shot_timer == 100
                && after.burst_shot == h.burst_shot + 1
            &&& h.simulant && h.weapon.automatic && h.burst_shot >= 2 ==> after.shot_timer == 480
                && after.burst_shot == 0
        },
        !round_leaves(h, dt, mode) ==> h.fire_stepped(dt, mode).loaded == h.loaded,
        h.fire_elapsed is Some && !round_leaves(h, dt, mode) ==> h.fire_stepped(
            dt,
            mode,
        ).burst_shot == h.burst_shot,
{
}

/// A burst runs until a quarter of a second after the last shot and to the end of the animation,
/// whichever comes later; without one there is nothing to wait for. Between rounds the wait
/// runs down in the shooting part of the animation and stands still outside it. Nothing else
/// about the hunter changes.
pub proof fn bursts_run_their_course(h: Hunter, dt: u32, mode: AiMode)
    requires
        h.fire_elapsed matches Some(t) ==> t + dt <= u32::MAX,
    ensures
        h.fire_elapsed is None ==> h.fire_stepped(dt, mode) == (Hunter {
            shot_timer: 0,
            burst_shot: 0,
            ..h
        }),
        h.fire_elapsed matches Some(t) ==> h.fire_stepped(dt, mode).fire_elapsed == (if t + dt
            >= h.fire.shoot_to + 300 && t + dt >= h.fire.end {
            None
        } else {
            Some((t + dt) as u32)
        }),
        h.fire_elapsed matches Some(t) ==> !round_leaves(h, dt, mode) ==> h.fire_stepped(
            dt,
            mode,
        ).shot_timer == (if h.fire.shoot_from <= t + dt <= h.fire.shoot_to {
            if h.shot_timer <= dt {
                0
            } else {
                h.shot_timer - dt
            }
        } else {
            h.shot_timer as int
        }),
        h.fire_stepped(dt, mode) == (Hunter {
            fire_elapsed: h.fire_stepped(dt, mode).fire_elapsed,
            shot_timer: h.fire_stepped(dt, mode).shot_timer,
            burst_shot: h.fire_stepped(dt, mode).burst_shot,
            loaded: h.fire_stepped(dt, mode).loaded,
            ..h
        }),
{
}

/// A reload under way ends when its time is up and then fills the magazine from the spare rounds
/// as far as both allow. None under way, one starts for an empty magazine, and for one less than
/// half full once the target has been out of sight for more than two seconds, while there are
/// spare rounds; and only then.
pub proof fn reloads_follow_the_rule(h: Hunter, dt: u32, seen: bool)
    requires
        h.unseen + dt <= u32::MAX,
        h.loaded <= h.weapon.clip,
    ensures
        ({
            let after = h.reload_stepped(dt, seen);
            let unseen = if seen {
                0
            } else {
                h.unseen + dt
            };
            &&& after.unseen == unseen
            &&& h.reload_timer > dt ==> after.reload_timer == h.reload_timer - dt && after.loaded
                == h.loaded && after.reserve == h.reserve
            &&& 0 < h.reload_timer <= dt ==> {
                &&& after.reload_timer == 0
                &&& after.loaded + after.reserve == h.loaded + h.reserve
                &&& after.loaded >= h.loaded
                &&& after.loaded == h.weapon.clip || after.reserve == 0
                &&& after.loaded <= h.weapon.clip
            }
            &&& h.reload_timer == 0 ==> {
                &&& after.loaded == h.loaded && after.reserve == h.reserve
                &&& after.reload_timer == (if h.reserve > 0 && (h.loaded == 0 || (2 * h.loaded
                    < h.weapon.clip && unseen > 2400)) {
                    h.weapon.reload
                } else {
                    0
                })
            }
            &&& after == (Hunter {
                unseen: after.unseen,
                reload_timer: after.reload_timer,
                loaded: after.loaded,
                reserve: after.reserve,
                ..h
            })
        }),
{
}

/// Damage comes off a hunter's health and nothing else; it dies when none is left, and the dead
/// stay dead.
pub proof fn damage_comes_off_health(h: Hunter, dmg: u32)
    ensures
        dmg < h.health ==> h.hurt(dmg).health + dmg == h.health,
        dmg >= h.health ==> h.hurt(dmg).health == 0,
        h.hurt(dmg).dead <==> h.dead || dmg >= h.health,
        h.hurt(dmg) == (Hunter { health: h.hurt(dmg).health, dead: h.hurt(dmg).dead, ..h }),
{
}

/// A hunter that stops firing has no burst, no wait and no count of rounds, and is otherwise as
/// it was.
pub proof fn stopping_ends_the_burst(h: Hunter)
    ensures
        h.ceased().fire_elapsed is None && h.ceased().shot_timer == 0 && h.ceased().burst_shot == 0,
        h.ceased() == (Hunter { fire_elapsed: None, shot_timer: 0, burst_shot: 0, ..h }),
{
}

/// A hunter that is idle, looking or fetching is not in a fight; any other is.
pub proof fn searchers_do_not_fight(s: AiState)
    ensures
        s.fights() <==> !(s is Idle || s is Search || s is Investigate || s is Fetch),
{
}

/// The pistol's recoil shows from the start to the end of its part of the animation.
pub proof fn recoil_has_its_window(f: FireTiming, t: u32)
    ensures
        f.recoiling(t) <==> f.recoil_from <= t && t <= f.recoil_to,
{
}

} // verus!
