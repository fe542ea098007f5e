//! The hunters between the steps of the simulation: what is animated and drawn of them, what
//! becomes of their corpses, and the doors they break.
use vstd::prelude::*;

use crate::explosives::{Mine, Projectile};
use crate::hunter::{AiState, Hunter, WeaponClass};
use crate::space::Point;
use crate::ticks::{advance, count_down, later, left};
use crate::world::{Mode, World};

verus! {

/// The clip slots of the three ways to fire.
pub const FIRE_RIFLE_IDX: usize = 4;

pub const FIRE_PISTOL_IDX: usize = 5;

pub const FIRE_DUAL_IDX: usize = 6;

/// How long a corpse takes to fade.
pub const FADE_DURATION: u32 = 2400;

/// When a corpse fades even if it has not come to rest.
pub const RAGDOLL_MAX_SETTLE: u32 = 7200;

/// How long a stagger is blended in: its weight starts at 0.6 and falls by a factor of e in a
/// seventh of a second, so after this time it is below 0.03.
pub const REACTION_LIFE: u32 = 514;

/// How high above the feet a hunter aims and looks.
pub const PLAYER_AIM_Y: u32 = 1000;

/// Whether a clip slot is one of the ways to fire.
pub fn is_fire_clip(idx: usize) -> (b: bool)
    ensures
        b == (idx == FIRE_RIFLE_IDX || idx == FIRE_PISTOL_IDX || idx == FIRE_DUAL_IDX),
{
    idx == FIRE_RIFLE_IDX || idx == FIRE_PISTOL_IDX || idx == FIRE_DUAL_IDX
}

/// The clip slot that a hunter fires with.
pub open spec fn fire_slot(class: WeaponClass, dual: bool) -> usize {
    if dual {
        FIRE_DUAL_IDX
    } else {
        match class {
            WeaponClass::Pistol => FIRE_PISTOL_IDX,
            WeaponClass::Rifle => FIRE_RIFLE_IDX,
        }
    }
}

pub fn fire_clip_for(class: WeaponClass, dual: bool) -> (idx: usize)
    ensures
        idx == fire_slot(class, dual),
{
    if dual {
        FIRE_DUAL_IDX
    } else {
        match class {
            WeaponClass::Pistol => FIRE_PISTOL_IDX,
            WeaponClass::Rifle => FIRE_RIFLE_IDX,
        }
    }
}

/// When the shots of each way to fire leave, as far as that is known, and when they leave
/// otherwise.
#[derive(Clone, Copy, PartialEq, Eq, Debug)]
pub struct FireWindows {
    pub pistol: Option<(u32, u32)>,
    pub rifle: Option<(u32, u32)>,
    pub dual: Option<(u32, u32)>,
    pub fallback: (u32, u32),
}

/// When the shots of a weapon leave.
pub fn fire_window_for(class: WeaponClass, dual: bool, w: &FireWindows) -> (window: (u32, u32))
    ensures
        window == match (if dual {
            w.dual
        } else {
            match class {
                WeaponClass::Pistol => w.pistol,
                WeaponClass::Rifle => w.rifle,
            }
        }) {
            Some(x) => x,
            None => w.fallback,
        },
{
    let found: Option<(u32, u32)> = if dual {
        w.dual
    } else {
        match class {
            WeaponClass::Pistol => w.pistol,
            WeaponClass::Rifle => w.rifle,
        }
    };
    match found {
        Some(x) => x,
        None => w.fallback,
    }
}

/// The gait for a speed: standing, walking, jogging or running.
pub fn band_for_speed(speed: u32, jog: u32, run: u32) -> (band: usize)
    ensures
        band == if speed >= run {
            3
        } else if speed >= jog {
            2
        } else if speed > 0 {
            1
        } else {
            0int
        },
{
    if speed >= run {
        3
    } else if speed >= jog {
        2
    } else if speed > 0 {
        1
    } else {
        0
    }
}

// ---- Facing ----

/// Angle units in a full turn.
pub const TURN: i32 = 65536;

/// Angle units in half a turn.
pub const HALF_TURN: i32 = 32768;

/// Whether an angle is at most half a turn either way.
pub open spec fn is_angle(a: int) -> bool {
    -HALF_TURN <= a <= HALF_TURN
}

/// The angle brought back by a turn when it is past half a turn.
pub open spec fn wrapped_angle(a: int) -> int {
    if a > HALF_TURN {
        a - TURN
    } else if a < -HALF_TURN {
        a + TURN
    } else {
        a
    }
}

/// The angle brought back by as many turns as it takes.
pub open spec fn unwound(a: int) -> int {
    if a > HALF_TURN {
        (a + HALF_TURN - 1) % (TURN as int) - HALF_TURN + 1
    } else if a < -HALF_TURN {
        (a + HALF_TURN) % (TURN as int) - HALF_TURN
    } else {
        a
    }
}

/// The shortest way from one angle to another.
pub open spec fn arc(from: int, to: int) -> int {
    unwound(to - from)
}

/// `v` but no further than `max` either way.
pub open spec fn limited(v: int, max: int) -> int {
    if v > max {
        max
    } else if v < -max {
        -max
    } else {
        v
    }
}

/// The angle after turning from `cur` toward `target` by at most `max`; without a past it
/// snaps.
pub open spec fn turned(cur: Option<i32>, target: i32, max: u32) -> i32 {
    match cur {
        None => target,
        Some(c) => wrapped_angle(c + limited(arc(c as int, target as int), max as int)) as i32,
    }
}

pub fn turn_toward(cur: Option<i32>, target: i32, max: u32) -> (y: i32)
    ensures
        y == turned(cur, target, max),
        is_angle(target as int) && (cur matches Some(c) ==> is_angle(c as int)) ==> is_angle(
            y as int,
        ),
{
    let c: i64 = match cur {
        None => return target,
        Some(c) => c as i64,
    };
    let half: i64 = HALF_TURN as i64;
    let turn: i64 = TURN as i64;
    let mut delta: i64 = target as i64 - c;
    if delta > half {
        delta = ((delta + half - 1) as u64 % 65536) as i64 - half + 1;
    } else if delta < -half {
        let over: i64 = ((-(delta + half)) as u64 % 65536) as i64;
        delta = if over == 0 {
            -half
        } else {
            turn - over - half
        };
    }
    let most: i64 = max as i64;
    if delta > most {
        delta = most;
    } else if delta < -most {
        delta = -most;
    }
    let mut y: i64 = c + delta;
    if y > half {
        y = y - turn;
    } else if y < -half {
        y = y + turn;
    }
    y as i32
}

/// A body never turns past what it turns to: what is left to turn shrinks by exactly the
/// step, or is gone.
pub proof fn turning_never_overshoots(cur: i32, target: i32, max: u32)
    requires
        is_angle(cur as int),
        is_angle(target as int),
    ensures
        ({
            let a = arc(cur as int, target as int);
            let y = turned(Some(cur), target, max);
            &&& is_angle(a)
            &&& -max <= a <= max ==> y == target || y == target + TURN || y == target - TURN
            &&& a > max && a < HALF_TURN ==> arc(y as int, target as int) == a - max
            &&& a < -max && a > -HALF_TURN ==> arc(y as int, target as int) == a + max
        }),
{
}

// ---- Animation ----

/// What the animation of one hunter is asked about in a frame.
#[derive(Clone, Copy, PartialEq, Eq, Debug, Structural)]
pub struct AnimInput {
    /// Whether a clip plays over the whole body, which one, and whether it has ended.
    pub oneshot: bool,
    pub clip: usize,
    pub finished: bool,
    /// Which way it wants to face, and how far it may turn in this frame.
    pub heading: i32,
    pub max_turn: u32,
    /// Where its head looks while it scans about.
    pub scan_point: Point,
    /// Whether its body, its arm rig and a floor to stand on are there.
    pub model: bool,
    pub rig: bool,
    pub floor: bool,
    /// Whether its smoothed speed is above a crawl.
    pub moving: bool,
}

/// What the animation of one hunter does in a frame.
#[derive(Clone, Copy, PartialEq, Eq, Debug, Structural)]
pub struct AnimPlan {
    /// A hit or a death plays over the whole body, in place of walking and aiming.
    pub one_shot: bool,
    /// The stride is matched to the speed over the ground.
    pub stride: bool,
    /// The gun comes up.
    pub aim: bool,
    /// What the head turns to.
    pub focus: Option<Point>,
    /// The feet are put on the floor beneath them.
    pub feet: bool,
}

/// The fade of a corpse whose death has played out.
pub open spec fn faded_by(fade: Option<u32>, dt: u32) -> Option<u32> {
    let t = later(
        match fade {
            Some(t) => t,
            None => 0,
        },
        dt,
    );
    Some(
        if t > FADE_DURATION {
            FADE_DURATION
        } else {
            t
        },
    )
}

fn fade_on(fade: Option<u32>, dt: u32) -> (f: Option<u32>)
    ensures
        f == faded_by(fade, dt),
{
    let t: u32 = advance(
        match fade {
            Some(t) => t,
            None => 0,
        },
        dt,
    );
    Some(
        if t > FADE_DURATION {
            FADE_DURATION
        } else {
            t
        },
    )
}

/// The hunter after a frame.
pub open spec fn animated(h: Hunter, dt: u32, a: AnimInput) -> Hunter {
    if h.ragdoll is Some {
        h
    } else {
        Hunter {
            render_yaw: Some(turned(h.render_yaw, a.heading, a.max_turn)),
            fade: if h.dead && a.finished {
                faded_by(h.fade, dt)
            } else {
                h.fade
            },
            ..h
        }
    }
}

/// Whether a clip plays over the whole body. Firing never does.
pub open spec fn takes_over(a: AnimInput) -> bool {
    a.oneshot && !(a.clip == FIRE_RIFLE_IDX || a.clip == FIRE_PISTOL_IDX || a.clip
        == FIRE_DUAL_IDX)
}

pub open spec fn raised_mark(p: Option<Point>) -> Option<Point> {
    match p {
        Some(p) => Some(p.above(PLAYER_AIM_Y as int)),
        None => None,
    }
}

/// What a hunter's head turns to: the player in a fight, or where it last knew the player to
/// be; that place while it investigates; and about while it looks for someone.
pub open spec fn focus_of(h: Hunter, player: Option<Point>, a: AnimInput) -> Option<Point> {
    match h.state {
        AiState::Investigate => raised_mark(h.last_known),
        AiState::Search | AiState::Idle | AiState::Fetch => Some(a.scan_point),
        _ => if player is Some {
            raised_mark(player)
        } else {
            raised_mark(h.last_known)
        },
    }
}

impl World {
    /// The plan for one hunter; there is none for a corpse that the physics moves, nor
    /// without a body to pose.
    pub open spec fn anim_plan(self, h: Hunter, a: AnimInput) -> Option<AnimPlan> {
        if h.ragdoll is Some || !a.model {
            None
        } else {
            let one_shot = takes_over(a);
            Some(
                AnimPlan {
                    one_shot,
                    stride: self.settings.foot_ik && a.moving,
                    aim: h.state.fights() && !h.dead && !one_shot,
                    focus: if !self.settings.head_look || h.dead || one_shot {
                        None
                    } else {
                        focus_of(h, self.player.pos, a)
                    },
                    feet: self.settings.foot_ik && !one_shot && a.rig && a.floor,
                },
            )
        }
    }

    fn plan_for(&self, h: &Hunter, a: &AnimInput) -> (p: Option<AnimPlan>)
        ensures
            p == self.anim_plan(*h, *a),
    {
        if h.ragdoll.is_some() || !a.model {
            return None;
        }
        let one_shot: bool = a.oneshot && !is_fire_clip(a.clip);
        let focus: Option<Point> = if !self.settings.head_look || h.dead || one_shot {
            None
        } else {
            match h.state {
                AiState::Investigate => match h.last_known {
                    Some(p) => Some(p.raised(PLAYER_AIM_Y)),
                    None => None,
                },
                AiState::Search => Some(a.scan_point),
                AiState::Idle => Some(a.scan_point),
                AiState::Fetch => Some(a.scan_point),
                _ => match self.player.pos {
                    Some(p) => Some(p.raised(PLAYER_AIM_Y)),
                    None => match h.last_known {
                        Some(p) => Some(p.raised(PLAYER_AIM_Y)),
                        None => None,
                    },
                },
            }
        };
        Some(
            AnimPlan {
                one_shot,
                stride: self.settings.foot_ik && a.moving,
                aim: h.state.is_fighting() && !h.dead && !one_shot,
                focus,
                feet: self.settings.foot_ik && !one_shot && a.rig && a.floor,
            },
        )
    }

    /// Plans a frame of animation for every hunter, turns their bodies, and lets corpses fade.
    /// Nothing is animated while building.
    pub fn advance_animation(&mut self, dt: u32, inputs: &Vec<AnimInput>) -> (plans: Vec<
        Option<AnimPlan>,
    >)
        requires
            inputs@.len() == old(self).hunters@.len(),
        ensures
            old(self).mode == Mode::Build ==> *final(self) == *old(self) && plans@.len() == 0,
            old(self).mode == Mode::Hunt ==> {
                &&& final(self).hunters@ == Seq::new(
                    old(self).hunters@.len(),
                    |i: int| animated(old(self).hunters@[i], dt, inputs@[i]),
                )
                &&& plans@ == Seq::new(
                    old(self).hunters@.len(),
                    |i: int| old(self).anim_plan(old(self).hunters@[i], inputs@[i]),
                )
            },
            *final(self) == (World { hunters: final(self).hunters, ..*old(self) }),
    {
        let mut plans: Vec<Option<AnimPlan>> = Vec::new();
        if self.mode == Mode::Build {
            return plans;
        }
        let mut k: usize = 0;
        while k < self.hunters.len()
            invariant
                k <= self.hunters@.len(),
                self.hunters@.len() == old(self).hunters@.len(),
                inputs@.len() == self.hunters@.len(),
                *self == (World { hunters: self.hunters, ..*old(self) }),
                plans@.len() == k,
                forall|j: int|
                    0 <= j < k ==> #[trigger] plans@[j] == old(self).anim_plan(
                        old(self).hunters@[j],
                        inputs@[j],
                    ),
                forall|j: int|
                    0 <= j < k ==> #[trigger] self.hunters@[j] == animated(
                        old(self).hunters@[j],
                        dt,
                        inputs@[j],
                    ),
                forall|j: int|
                    k <= j < self.hunters@.len() ==> #[trigger] self.hunters@[j] == old(
                        self).hunters@[j],
            decreases self.hunters@.len() - k,
        {
            let mut h: Hunter = self.hunters[k];
            let a: AnimInput = inputs[k];
            assert(h == old(self).hunters@[k as int]);
            let plan: Option<AnimPlan> = self.plan_for(&h, &a);
            if h.ragdoll.is_none() {
                h.render_yaw = Some(turn_toward(h.render_yaw, a.heading, a.max_turn));
                if h.dead && a.finished {
                    h.fade = fade_on(h.fade, dt);
                }
                self.hunters.set(k, h);
            }
            plans.push(plan);
            k = k + 1;
        }
        assert(self.hunters@ =~= Seq::new(
            old(self).hunters@.len(),
            |i: int| animated(old(self).hunters@[i], dt, inputs@[i]),
        ));
        assert(plans@ =~= Seq::new(
            old(self).hunters@.len(),
            |i: int| old(self).anim_plan(old(self).hunters@[i], inputs@[i]),
        ));
        plans
    }

    /// The living hunter in a fight that is closest to the player, the first if several are.
    pub open spec fn is_closest_fighter(self, player: Point, i: int) -> bool {
        &&& self.lives(i)
        &&& self.hunters@[i].state.fights()
        &&& forall|j: int|
            #[trigger] self.lives(j) && self.hunters@[j].state.fights()
                ==> self.hunters@[i].pos.dist2_to(player) <= self.hunters@[j].pos.dist2_to(player)
                && (j < i ==> self.hunters@[i].pos.dist2_to(player)
                < self.hunters@[j].pos.dist2_to(player))
    }

    /// Which hunter the animation log is about.
    pub fn log_anim_debug(&self) -> (who: Option<usize>)
        ensures
            who matches Some(i) ==> self.settings.anim_debug && (self.player.pos matches Some(p)
                && self.is_closest_fighter(p, i as int)),
            who is None ==> !self.settings.anim_debug || self.player.pos is None || forall|j: int|
                #[trigger] self.lives(j) ==> !self.hunters@[j].state.fights(),
    {
        if !self.settings.anim_debug {
            return None;
        }
        let p: Point = match self.player.pos {
            Some(p) => p,
            None => return None,
        };
        let mut best: Option<usize> = None;
        let mut near: u128 = 0;
        let mut k: usize = 0;
        while k < self.hunters.len()
            invariant
                k <= self.hunters@.len(),
                match best {
                    Some(b) => {
                        &&& b < k
                        &&& self.lives(b as int)
                        &&& self.hunters@[b as int].state.fights()
                        &&& near == self.hunters@[b as int].pos.dist2_to(p)
                        &&& forall|j: int|
                            j < k && #[trigger] self.lives(j) && self.hunters@[j].state.fights()
                                ==> near <= self.hunters@[j].pos.dist2_to(p) && (j < b ==> near
                                < self.hunters@[j].pos.dist2_to(p))
                    },
                    None => forall|j: int|
                        j < k && #[trigger] self.lives(j) ==> !self.hunters@[j].state.fights(),
                },
            decreases self.hunters@.len() - k,
        {
            let h: Hunter = self.hunters[k];
            if !h.dead && h.state.is_fighting() {
                assert(self.lives(k as int));
                let d: u128 = h.pos.dist2(&p);
                if best.is_none() || d < near {
                    best = Some(k);
                    near = d;
                }
            }
            k = k + 1;
        }
        best
    }
}

// ---- Corpses and staggers ----

/// A corpse that the physics moves after `dt`: it fades once it lies still, or has moved for
/// too long.
pub open spec fn corpse_aged(h: Hunter, dt: u32, slow: bool) -> Hunter {
    if h.ragdoll is None {
        h
    } else {
        let time = later(h.ragdoll_time, dt);
        let fade = if slow || time >= RAGDOLL_MAX_SETTLE {
            faded_by(h.fade, dt)
        } else {
            h.fade
        };
        Hunter {
            ragdoll_time: time,
            fade,
            ragdoll: if fade matches Some(t) && t >= FADE_DURATION {
                None
            } else {
                h.ragdoll
            },
            ..h
        }
    }
}

/// A stagger after `dt`: it ends when nothing of it is left to see.
pub open spec fn stagger_aged(h: Hunter, dt: u32) -> Hunter {
    if h.reaction is None {
        h
    } else {
        let time = later(h.reaction_time, dt);
        Hunter {
            reaction_time: time,
            reaction: if time >= REACTION_LIFE {
                None
            } else {
                h.reaction
            },
            ..h
        }
    }
}

/// The rigid bodies that go with a change of a hunter.
pub open spec fn let_go(before: Hunter, after: Hunter) -> Seq<u64> {
    (if before.ragdoll is Some && after.ragdoll is None {
        seq![before.ragdoll->0]
    } else {
        Seq::empty()
    }) + (if before.reaction is Some && after.reaction is None {
        seq![before.reaction->0]
    } else {
        Seq::empty()
    })
}

/// The rigid bodies that go as the first `n` hunters change.
pub open spec fn all_let_go(before: Seq<Hunter>, after: Seq<Hunter>, n: nat) -> Seq<u64>
    decreases n,
{
    if n == 0 {
        Seq::empty()
    } else {
        all_let_go(before, after, (n - 1) as nat) + let_go(before[n - 1], after[n - 1])
    }
}

/// The hunter without any rigid bodies.
pub open spec fn disembodied(h: Hunter) -> Hunter {
    Hunter { ragdoll: None, reaction: None, ..h }
}

proof fn lemma_let_go_depends_on_prefix(
    before: Seq<Hunter>,
    a: Seq<Hunter>,
    b: Seq<Hunter>,
    n: nat,
)
    requires
        n <= a.len(),
        n <= b.len(),
        forall|j: int| 0 <= j < n ==> a[j] == b[j],
    ensures
        all_let_go(before, a, n) == all_let_go(before, b, n),
    decreases n,
{
    if n > 0 {
        lemma_let_go_depends_on_prefix(before, a, b, (n - 1) as nat);
    }
}

fn age_bodies(h: Hunter, dt: u32, slow: bool, gone: &mut Vec<u64>) -> (after: Hunter)
    ensures
        after == stagger_aged(corpse_aged(h, dt, slow), dt),
        final(gone)@ == old(gone)@ + let_go(h, after),
{
    let mut after: Hunter = h;
    if let Some(rag) = h.ragdoll {
        after.ragdoll_time = advance(h.ragdoll_time, dt);
        if slow || after.ragdoll_time >= RAGDOLL_MAX_SETTLE {
            after.fade = fade_on(h.fade, dt);
        }
        let done: bool = match after.fade {
            Some(t) => t >= FADE_DURATION,
            None => false,
        };
        if done {
            after.ragdoll = None;
            gone.push(rag);
        }
    }
    if let Some(rag) = h.reaction {
        after.reaction_time = advance(h.reaction_time, dt);
        if after.reaction_time >= REACTION_LIFE {
            after.reaction = None;
            gone.push(rag);
        }
    }
    assert(gone@ =~= old(gone)@ + let_go(h, after));
    after
}

fn drop_bodies(h: Hunter, gone: &mut Vec<u64>) -> (after: Hunter)
    ensures
        after == disembodied(h),
        final(gone)@ == old(gone)@ + let_go(h, after),
{
    let mut after: Hunter = h;
    if let Some(rag) = h.ragdoll {
        after.ragdoll = None;
        gone.push(rag);
    }
    if let Some(rag) = h.reaction {
        after.reaction = None;
        gone.push(rag);
    }
    assert(gone@ =~= old(gone)@ + let_go(h, after));
    after
}

impl World {
    /// Ages the corpses and staggers by `dt`; `slow` tells of which corpses the fastest part
    /// has come to rest. The result is the rigid bodies to take out of the physics.
    pub fn advance_ragdolls(&mut self, dt: u32, slow: &Vec<bool>) -> (gone: Vec<u64>)
        requires
            slow@.len() == old(self).hunters@.len(),
        ensures
            final(self).hunters@ == Seq::new(
                old(self).hunters@.len(),
                |i: int| stagger_aged(corpse_aged(old(self).hunters@[i], dt, slow@[i]), dt),
            ),
            gone@ == all_let_go(
                old(self).hunters@,
                final(self).hunters@,
                old(self).hunters@.len(),
            ),
            *final(self) == (World { hunters: final(self).hunters, ..*old(self) }),
    {
        let mut gone: Vec<u64> = Vec::new();
        let mut hunters: Vec<Hunter> = Vec::new();
        let mut k: usize = 0;
        while k < self.hunters.len()
            invariant
                k <= self.hunters@.len(),
                slow@.len() == self.hunters@.len(),
                hunters@.len() == k,
                forall|j: int|
                    0 <= j < k ==> #[trigger] hunters@[j] == stagger_aged(
                        corpse_aged(self.hunters@[j], dt, slow@[j]),
                        dt,
                    ),
                gone@ == all_let_go(self.hunters@, hunters@, k as nat),
            decreases self.hunters@.len() - k,
        {
            let ghost before = hunters@;
            let h: Hunter = age_bodies(self.hunters[k], dt, slow[k], &mut gone);
            hunters.push(h);
            proof {
                lemma_let_go_depends_on_prefix(self.hunters@, before, hunters@, k as nat);
            }
            k = k + 1;
        }
        assert(hunters@ =~= Seq::new(
            self.hunters@.len(),
            |i: int| stagger_aged(corpse_aged(self.hunters@[i], dt, slow@[i]), dt),
        ));
        self.hunters = hunters;
        gone
    }

    /// Lets go of every rigid body of the hunters; the result is what to take out of the
    /// physics.
    pub fn clear_ragdolls(&mut self) -> (gone: Vec<u64>)
        ensures
            final(self).hunters@ == old(self).hunters@.map_values(|h: Hunter| disembodied(h)),
            gone@ == all_let_go(
                old(self).hunters@,
                final(self).hunters@,
                old(self).hunters@.len(),
            ),
            *final(self) == (World { hunters: final(self).hunters, ..*old(self) }),
    {
        let mut gone: Vec<u64> = Vec::new();
        let mut hunters: Vec<Hunter> = Vec::new();
        let mut k: usize = 0;
        while k < self.hunters.len()
            invariant
                k <= self.hunters@.len(),
                hunters@.len() == k,
                forall|j: int|
                    0 <= j < k ==> #[trigger] hunters@[j] == disembodied(self.hunters@[j]),
                gone@ == all_let_go(self.hunters@, hunters@, k as nat),
            decreases self.hunters@.len() - k,
        {
            let ghost before = hunters@;
            let h: Hunter = drop_bodies(self.hunters[k], &mut gone);
            hunters.push(h);
            proof {
                lemma_let_go_depends_on_prefix(self.hunters@, before, hunters@, k as nat);
            }
            k = k + 1;
        }
        assert(hunters@ =~= self.hunters@.map_values(|h: Hunter| disembodied(h)));
        self.hunters = hunters;
        gone
    }

    /// Gives hunter `i` the rigid bodies of its corpse, if they could be built. A stagger that
    /// was under way ends; the result is its rigid bodies.
    pub fn spawn_ragdoll(&mut self, i: usize, built: Option<u64>) -> (gone: Option<u64>)
        ensures
            i >= old(self).hunters@.len() ==> gone is None && *final(self) == *old(self),
            i < old(self).hunters@.len() ==> {
                let h = old(self).hunters@[i as int];
                &&& gone == h.reaction
                &&& final(self).hunters@ == old(self).hunters@.update(
                    i as int,
                    Hunter {
                        reaction: None,
                        ragdoll: if built is Some {
                            built
                        } else {
                            h.ragdoll
                        },
                        ..h
                    },
                )
            },
            *final(self) == (World { hunters: final(self).hunters, ..*old(self) }),
    {
        if i >= self.hunters.len() {
            return None;
        }
        let mut h: Hunter = self.hunters[i];
        let gone: Option<u64> = h.reaction;
        h.reaction = None;
        if built.is_some() {
            h.ragdoll = built;
        }
        self.hunters.set(i, h);
        gone
    }

    /// Staggers hunter `i`: a stagger that is under way starts over and is only kicked again,
    /// otherwise the hunter gets the rigid bodies that were built for it. The result tells
    /// whether there was one to kick.
    pub fn spawn_reaction(&mut self, i: usize, built: Option<u64>) -> (kick: bool)
        ensures
            i >= old(self).hunters@.len() ==> !kick && *final(self) == *old(self),
            i < old(self).hunters@.len() ==> {
                let h = old(self).hunters@[i as int];
                &&& kick == (h.reaction is Some)
                &&& final(self).hunters@ == old(self).hunters@.update(
                    i as int,
                    if kick {
                        Hunter { reaction_time: 0, ..h }
                    } else if built is Some {
                        Hunter { reaction: built, reaction_time: 0, ..h }
                    } else {
                        h
                    },
                )
            },
            *final(self) == (World { hunters: final(self).hunters, ..*old(self) }),
    {
        if i >= self.hunters.len() {
            return false;
        }
        let mut h: Hunter = self.hunters[i];
        let kick: bool = h.reaction.is_some();
        if kick {
            h.reaction_time = 0;
        } else if built.is_some() {
            h.reaction = built;
            h.reaction_time = 0;
        }
        self.hunters.set(i, h);
        kick
    }

    /// Takes the whole wave off the level. The rigid bodies are let go before the hunters that
    /// hold them are forgotten, so none of them is left behind.
    pub fn despawn_wave(&mut self) -> (gone: Vec<u64>)
        ensures
            final(self).hunters@.len() == 0,
            gone@ == bodies_held(old(self).hunters@),
            *final(self) == (World { hunters: final(self).hunters, ..*old(self) }),
    {
        let gone: Vec<u64> = self.clear_ragdolls();
        self.hunters.clear();
        gone
    }
}

/// Every rigid body that the hunters hold.
pub open spec fn bodies_held(hs: Seq<Hunter>) -> Seq<u64> {
    all_let_go(hs, hs.map_values(|h: Hunter| disembodied(h)), hs.len())
}

/// Clearing a wave leaks nothing: every rigid body that a hunter holds is handed back.
pub proof fn no_body_is_left_behind(hs: Seq<Hunter>, i: int)
    requires
        0 <= i < hs.len(),
    ensures
        hs[i].ragdoll matches Some(b) ==> bodies_held(hs).contains(b),
        hs[i].reaction matches Some(b) ==> bodies_held(hs).contains(b),
{
    lemma_handed_back(hs, hs.map_values(|h: Hunter| disembodied(h)), hs.len(), i);
}

proof fn lemma_handed_back(before: Seq<Hunter>, after: Seq<Hunter>, n: nat, i: int)
    requires
        n <= before.len() == after.len(),
        0 <= i < n,
        after[i].ragdoll is None,
        after[i].reaction is None,
    ensures
        before[i].ragdoll matches Some(b) ==> all_let_go(before, after, n).contains(b),
        before[i].reaction matches Some(b) ==> all_let_go(before, after, n).contains(b),
    decreases n,
{
    let rest = all_let_go(before, after, (n - 1) as nat);
    let here = let_go(before[n - 1], after[n - 1]);
    let all = all_let_go(before, after, n);
    if i == n - 1 {
        if before[i].ragdoll is Some {
            assert(here[0] == before[i].ragdoll->0);
            assert(all[rest.len() as int] == before[i].ragdoll->0);
        }
        if before[i].reaction is Some {
            assert(here.last() == before[i].reaction->0);
            assert(all.last() == here.last());
        }
    } else {
        lemma_handed_back(before, after, (n - 1) as nat, i);
        if let Some(b) = before[i].ragdoll {
            let k = choose|k: int| 0 <= k < rest.len() && rest[k] == b;
            assert(all[k] == b);
        }
        if let Some(b) = before[i].reaction {
            let k = choose|k: int| 0 <= k < rest.len() && rest[k] == b;
            assert(all[k] == b);
        }
    }
}

/// A corpse is not forgotten by the physics before it has faded away.
pub proof fn corpses_fade_before_they_go(h: Hunter, dt: u32, slow: bool)
    requires
        h.ragdoll is Some,
    ensures
        corpse_aged(h, dt, slow).ragdoll is None ==> (corpse_aged(h, dt, slow).fade matches Some(t)
            && t >= FADE_DURATION),
{
}

// ---- Drawing ----

/// Where the pose of a drawn hunter comes from.
#[derive(Clone, Copy, PartialEq, Eq, Debug, Structural)]
pub enum PoseSource {
    Physics,
    Animation,
}

/// A hunter to draw; the opacity is out of [`FADE_DURATION`].
#[derive(Clone, Copy, PartialEq, Eq, Debug, Structural)]
pub struct CharDraw {
    pub hunter: usize,
    pub body: usize,
    pub pose: PoseSource,
    pub opacity: u32,
}

/// A gun to draw, in the right hand or the left.
#[derive(Clone, Copy, PartialEq, Eq, Debug, Structural)]
pub struct GunDraw {
    pub hunter: usize,
    pub left: bool,
}

impl Hunter {
    /// How solid the hunter is, out of [`FADE_DURATION`]: fully until its death has played
    /// out, then less and less.
    pub open spec fn solid(self) -> u32 {
        match self.fade {
            Some(t) => left(FADE_DURATION, t),
            None => FADE_DURATION,
        }
    }

    pub fn opacity(&self) -> (o: u32)
        ensures
            o == self.solid(),
    {
        match self.fade {
            Some(t) => count_down(FADE_DURATION, t),
            None => FADE_DURATION,
        }
    }
}

/// The hunters among the first `n` that are drawn: those whose body was loaded.
pub open spec fn drawn_hunters(hs: Seq<Hunter>, bodies: usize, n: nat) -> Seq<CharDraw>
    decreases n,
{
    if n == 0 {
        Seq::empty()
    } else {
        let rest = drawn_hunters(hs, bodies, (n - 1) as nat);
        let h = hs[n - 1];
        if h.body < bodies {
            rest.push(
                CharDraw {
                    hunter: (n - 1) as usize,
                    body: h.body,
                    pose: if h.ragdoll is Some {
                        PoseSource::Physics
                    } else {
                        PoseSource::Animation
                    },
                    opacity: h.solid(),
                },
            )
        } else {
            rest
        }
    }
}

/// The guns of the first `n` hunters: the dead drop theirs, and only those with a flash count
/// when `flashes`.
pub open spec fn drawn_guns(hs: Seq<Hunter>, flashes: bool, n: nat) -> Seq<GunDraw>
    decreases n,
{
    if n == 0 {
        Seq::empty()
    } else {
        let rest = drawn_guns(hs, flashes, (n - 1) as nat);
        let h = hs[n - 1];
        let i = (n - 1) as usize;
        if h.dead || (flashes && h.muzzle_timer == 0) {
            rest
        } else if h.dual {
            rest.push(GunDraw { hunter: i, left: false }).push(GunDraw { hunter: i, left: true })
        } else {
            rest.push(GunDraw { hunter: i, left: false })
        }
    }
}

/// A weapon model drawn outside anyone's hand.
#[derive(Clone, Copy, PartialEq, Eq, Debug, Structural)]
pub enum LooseDraw {
    /// In the hand of the rig that is posed while building.
    Preview(usize),
    /// A round that has tumbled for a time `spin`; at rest it lies as it was launched.
    Round { model: usize, at: Point, spin: u32 },
    /// A mine that has tumbled for a time `tumbled`, or lies flat on the surface it stuck to.
    Mine { model: usize, at: Point, tumbled: Option<u32> },
}

/// The rounds among the first `n` that have a model.
pub open spec fn drawn_rounds(ps: Seq<Projectile>, n: nat) -> Seq<LooseDraw>
    decreases n,
{
    if n == 0 {
        Seq::empty()
    } else {
        let rest = drawn_rounds(ps, (n - 1) as nat);
        let p = ps[n - 1];
        match p.model {
            Some(model) => rest.push(
                LooseDraw::Round {
                    model,
                    at: p.pos,
                    spin: if p.at_rest {
                        0
                    } else {
                        p.age
                    },
                },
            ),
            None => rest,
        }
    }
}

/// How a mine is drawn.
pub open spec fn drawn_mine(m: Mine) -> LooseDraw {
    LooseDraw::Mine {
        model: m.model,
        at: m.pos,
        tumbled: if m.stuck {
            None
        } else {
            Some(m.flight_time)
        },
    }
}

/// What is drawn outside the hunters' hands: the preview, then the rounds, then the mines.
pub open spec fn drawn_loose(
    preview: Option<usize>,
    ps: Seq<Projectile>,
    ms: Seq<Mine>,
) -> Seq<LooseDraw> {
    let shown = match preview {
        Some(model) => seq![LooseDraw::Preview(model)],
        None => Seq::empty(),
    };
    shown + drawn_rounds(ps, ps.len()) + ms.map_values(|m: Mine| drawn_mine(m))
}

impl World {
    /// The hunters to draw. While building there are none.
    pub fn character_instances(&self) -> (out: Vec<CharDraw>)
        ensures
            out@ == if self.mode == Mode::Build {
                Seq::empty()
            } else {
                drawn_hunters(self.hunters@, self.bodies.count, self.hunters@.len())
            },
    {
        let mut out: Vec<CharDraw> = Vec::new();
        if self.mode == Mode::Build {
            return out;
        }
        let mut k: usize = 0;
        while k < self.hunters.len()
            invariant
                k <= self.hunters@.len(),
                out@ == drawn_hunters(self.hunters@, self.bodies.count, k as nat),
            decreases self.hunters@.len() - k,
        {
            let h: Hunter = self.hunters[k];
            if h.body < self.bodies.count {
                let pose: PoseSource = if h.ragdoll.is_some() {
                    PoseSource::Physics
                } else {
                    PoseSource::Animation
                };
                out.push(CharDraw { hunter: k, body: h.body, pose, opacity: h.opacity() });
            }
            k = k + 1;
        }
        out
    }

    fn guns(&self, flashes: bool) -> (out: Vec<GunDraw>)
        ensures
            out@ == drawn_guns(self.hunters@, flashes, self.hunters@.len()),
    {
        let mut out: Vec<GunDraw> = Vec::new();
        let mut k: usize = 0;
        while k < self.hunters.len()
            invariant
                k <= self.hunters@.len(),
                out@ == drawn_guns(self.hunters@, flashes, k as nat),
            decreases self.hunters@.len() - k,
        {
            let h: Hunter = self.hunters[k];
            if !(h.dead || (flashes && h.muzzle_timer == 0)) {
                out.push(GunDraw { hunter: k, left: false });
                if h.dual {
                    out.push(GunDraw { hunter: k, left: true });
                }
            }
            k = k + 1;
        }
        out
    }

    /// The hunters' guns to draw.
    pub fn enemy_weapon_draws(&self) -> (out: Vec<GunDraw>)
        ensures
            out@ == drawn_guns(self.hunters@, false, self.hunters@.len()),
    {
        self.guns(false)
    }

    /// The weapon models to draw outside the hunters' hands, with `preview` the one that the
    /// posed rig holds.
    pub fn loose_weapon_draws(&self, preview: Option<usize>) -> (out: Vec<LooseDraw>)
        ensures
            out@ == drawn_loose(preview, self.projectiles@, self.mines@),
    {
        let mut out: Vec<LooseDraw> = Vec::new();
        if let Some(model) = preview {
            out.push(LooseDraw::Preview(model));
        }
        let ghost shown = match preview {
            Some(model) => seq![LooseDraw::Preview(model)],
            None => Seq::empty(),
        };
        assert(out@ =~= shown + drawn_rounds(self.projectiles@, 0));
        let mut k: usize = 0;
        while k < self.projectiles.len()
            invariant
                k <= self.projectiles@.len(),
                out@ == shown + drawn_rounds(self.projectiles@, k as nat),
            decreases self.projectiles@.len() - k,
        {
            let p: Projectile = self.projectiles[k];
            if let Some(model) = p.model {
                let spin: u32 = if p.at_rest {
                    0
                } else {
                    p.age
                };
                out.push(LooseDraw::Round { model, at: p.pos, spin });
            }
            k = k + 1;
            assert(out@ =~= shown + drawn_rounds(self.projectiles@, k as nat));
        }
        let ghost flying = out@;
        let mut j: usize = 0;
        while j < self.mines.len()
            invariant
                j <= self.mines@.len(),
                out@.len() == flying.len() + j,
                forall|i: int| 0 <= i < flying.len() ==> out@[i] == flying[i],
                forall|i: int|
                    flying.len() <= i < out@.len() ==> #[trigger] out@[i] == drawn_mine(
                        self.mines@[i - flying.len()],
                    ),
            decreases self.mines@.len() - j,
        {
            let m: Mine = self.mines[j];
            let tumbled: Option<u32> = if m.stuck {
                None
            } else {
                Some(m.flight_time)
            };
            out.push(LooseDraw::Mine { model: m.model, at: m.pos, tumbled });
            j = j + 1;
        }
        assert(out@ =~= drawn_loose(preview, self.projectiles@, self.mines@));
        out
    }

    /// The hunters' muzzle flashes to draw.
    pub fn enemy_muzzle_draws(&self) -> (out: Vec<GunDraw>)
        ensures
            out@ == drawn_guns(self.hunters@, true, self.hunters@.len()),
    {
        self.guns(true)
    }
}

// ---- Doors ----

/// A door that can be broken: what it still withstands, and the panel that closes it.
#[derive(Clone, Copy, PartialEq, Eq, Debug, Structural)]
pub struct BreakableDoor {
    pub hp: u32,
    pub broken: bool,
    pub panel: u64,
}

impl BreakableDoor {
    pub open spec fn breached(self, dt: u32) -> BreakableDoor {
        if self.broken {
            self
        } else {
            BreakableDoor { hp: left(self.hp, dt), broken: self.hp <= dt, ..self }
        }
    }
}

/// The panels of the doors among the first `n` that still stand.
pub open spec fn standing_panels(doors: Seq<BreakableDoor>, n: nat) -> Seq<u64>
    decreases n,
{
    if n == 0 {
        Seq::empty()
    } else {
        let rest = standing_panels(doors, (n - 1) as nat);
        if doors[n - 1].broken {
            rest
        } else {
            rest.push(doors[n - 1].panel)
        }
    }
}

impl World {
    /// Works on a door for a time `dt`. When it breaks, the result is its panel, whose
    /// collision and pathing go with it.
    pub fn breach_tick(&mut self, di: usize, dt: u32) -> (panel: Option<u64>)
        ensures
            di >= old(self).doors@.len() ==> panel is None && *final(self) == *old(self),
            di < old(self).doors@.len() ==> {
                let d = old(self).doors@[di as int];
                &&& final(self).doors@ == old(self).doors@.update(di as int, d.breached(dt))
                &&& panel == if !d.broken && d.hp <= dt {
                    Some(d.panel)
                } else {
                    None
                }
            },
            *final(self) == (World { doors: final(self).doors, ..*old(self) }),
    {
        if di >= self.doors.len() {
            return None;
        }
        let mut d: BreakableDoor = self.doors[di];
        if d.broken {
            assert(self.doors@ =~= old(self).doors@.update(di as int, d));
            return None;
        }
        d.broken = d.hp <= dt;
        d.hp = count_down(d.hp, dt);
        self.doors.set(di, d);
        if d.broken {
            Some(d.panel)
        } else {
            None
        }
    }

    /// The door panels to draw: a breached door simply vanishes.
    pub fn door_mesh(&self) -> (panels: Vec<u64>)
        ensures
            panels@ == standing_panels(self.doors@, self.doors@.len()),
    {
        let mut panels: Vec<u64> = Vec::new();
        let mut k: usize = 0;
        while k < self.doors.len()
            invariant
                k <= self.doors@.len(),
                panels@ == standing_panels(self.doors@, k as nat),
            decreases self.doors@.len() - k,
        {
            if !self.doors[k].broken {
                panels.push(self.doors[k].panel);
            }
            k = k + 1;
        }
        panels
    }
}

/// A door breaks once, and then withstands nothing more.
pub proof fn a_door_breaks_once(d: BreakableDoor, dt: u32)
    ensures
        d.breached(dt).broken ==> d.breached(dt).breached(dt) == d.breached(dt),
        !d.broken ==> (d.breached(dt).broken <==> d.hp <= dt),
{
}

/// Unwinding an angle gives one at most half a turn either way that points the same way.
pub proof fn unwinding_keeps_the_direction(a: int)
    ensures
        -32768 <= unwound(a) <= 32768,
        exists|k: int| unwound(a) == a + 65536 * #[trigger] whole_turns(k),
        -32768 <= a <= 32768 ==> unwound(a) == a,
{
    if a > 32768 {
        let k = -((a + 32767) / 65536);
        assert(unwound(a) == a + 65536 * whole_turns(k));
    } else if a < -32768 {
        let k = -((a + 32768) / 65536);
        assert(unwound(a) == a + 65536 * whole_turns(k));
    } else {
        assert(unwound(a) == a + 65536 * whole_turns(0));
    }
}

/// A number of whole turns.
pub open spec fn whole_turns(k: int) -> int {
    k
}

/// A body turns toward where it means to face by no more than it may, the short way round, and
/// stops there; one that was not drawn before faces there at once.
pub proof fn bodies_turn_the_short_way(cur: i32, target: i32, max: u32)
    requires
        -32768 <= cur <= 32768,
        -32768 <= target <= 32768,
    ensures
        turned(None, target, max) == target,
        ({
            let y = turned(Some(cur), target, max) as int;
            let way = target - cur;
            &&& -32768 <= y <= 32768
            &&& -32768 <= way <= 32768 && -max <= way <= max ==> y == target || y == target
                + 65536 || y == target - 65536
            &&& 0 < way < 32768 && way > max ==> y == cur + max
            &&& -32768 < way < 0 && -way > max ==> y == cur - max
            &&& way > 32768 && 65536 - way > max ==> y == cur - max || y == cur - max + 65536
            &&& way < -32768 && 65536 + way > max ==> y == cur + max || y == cur + max - 65536
        }),
{
}

/// A corpse that the physics holds is left to it. Any other hunter turns toward its heading, and
/// a dead one whose clip has ended fades on for up to two seconds.
pub proof fn hunters_are_animated(h: Hunter, dt: u32, a: AnimInput)
    requires
        (h.fade matches Some(t) ==> t + dt <= u32::MAX),
    ensures
        h.ragdoll is Some ==> animated(h, dt, a) == h,
        h.ragdoll is None ==> {
            let b = animated(h, dt, a);
            let faded = (match h.fade {
                Some(t) => t as int,
                None => 0,
            }) + dt;
            &&& b.render_yaw == Some(turned(h.render_yaw, a.heading, a.max_turn))
            &&& h.dead && a.finished ==> b.fade == Some(
                (if faded > 2400 {
                    2400
                } else {
                    faded
                }) as u32,
            )
            &&& !(h.dead && a.finished) ==> b.fade == h.fade
            &&& b == (Hunter { render_yaw: b.render_yaw, fade: b.fade, ..h })
        },
{
}

/// Whether a clip of the whole body that is not one of the three ways to fire plays.
pub open spec fn body_is_busy(a: AnimInput) -> bool {
    a.oneshot && a.clip != 4 && a.clip != 5 && a.clip != 6
}

/// There is a plan for every hunter with a body that the physics does not hold. A hit or a death
/// plays in place of everything else; otherwise the gun comes up in a fight, the head turns where
/// that is on, and the feet are set down where that is on and there is a rig and a floor.
pub proof fn animations_are_planned(w: World, h: Hunter, a: AnimInput)
    ensures
        w.anim_plan(h, a) is None <==> h.ragdoll is Some || !a.model,
        w.anim_plan(h, a) matches Some(p) ==> {
            &&& p.one_shot == body_is_busy(a)
            &&& p.stride == (w.settings.foot_ik && a.moving)
            &&& p.aim <==> !h.dead && !body_is_busy(a) && !(h.state is Idle || h.state is Search
                || h.state is Investigate || h.state is Fetch)
            &&& p.feet <==> w.settings.foot_ik && !body_is_busy(a) && a.rig && a.floor
            &&& !w.settings.head_look || h.dead || body_is_busy(a) ==> p.focus is None
        },
{
}

/// A hunter that looks into something looks where it last knew the player to be; one that
/// searches, idles or fetches scans about; and any other looks at the player, or without one where
/// it last knew it to be. What it looks at is a metre above the feet.
pub proof fn heads_turn_to_what_matters(w: World, h: Hunter, a: AnimInput)
    requires
        w.settings.head_look,
        !h.dead,
        !body_is_busy(a),
        h.ragdoll is None,
        a.model,
    ensures
        ({
            let f = w.anim_plan(h, a)->0.focus;
            let remembered = match h.last_known {
                Some(p) => Some(p.above(1000)),
                None => None,
            };
            &&& h.state is Investigate ==> f == remembered
            &&& h.state is Search || h.state is Idle || h.state is Fetch ==> f == Some(a.scan_point)
            &&& !(h.state is Investigate || h.state is Search || h.state is Idle || h.state is Fetch)
                ==> f == (match w.player.pos {
                Some(p) => Some(p.above(1000)),
                None => remembered,
            })
        }),
{
}

/// The hunter that is watched is a living one in a fight, and none such is closer to the player.
pub proof fn the_closest_fighter_is_watched(w: World, p: Point, i: int, j: int)
    requires
        w.is_closest_fighter(p, i),
        0 <= j < w.hunters@.len(),
        !w.hunters@[j].dead,
        !(w.hunters@[j].state is Idle || w.hunters@[j].state is Search || w.hunters@[j].state
            is Investigate || w.hunters@[j].state is Fetch),
    ensures
        0 <= i < w.hunters@.len() && !w.hunters@[i].dead,
        !(w.hunters@[i].state is Idle || w.hunters@[i].state is Search || w.hunters@[i].state
            is Investigate || w.hunters@[i].state is Fetch),
        w.hunters@[i].pos.dist2_to(p) <= w.hunters@[j].pos.dist2_to(p),
        j < i ==> w.hunters@[i].pos.dist2_to(p) < w.hunters@[j].pos.dist2_to(p),
{
    assert(w.lives(j));
}

/// A corpse that moves is left to fade once it is slow, or after six seconds, and its rigid
/// bodies go once it has faded for two seconds.
pub proof fn corpses_settle_and_fade(h: Hunter, dt: u32, slow: bool)
    requires
        h.ragdoll is Some,
        h.ragdoll_time + dt <= u32::MAX,
        (h.fade matches Some(t) ==> t + dt <= u32::MAX),
    ensures
        ({
            let b = corpse_aged(h, dt, slow);
            let settled = slow || h.ragdoll_time + dt >= 7200;
            let faded = (match h.fade {
                Some(t) => t as int,
                None => 0,
            }) + dt;
            &&& b.ragdoll_time == h.ragdoll_time + dt
            &&& settled ==> b.fade == Some(
                (if faded > 2400 {
                    2400
                } else {
                    faded
                }) as u32,
            )
            &&& !settled ==> b.fade == h.fade
            &&& b.ragdoll is None <==> (b.fade matches Some(t) && t >= 2400)
            &&& b.ragdoll is Some ==> b.ragdoll == h.ragdoll
            &&& b == (Hunter {
                ragdoll_time: b.ragdoll_time,
                fade: b.fade,
                ragdoll: b.ragdoll,
                ..h
            })
        }),
{
}

/// A hunter that no physics moves is left alone; a stagger goes on until 514 ticks have passed.
pub proof fn staggers_pass(h: Hunter, dt: u32, slow: bool)
    requires
        h.reaction_time + dt <= u32::MAX,
    ensures
        h.ragdoll is None ==> corpse_aged(h, dt, slow) == h,
        h.reaction is None ==> stagger_aged(h, dt) == h,
        h.reaction is Some ==> stagger_aged(h, dt) == (Hunter {
            reaction_time: (h.reaction_time + dt) as u32,
            reaction: if h.reaction_time + dt >= 514 {
                None
            } else {
                h.reaction
            },
            ..h
        }),
{
}

/// The rigid bodies that are let go are those that a hunter had before and has no more: corpses
/// and staggers alike, and nothing that is still held.
pub proof fn only_what_was_let_go_is_removed(
    before: Seq<Hunter>,
    after: Seq<Hunter>,
    n: nat,
    b: u64,
)
    requires
        n <= before.len(),
        after.len() == before.len(),
    ensures
        all_let_go(before, after, n).contains(b) <==> exists|i: int|
            0 <= i < n && (((#[trigger] before[i]).ragdoll == Some(b) && after[i].ragdoll is None)
                || (before[i].reaction == Some(b) && after[i].reaction is None)),
    decreases n,
{
    if n > 0 {
        only_what_was_let_go_is_removed(before, after, (n - 1) as nat, b);
        let rest = all_let_go(before, after, (n - 1) as nat);
        let more = let_go(before[n - 1], after[n - 1]);
        let all = all_let_go(before, after, n);
        assert(all == rest + more);
        let (x, y) = (before[n - 1], after[n - 1]);
        let first = if x.ragdoll is Some && y.ragdoll is None {
            seq![x.ragdoll->0]
        } else {
            Seq::empty()
        };
        if x.ragdoll == Some(b) && y.ragdoll is None {
            assert(more[0] == b);
        }
        if x.reaction == Some(b) && y.reaction is None {
            assert(more[first.len() as int] == b);
        }
        if rest.contains(b) {
            let k = choose|k: int| 0 <= k < rest.len() && rest[k] == b;
            assert(all[k] == b);
        }
        if more.contains(b) {
            let k = choose|k: int| 0 <= k < more.len() && more[k] == b;
            assert(all[rest.len() + k] == b);
            if k < first.len() {
                assert(first[k] == b);
            }
        }
        if all.contains(b) {
            let k = choose|k: int| 0 <= k < all.len() && all[k] == b;
            if k < rest.len() {
                assert(rest[k] == b);
            } else {
                assert(more[k - rest.len()] == b);
            }
        }
    }
}

/// Clearing the physics takes every corpse and every stagger from a hunter, and nothing else.
pub proof fn clearing_takes_the_bodies_only(h: Hunter)
    ensures
        disembodied(h).ragdoll is None && disembodied(h).reaction is None,
        disembodied(h) == (Hunter { ragdoll: None, reaction: None, ..h }),
{
}

/// A corpse is solid until it begins to fade, and gone after two seconds of it.
pub proof fn corpses_fade_evenly(h: Hunter)
    ensures
        h.fade is None ==> h.solid() == 2400,
        h.fade matches Some(t) ==> (t <= 2400 ==> h.solid() + t == 2400) && (t > 2400 ==> h.solid()
            == 0),
{
}

/// Every hunter whose body is loaded is drawn, in order and as solid as it is, by the physics
/// where that holds it and by its animation otherwise.
pub proof fn hunters_with_a_body_are_drawn(hs: Seq<Hunter>, bodies: usize, n: nat)
    requires
        n <= hs.len(),
    ensures
        drawn_hunters(hs, bodies, n) == Seq::new(hs.len(), |i: int| (i, hs[i])).take(n as int).filter(
            |e: (int, Hunter)| e.1.body < bodies,
        ).map_values(
            |e: (int, Hunter)|
                CharDraw {
                    hunter: e.0 as usize,
                    body: e.1.body,
                    pose: if e.1.ragdoll is Some {
                        PoseSource::Physics
                    } else {
                        PoseSource::Animation
                    },
                    opacity: e.1.solid(),
                },
        ),
    decreases n,
{
    reveal(Seq::filter);
    let both = Seq::new(hs.len(), |i: int| (i, hs[i]));
    let t = both.take(n as int);
    if n > 0 {
        hunters_with_a_body_are_drawn(hs, bodies, (n - 1) as nat);
        assert(t.drop_last() =~= both.take(n - 1));
        assert(t.last() == both[n - 1]);
    } else {
        assert(t =~= Seq::empty());
    }
    assert(drawn_hunters(hs, bodies, n) =~= t.filter(
        |e: (int, Hunter)| e.1.body < bodies,
    ).map_values(
        |e: (int, Hunter)|
            CharDraw {
                hunter: e.0 as usize,
                body: e.1.body,
                pose: if e.1.ragdoll is Some {
                    PoseSource::Physics
                } else {
                    PoseSource::Animation
                },
                opacity: e.1.solid(),
            },
    ));
}

/// Every living hunter's gun is drawn, and a second one in the other hand of who carries two; of
/// the flashes, those that still show. The guns come in the order of the hunters, the right hand
/// first, and no gun twice.
pub proof fn the_living_carry_their_guns(hs: Seq<Hunter>, flashes: bool, n: nat)
    requires
        n <= hs.len() <= usize::MAX,
    ensures
        forall|i: int, left: bool|
            0 <= i < n ==> (#[trigger] drawn_guns(hs, flashes, n).contains(
                GunDraw { hunter: i as usize, left },
            ) <==> !hs[i].dead && (flashes ==> hs[i].muzzle_timer > 0) && (left ==> hs[i].dual)),
        forall|k: int| 0 <= k < drawn_guns(hs, flashes, n).len() ==> (#[trigger] drawn_guns(
            hs,
            flashes,
            n,
        )[k]).hunter < n,
        forall|a: int, b: int|
            0 <= a < b < drawn_guns(hs, flashes, n).len() ==> {
                let (x, y) = (
                    #[trigger] drawn_guns(hs, flashes, n)[a],
                    #[trigger] drawn_guns(hs, flashes, n)[b],
                );
                x.hunter < y.hunter || (x.hunter == y.hunter && !x.left && y.left)
            },
    decreases n,
{
    if n > 0 {
        the_living_carry_their_guns(hs, flashes, (n - 1) as nat);
        let rest = drawn_guns(hs, flashes, (n - 1) as nat);
        let all = drawn_guns(hs, flashes, n);
        let h = hs[n - 1];
        let shown = !h.dead && (flashes ==> h.muzzle_timer > 0);
        assert forall|i: int, left: bool| 0 <= i < n implies (#[trigger] all.contains(
            GunDraw { hunter: i as usize, left },
        ) <==> !hs[i].dead && (flashes ==> hs[i].muzzle_timer > 0) && (left ==> hs[i].dual)) by {
            let e = GunDraw { hunter: i as usize, left };
            if rest.contains(e) {
                let k = choose|k: int| 0 <= k < rest.len() && rest[k] == e;
                assert(all[k] == e);
            }
            if i == n - 1 && shown {
                assert(all[rest.len() as int] == (GunDraw { hunter: i as usize, left: false }));
                if h.dual {
                    assert(all[rest.len() as int + 1] == (GunDraw { hunter: i as usize, left: true }));
                }
            }
            if all.contains(e) {
                let k = choose|k: int| 0 <= k < all.len() && all[k] == e;
                if k < rest.len() {
                    assert(rest[k] == e);
                    assert(rest[k].hunter < n - 1);
                } else if k == rest.len() {
                    assert(i == n - 1 && !left);
                } else {
                    assert(i == n - 1 && left);
                }
            }
        }
    }
}

/// Every round with a model is drawn where it is, tumbling for as long as it has flown, or still
/// at rest; a round without one is not.
pub proof fn rounds_with_a_model_are_drawn(ps: Seq<Projectile>, n: nat)
    requires
        n <= ps.len(),
    ensures
        drawn_rounds(ps, n) == ps.take(n as int).filter(|p: Projectile| p.model is Some).map_values(|p: Projectile| LooseDraw::Round { model: p.model->0, at: p.pos, spin: if p.at_rest { 0 } else { p.age } }),
    decreases n,
{
    reveal(Seq::filter);
    let t = ps.take(n as int);
    if n > 0 {
        rounds_with_a_model_are_drawn(ps, (n - 1) as nat);
        assert(t.drop_last() =~= ps.take(n - 1));
        assert(t.last() == ps[n - 1]);
    } else {
        assert(t =~= Seq::empty());
    }
    assert(drawn_rounds(ps, n) =~= t.filter(|p: Projectile| p.model is Some).map_values(|p: Projectile| LooseDraw::Round { model: p.model->0, at: p.pos, spin: if p.at_rest { 0 } else { p.age } }));
}

/// What is drawn loose is the preview where there is one, then the rounds, then every mine: flat
/// where it stuck, tumbling for as long as it has flown otherwise.
pub proof fn every_mine_is_drawn(
    preview: Option<usize>,
    ps: Seq<Projectile>,
    ms: Seq<Mine>,
    k: int,
)
    requires
        0 <= k < ms.len(),
    ensures
        ({
            let all = drawn_loose(preview, ps, ms);
            let rounds = drawn_rounds(ps, ps.len()).len();
            let shown = if preview is Some {
                1nat
            } else {
                0nat
            };
            &&& all.len() == shown + rounds + ms.len()
            &&& preview matches Some(m) ==> all[0] == LooseDraw::Preview(m)
            &&& all[shown + rounds + k] == (LooseDraw::Mine {
                model: ms[k].model,
                at: ms[k].pos,
                tumbled: if ms[k].stuck {
                    None
                } else {
                    Some(ms[k].flight_time)
                },
            })
        }),
{
}

/// A door withstands as much work as it has strength left, breaks in the step that uses it up, and
/// stays broken.
pub proof fn doors_give_way_to_work(d: BreakableDoor, dt: u32)
    ensures
        d.broken ==> d.breached(dt) == d,
        !d.broken && d.hp > dt ==> d.breached(dt).hp == d.hp - dt && !d.breached(dt).broken,
        !d.broken && d.hp <= dt ==> d.breached(dt).hp == 0 && d.breached(dt).broken,
        d.breached(dt).panel == d.panel,
{
}

/// The panels of the doors that still stand are drawn, in order.
pub proof fn standing_doors_are_drawn(doors: Seq<BreakableDoor>, n: nat)
    requires
        n <= doors.len(),
    ensures
        standing_panels(doors, n) == doors.take(n as int).filter(|d: BreakableDoor| !d.broken).map_values(|d: BreakableDoor| d.panel),
    decreases n,
{
    reveal(Seq::filter);
    let t = doors.take(n as int);
    if n > 0 {
        standing_doors_are_drawn(doors, (n - 1) as nat);
        assert(t.drop_last() =~= doors.take(n - 1));
        assert(t.last() == doors[n - 1]);
    } else {
        assert(t =~= Seq::empty());
    }
    assert(standing_panels(doors, n) =~= t.filter(|d: BreakableDoor| !d.broken).map_values(|d: BreakableDoor| d.panel));
}

/// Each way to hold a weapon has its own way to fire: a pair, a pistol, a rifle.
pub proof fn weapons_are_fired_as_they_are_held(class: WeaponClass, dual: bool)
    ensures
        dual ==> fire_slot(class, dual) == 6,
        !dual && class == WeaponClass::Pistol ==> fire_slot(class, dual) == 5,
        !dual && class == WeaponClass::Rifle ==> fire_slot(class, dual) == 4,
{
}

} // verus!
