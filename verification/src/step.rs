//! One step of a hunt: what the hunters are told, and what follows from what they did.
use vstd::prelude::*;

use crate::gunfire::{is_flushed, movement_heard};
use crate::hunt::{all_let_go, corpse_aged, stagger_aged};
use crate::hunter::{AiMode, AiState, Hunter, PdDebug, Target};
use crate::pack::{calls, squad_alert, SearchMap};
use crate::space::Point;
use crate::world::{Mode, World};

verus! {

/// How far hunters keep from the walls.
pub const WALL_CLEARANCE_RADIUS: u32 = 200;

// ---- Whether a step runs ----

/// What a step does.
#[derive(Clone, Copy, PartialEq, Eq, Debug, Structural)]
pub enum StepGate {
    /// The camera flies.
    Fly,
    /// The round is over: nothing moves.
    Frozen,
    /// The player is dead: only the clocks of the round and of the dead run.
    DeathBeat,
    /// There is no player: only the clock of the round runs.
    Empty,
    /// Everything runs.
    Run,
}

impl World {
    pub open spec fn gate(self) -> StepGate {
        if self.mode == Mode::Build {
            StepGate::Fly
        } else if self.round_over {
            StepGate::Frozen
        } else if self.player.dead {
            StepGate::DeathBeat
        } else if self.player.pos is None {
            StepGate::Empty
        } else {
            StepGate::Run
        }
    }

    /// What the next step does.
    pub fn step_gate(&self) -> (g: StepGate)
        ensures
            g == self.gate(),
    {
        match self.mode {
            Mode::Build => StepGate::Fly,
            Mode::Hunt => if self.round_over {
                StepGate::Frozen
            } else if self.player.dead {
                StepGate::DeathBeat
            } else if self.player.pos.is_none() {
                StepGate::Empty
            } else {
                StepGate::Run
            },
        }
    }
}

// ---- Orders ----

/// What a hunter is told before it decides.
#[derive(Clone, Copy, PartialEq, Eq, Debug, Structural)]
pub struct HunterOrders {
    /// Whether the player can be perceived.
    pub detectable: bool,
    /// Whether it knows where its target is without perceiving it.
    pub omniscient: bool,
    pub utility: bool,
    pub clearance: u32,
    /// Whether a burst of it is running.
    pub firing: bool,
    /// How far its body stands sideways while it fires.
    pub aim_offset: i32,
    /// Whom it is up against.
    pub engage: Target,
}

impl World {
    /// The orders of hunter `h`. One that is out to fetch a weapon neither perceives the player
    /// nor knows where it is. Perfect Dark's model always knows; the other knows only with
    /// that switched on, and only with the aim model.
    pub open spec fn orders(self, h: Hunter, fetching: bool) -> HunterOrders {
        HunterOrders {
            detectable: !self.player.invisible && !fetching,
            omniscient: !fetching && (self.settings.ai_mode == AiMode::Pd || (
            self.settings.pd_omniscience && h.simulant)),
            utility: self.settings.utility_ai,
            clearance: if self.settings.wall_clearance {
                WALL_CLEARANCE_RADIUS
            } else {
                0
            },
            firing: h.fire_elapsed is Some,
            aim_offset: if h.fire_elapsed is Some {
                h.fire.angle_offset
            } else {
                0
            },
            engage: match h.target {
                Some(Target::Hunter(j)) => if self.lives(j as int) {
                    Target::Hunter(j)
                } else {
                    Target::Player
                },
                _ => Target::Player,
            },
        }
    }

    /// The orders of hunter `i`.
    pub fn hunter_orders(&self, i: usize, fetching: bool) -> (o: HunterOrders)
        requires
            i < self.hunters@.len(),
        ensures
            o == self.orders(self.hunters@[i as int], fetching),
    {
        let h: Hunter = self.hunters[i];
        let engage: Target = match h.target {
            Some(Target::Hunter(j)) => if j < self.hunters.len() && !self.hunters[j].dead {
                Target::Hunter(j)
            } else {
                Target::Player
            },
            _ => Target::Player,
        };
        HunterOrders {
            detectable: !self.player.invisible && !fetching,
            omniscient: !fetching && (self.settings.ai_mode == AiMode::Pd || (
            self.settings.pd_omniscience && h.simulant)),
            utility: self.settings.utility_ai,
            clearance: if self.settings.wall_clearance {
                WALL_CLEARANCE_RADIUS
            } else {
                0
            },
            firing: h.fire_elapsed.is_some(),
            aim_offset: if h.fire_elapsed.is_some() {
                h.fire.angle_offset
            } else {
                0
            },
            engage,
        }
    }

    /// Whether hunter `me` can see `who`, when the level leaves the view clear or not. Bodies
    /// in between do not count; the dead and the hunter itself are never seen, and an
    /// invisible player is not.
    pub open spec fn sees(self, me: usize, who: Target, clear: bool) -> bool {
        clear && match who {
            Target::Player => !self.player.dead && !self.player.invisible,
            Target::Hunter(j) => j != me && self.lives(j as int),
        }
    }

    pub fn can_see(&self, me: usize, who: Target, clear: bool) -> (b: bool)
        ensures
            b == self.sees(me, who, clear),
    {
        match who {
            Target::Player => clear && !self.player.dead && !self.player.invisible,
            Target::Hunter(j) => clear && j != me && j < self.hunters.len()
                && !self.hunters[j].dead,
        }
    }
}

/// A hunter that is out for a weapon ignores the player altogether.
pub proof fn fetching_beats_fighting(w: World, h: Hunter)
    ensures
        !w.orders(h, true).detectable,
        !w.orders(h, true).omniscient,
{
}

/// Under Perfect Dark's model a hunter that is not fetching knows where its target is, however
/// the switch stands.
pub proof fn pd_hunters_always_know(w: World, h: Hunter)
    requires
        w.settings.ai_mode == AiMode::Pd,
    ensures
        w.orders(h, false).omniscient,
{
}

// ---- The end of a step ----

/// What the aim model of a hunter says.
#[derive(Clone, Copy, PartialEq, Eq, Debug, Structural)]
pub struct AimReport {
    pub want_fire: bool,
    /// Which way the body stands.
    pub yaw: i32,
    /// Whom it picked.
    pub target: Option<Target>,
}

/// What a hunter did in a step.
#[derive(Clone, Copy, PartialEq, Eq, Debug, Structural)]
pub struct StepReport {
    /// What its aim model says, if it has one.
    pub aim: Option<AimReport>,
    /// What its own decision says of the trigger.
    pub want_fire: bool,
    pub needs_search_target: bool,
    /// It has caught the player.
    pub caught: bool,
    /// The door that it wants opened, by index.
    pub pending_door: Option<usize>,
    /// What it is about, whether it is in a fight, and where it last knew the player to be.
    pub state: AiState,
    pub engaged: bool,
    pub last_known: Option<Point>,
    /// Where its way around the others took it, and how it moves.
    pub pos: Point,
    pub vel: Point,
    /// Whether the fastest part of its corpse has come to rest.
    pub slow: bool,
}

/// What a step asks for.
pub struct StepPlan {
    /// The hunters that packmates call, and to where.
    pub calls: Vec<(usize, Point)>,
    /// The hunters that hear the player move.
    pub heard: Vec<usize>,
    /// The hunter that throws a grenade.
    pub thrower: Option<usize>,
    /// The hunters that start a burst.
    pub fire: Vec<usize>,
    /// The hunters that were sent somewhere.
    pub search: Vec<usize>,
    /// The doors to open, in order and each once.
    pub doors: Vec<usize>,
    /// The rigid bodies to take out of the physics.
    pub gone: Vec<u64>,
    /// Whether the player was caught in this step.
    pub newly_caught: bool,
}

/// What the overlay shows of hunter `i`, whose aim model picked `target`.
pub open spec fn readout(i: usize, h: Hunter, state: AiState, target: Option<Target>) -> PdDebug {
    PdDebug {
        id: i,
        health: h.health,
        max_health: h.max_health,
        dead: h.dead,
        state,
        target_hunter: match target {
            Some(Target::Hunter(j)) => Some(j),
            _ => None,
        },
        fire_offset: if h.fire_elapsed is Some {
            Some(h.fire.angle_offset)
        } else {
            None
        },
    }
}

fn read_out(i: usize, h: &Hunter, state: AiState, target: Option<Target>) -> (d: PdDebug)
    ensures
        d == readout(i, *h, state, target),
{
    PdDebug {
        id: i,
        health: h.health,
        max_health: h.max_health,
        dead: h.dead,
        state,
        target_hunter: match target {
            Some(Target::Hunter(j)) => Some(j),
            _ => None,
        },
        fire_offset: if h.fire_elapsed.is_some() {
            Some(h.fire.angle_offset)
        } else {
            None
        },
    }
}

/// Hunter `i` with its mind made up. The aim model turns the body and picks the target.
pub open spec fn decided(i: usize, h: Hunter, r: StepReport) -> Hunter {
    Hunter {
        state: r.state,
        engaged: r.engaged,
        last_known: r.last_known,
        render_yaw: match r.aim {
            Some(a) => Some(a.yaw),
            None => h.render_yaw,
        },
        target: match r.aim {
            Some(a) => a.target,
            None => h.target,
        },
        pd_debug: match r.aim {
            Some(a) => Some(readout(i, h, r.state, a.target)),
            None => h.pd_debug,
        },
        ..h
    }
}

pub open spec fn all_decided(hs: Seq<Hunter>, rs: Seq<StepReport>) -> Seq<Hunter> {
    Seq::new(hs.len(), |i: int| decided(i as usize, hs[i], rs[i]))
}

/// The hunters where they went.
pub open spec fn all_moved(hs: Seq<Hunter>, rs: Seq<StepReport>) -> Seq<Hunter> {
    Seq::new(hs.len(), |i: int| Hunter { pos: rs[i].pos, vel: rs[i].vel, ..hs[i] })
}

/// The hunters with their corpses and staggers a time `dt` older.
pub open spec fn all_aged(hs: Seq<Hunter>, rs: Seq<StepReport>, dt: u32) -> Seq<Hunter> {
    Seq::new(hs.len(), |i: int| stagger_aged(corpse_aged(hs[i], dt, rs[i].slow), dt))
}

impl World {
    /// Whether hunter `h` starts a burst: the aim model decides where there is one, but not
    /// during a burst; and one that reloads by Perfect Dark's rule does not shoot.
    pub open spec fn wants_fire(self, h: Hunter, r: StepReport) -> bool {
        (match r.aim {
            Some(a) => a.want_fire && h.fire_elapsed is None,
            None => r.want_fire,
        }) && !(self.settings.ai_mode == AiMode::Pd && h.reload_timer > 0)
    }

    /// The hunters among the first `n` that start a burst.
    pub open spec fn firing(self, rs: Seq<StepReport>, n: nat) -> Seq<usize>
        decreases n,
    {
        if n == 0 {
            Seq::empty()
        } else {
            let rest = self.firing(rs, (n - 1) as nat);
            if self.wants_fire(self.hunters@[n - 1], rs[n - 1]) {
                rest.push((n - 1) as usize)
            } else {
                rest
            }
        }
    }
}

/// The hunters among the first `n` that need a place to look at.
pub open spec fn lost(rs: Seq<StepReport>, n: nat) -> Seq<usize>
    decreases n,
{
    if n == 0 {
        Seq::empty()
    } else {
        let rest = lost(rs, (n - 1) as nat);
        if rs[n - 1].needs_search_target {
            rest.push((n - 1) as usize)
        } else {
            rest
        }
    }
}

/// Whether one of the first `n` hunters wants door `d` opened.
pub open spec fn wanted_door(rs: Seq<StepReport>, d: usize, n: nat) -> bool {
    exists|k: int| 0 <= k < n && (#[trigger] rs[k]).pending_door == Some(d)
}

/// Whether one of the first `n` hunters caught the player.
pub open spec fn catch_made(rs: Seq<StepReport>, n: nat) -> bool {
    exists|k: int| 0 <= k < n && (#[trigger] rs[k]).caught
}

/// Whether the numbers rise from one to the next.
pub open spec fn rising(s: Seq<usize>) -> bool {
    forall|i: int, j: int| 0 <= i < j < s.len() ==> s[i] < s[j]
}

/// Puts a number in its place in a rising list, once.
fn insert_once(s: &mut Vec<usize>, d: usize)
    requires
        rising(old(s)@),
    ensures
        rising(final(s)@),
        forall|x: usize| #[trigger] final(s)@.contains(x) <==> old(s)@.contains(x) || x == d,
{
    let mut k: usize = 0;
    while k < s.len() && s[k] < d
        invariant
            k <= s@.len(),
            s@ == old(s)@,
            forall|j: int| 0 <= j < k ==> s@[j] < d,
        decreases s@.len() - k,
    {
        k = k + 1;
    }
    if k < s.len() && s[k] == d {
        assert(s@[k as int] == d);
        return ;
    }
    let ghost was = s@;
    s.insert(k, d);
    assert(s@ =~= was.insert(k as int, d));
    assert forall|i: int, j: int| 0 <= i < j < s@.len() implies s@[i] < s@[j] by {
        let a = if i < k {
            was[i]
        } else if i == k {
            d
        } else {
            was[i - 1]
        };
        let b = if j < k {
            was[j]
        } else if j == k {
            d
        } else {
            was[j - 1]
        };
        assert(s@[i] == a && s@[j] == b);
        if i == k {
            assert(was[k as int] <= was[j - 1]);
        }
        if j == k {
            assert(was[i] < d);
        }
    }
    assert forall|x: usize| #[trigger] s@.contains(x) <==> was.contains(x) || x == d by {
        if was.contains(x) {
            let j = choose|j: int| 0 <= j < was.len() && was[j] == x;
            if j < k {
                assert(s@[j] == x);
            } else {
                assert(s@[j + 1] == x);
            }
        }
        if x == d {
            assert(s@[k as int] == d);
        }
        if s@.contains(x) {
            let j = choose|j: int| 0 <= j < s@.len() && s@[j] == x;
            if j < k {
                assert(was[j] == x);
            } else if j > k {
                assert(was[j - 1] == x);
            }
        }
    }
}

fn doors_wanted(rs: &Vec<StepReport>) -> (doors: Vec<usize>)
    ensures
        rising(doors@),
        forall|d: usize| #[trigger] doors@.contains(d) <==> wanted_door(rs@, d, rs@.len()),
{
    let mut doors: Vec<usize> = Vec::new();
    let mut k: usize = 0;
    while k < rs.len()
        invariant
            k <= rs@.len(),
            rising(doors@),
            forall|d: usize| #[trigger] doors@.contains(d) <==> wanted_door(rs@, d, k as nat),
        decreases rs@.len() - k,
    {
        let ghost was = doors@;
        match rs[k].pending_door {
            Some(d) => {
                insert_once(&mut doors, d);
            },
            None => {},
        }
        proof {
            assert forall|d: usize| #[trigger] doors@.contains(d) <==> wanted_door(
                rs@,
                d,
                (k + 1) as nat,
            ) by {
                assert(was.contains(d) <==> wanted_door(rs@, d, k as nat));
                if wanted_door(rs@, d, k as nat) {
                    let j = choose|j: int| 0 <= j < k && (#[trigger] rs@[j]).pending_door == Some(d);
                    assert(0 <= j < k + 1 && rs@[j].pending_door == Some(d));
                }
                if rs@[k as int].pending_door == Some(d) {
                    assert(wanted_door(rs@, d, (k + 1) as nat));
                }
                if wanted_door(rs@, d, (k + 1) as nat) {
                    let j = choose|j: int|
                        0 <= j < k + 1 && (#[trigger] rs@[j]).pending_door == Some(d);
                    if j < k {
                        assert(wanted_door(rs@, d, k as nat));
                    }
                }
            }
        }
        k = k + 1;
    }
    doors
}

fn who_is_lost(rs: &Vec<StepReport>) -> (who: Vec<usize>)
    ensures
        who@ == lost(rs@, rs@.len()),
        forall|j: int| 0 <= j < who@.len() ==> (#[trigger] who@[j]) < rs@.len(),
{
    let mut who: Vec<usize> = Vec::new();
    let mut k: usize = 0;
    while k < rs.len()
        invariant
            k <= rs@.len(),
            who@ == lost(rs@, k as nat),
            forall|j: int| 0 <= j < who@.len() ==> (#[trigger] who@[j]) < rs@.len(),
        decreases rs@.len() - k,
    {
        if rs[k].needs_search_target {
            who.push(k);
        }
        k = k + 1;
    }
    who
}

fn who_caught(rs: &Vec<StepReport>) -> (any: bool)
    ensures
        any == catch_made(rs@, rs@.len()),
{
    let mut k: usize = 0;
    while k < rs.len()
        invariant
            k <= rs@.len(),
            forall|j: int| 0 <= j < k ==> !(#[trigger] rs@[j]).caught,
        decreases rs@.len() - k,
    {
        if rs[k].caught {
            assert(rs@[k as int].caught);
            return true;
        }
        k = k + 1;
    }
    false
}

fn corpses_at_rest(rs: &Vec<StepReport>) -> (slow: Vec<bool>)
    ensures
        slow@.len() == rs@.len(),
        forall|i: int| 0 <= i < rs@.len() ==> #[trigger] slow@[i] == rs@[i].slow,
{
    let mut slow: Vec<bool> = Vec::new();
    let mut k: usize = 0;
    while k < rs.len()
        invariant
            k <= rs@.len(),
            slow@.len() == k,
            forall|i: int| 0 <= i < k ==> #[trigger] slow@[i] == rs@[i].slow,
        decreases rs@.len() - k,
    {
        slow.push(rs[k].slow);
        k = k + 1;
    }
    slow
}

proof fn lemma_sent_out_len(map: SearchMap, hs: Seq<Hunter>, who: Seq<usize>, n: nat)
    requires
        n <= who.len(),
        forall|j: int| 0 <= j < who.len() ==> (#[trigger] who[j]) < hs.len(),
    ensures
        map.sent_out(hs, who, n).len() == hs.len(),
    decreases n,
{
    if n > 0 {
        lemma_sent_out_len(map, hs, who, (n - 1) as nat);
    }
}

impl World {
    fn who_fires(&self, rs: &Vec<StepReport>) -> (who: Vec<usize>)
        requires
            rs@.len() == self.hunters@.len(),
        ensures
            who@ == self.firing(rs@, rs@.len()),
    {
        let pd: bool = self.settings.ai_mode == AiMode::Pd;
        let mut who: Vec<usize> = Vec::new();
        let mut k: usize = 0;
        while k < rs.len()
            invariant
                k <= rs@.len(),
                rs@.len() == self.hunters@.len(),
                pd == (self.settings.ai_mode == AiMode::Pd),
                who@ == self.firing(rs@, k as nat),
            decreases rs@.len() - k,
        {
            let r: StepReport = rs[k];
            let h: Hunter = self.hunters[k];
            let wants: bool = match r.aim {
                Some(a) => a.want_fire && h.fire_elapsed.is_none(),
                None => r.want_fire,
            };
            if wants && !(pd && h.reload_timer > 0) {
                who.push(k);
            }
            k = k + 1;
        }
        who
    }

    fn decide(&mut self, rs: &Vec<StepReport>)
        requires
            rs@.len() == old(self).hunters@.len(),
        ensures
            final(self).hunters@ == all_decided(old(self).hunters@, rs@),
            *final(self) == (World { hunters: final(self).hunters, ..*old(self) }),
    {
        let mut k: usize = 0;
        while k < self.hunters.len()
            invariant
                k <= self.hunters@.len(),
                rs@.len() == self.hunters@.len(),
                self.hunters@.len() == old(self).hunters@.len(),
                *self == (World { hunters: self.hunters, ..*old(self) }),
                forall|j: int|
                    0 <= j < k ==> #[trigger] self.hunters@[j] == decided(
                        j as usize,
                        old(self).hunters@[j],
                        rs@[j],
                    ),
                forall|j: int|
                    k <= j < self.hunters@.len() ==> #[trigger] self.hunters@[j] == old(
                        self).hunters@[j],
            decreases self.hunters@.len() - k,
        {
            let r: StepReport = rs[k];
            let mut h: Hunter = self.hunters[k];
            h.state = r.state;
            h.engaged = r.engaged;
            h.last_known = r.last_known;
            if let Some(a) = r.aim {
                h.pd_debug = Some(read_out(k, &self.hunters[k], r.state, a.target));
                h.render_yaw = Some(a.yaw);
                h.target = a.target;
            }
            self.hunters.set(k, h);
            k = k + 1;
        }
        assert(self.hunters@ =~= all_decided(old(self).hunters@, rs@));
    }

    fn walk(&mut self, rs: &Vec<StepReport>)
        requires
            rs@.len() == old(self).hunters@.len(),
        ensures
            final(self).hunters@ == all_moved(old(self).hunters@, rs@),
            *final(self) == (World { hunters: final(self).hunters, ..*old(self) }),
    {
        let mut k: usize = 0;
        while k < self.hunters.len()
            invariant
                k <= self.hunters@.len(),
                rs@.len() == self.hunters@.len(),
                self.hunters@.len() == old(self).hunters@.len(),
                *self == (World { hunters: self.hunters, ..*old(self) }),
                forall|j: int|
                    0 <= j < k ==> #[trigger] self.hunters@[j] == (Hunter {
                        pos: rs@[j].pos,
                        vel: rs@[j].vel,
                        ..old(self).hunters@[j]
                    }),
                forall|j: int|
                    k <= j < self.hunters@.len() ==> #[trigger] self.hunters@[j] == old(
                        self).hunters@[j],
            decreases self.hunters@.len() - k,
        {
            let mut h: Hunter = self.hunters[k];
            h.pos = rs[k].pos;
            h.vel = rs[k].vel;
            self.hunters.set(k, h);
            k = k + 1;
        }
        assert(self.hunters@ =~= all_moved(old(self).hunters@, rs@));
    }

    /// Sends hunter `i` to look at the place picked for it.
    pub fn assign_search(&mut self, i: usize)
        ensures
            i >= old(self).hunters@.len() ==> *final(self) == *old(self),
            i < old(self).hunters@.len() ==> final(self).hunters@ == old(self).hunters@.update(
                i as int,
                Hunter {
                    search_target: Some(
                        old(self).search_map().pick(old(self).hunters@, i as int),
                    ),
                    ..old(self).hunters@[i as int]
                },
            ),
            *final(self) == (World { hunters: final(self).hunters, ..*old(self) }),
    {
        if i < self.hunters.len() {
            let p: Point = self.pick_search_point(i);
            let mut h: Hunter = self.hunters[i];
            h.search_target = Some(p);
            self.hunters.set(i, h);
        }
    }

    fn send_out(&mut self, who: &Vec<usize>)
        requires
            forall|k: int| 0 <= k < who@.len() ==> (#[trigger] who@[k]) < old(self).hunters@.len(),
        ensures
            final(self).hunters@ == old(self).search_map().sent_out(
                old(self).hunters@,
                who@,
                who@.len(),
            ),
            *final(self) == (World { hunters: final(self).hunters, ..*old(self) }),
    {
        let mut k: usize = 0;
        while k < who.len()
            invariant
                k <= who@.len(),
                forall|j: int|
                    0 <= j < who@.len() ==> (#[trigger] who@[j]) < old(self).hunters@.len(),
                self.hunters@.len() == old(self).hunters@.len(),
                self.hunters@ == old(self).search_map().sent_out(
                    old(self).hunters@,
                    who@,
                    k as nat,
                ),
                *self == (World { hunters: self.hunters, ..*old(self) }),
            decreases who@.len() - k,
        {
            assert(self.search_map() == old(self).search_map());
            self.assign_search(who[k]);
            k = k + 1;
        }
    }

    /// What a running step makes of the world. The minds are made up first, and packmates
    /// called from where they stand; then everybody moves, the player is heard and flushed out,
    /// the lost are sent somewhere, doors are asked for, and corpses and staggers age.
    pub open spec fn is_stepped(
        before: World,
        dt: u32,
        speed: u32,
        rs: Seq<StepReport>,
        after: World,
        plan: StepPlan,
    ) -> bool {
        let minds = all_decided(before.hunters@, rs);
        let moved = all_moved(minds, rs);
        let sent = before.search_map().sent_out(moved, plan.search@, plan.search@.len());
        &&& plan.calls@ == calls(minds, minds.len())
        &&& plan.heard@ == movement_heard(
            moved,
            before.player.pos,
            speed,
            before.settings.difficulty,
        )
        &&& is_flushed(
            before.camp,
            before.settings,
            before.player.pos,
            moved,
            dt,
            after.camp,
            plan.thrower,
        )
        &&& plan.fire@ == before.firing(rs, rs.len())
        &&& plan.search@ == lost(rs, rs.len())
        &&& rising(plan.doors@)
        &&& forall|d: usize| #[trigger]
            plan.doors@.contains(d) <==> wanted_door(rs, d, rs.len())
        &&& after.hunters@ == all_aged(sent, rs, dt)
        &&& plan.gone@ == all_let_go(sent, after.hunters@, sent.len())
        &&& after.caught == (before.caught || catch_made(rs, rs.len()))
        &&& plan.newly_caught == (catch_made(rs, rs.len()) && !before.caught)
        &&& after == (World {
            hunters: after.hunters,
            camp: after.camp,
            caught: after.caught,
            ..before
        })
    }

    /// Takes a step of length `dt` in which the player moved at `speed` and every hunter has
    /// decided and moved: who is called, who hears the player, who throws a grenade, who fires,
    /// who is sent where, which doors open, which rigid bodies go, and whether the player is
    /// caught. A step that does not run changes nothing and asks for nothing.
    pub fn fixed_step(&mut self, dt: u32, speed: u32, rs: &Vec<StepReport>) -> (plan: StepPlan)
        requires
            rs@.len() == old(self).hunters@.len(),
            old(self).settings.wf(),
        ensures
            old(self).gate() != StepGate::Run ==> *final(self) == *old(self) && plan.calls@.len()
                == 0 && plan.heard@.len() == 0 && plan.thrower is None && plan.fire@.len() == 0
                && plan.search@.len() == 0 && plan.doors@.len() == 0 && plan.gone@.len() == 0
                && !plan.newly_caught,
            old(self).gate() == StepGate::Run ==> World::is_stepped(
                *old(self),
                dt,
                speed,
                rs@,
                *final(self),
                plan,
            ),
    {
        let gate: StepGate = self.step_gate();
        if gate != StepGate::Run {
            return StepPlan {
                calls: Vec::new(),
                heard: Vec::new(),
                thrower: None,
                fire: Vec::new(),
                search: Vec::new(),
                doors: Vec::new(),
                gone: Vec::new(),
                newly_caught: false,
            };
        }
        let fire: Vec<usize> = self.who_fires(rs);
        self.decide(rs);
        let calls: Vec<(usize, Point)> = squad_alert(&self.hunters);
        self.walk(rs);
        let heard: Vec<usize> = self.alert_enemies_to_movement(speed);
        let thrower: Option<usize> = self.grenade_flush_step(dt);
        let search: Vec<usize> = who_is_lost(rs);
        self.send_out(&search);
        let ghost sent = self.hunters@;
        proof {
            lemma_sent_out_len(
                old(self).search_map(),
                all_moved(all_decided(old(self).hunters@, rs@), rs@),
                search@,
                search@.len(),
            );
        }
        let doors: Vec<usize> = doors_wanted(rs);
        let slow: Vec<bool> = corpses_at_rest(rs);
        let gone: Vec<u64> = self.advance_ragdolls(dt, &slow);
        assert(self.hunters@ =~= all_aged(sent, rs@, dt));
        let any: bool = who_caught(rs);
        let newly_caught: bool = any && !self.caught;
        if any {
            self.caught = true;
        }
        StepPlan { calls, heard, thrower, fire, search, doors, gone, newly_caught }
    }
}

/// A burst is never restarted while it runs, and never started during a reload by Perfect
/// Dark's rule.
pub proof fn triggers_are_held(w: World, h: Hunter, r: StepReport)
    ensures
        r.aim is Some && h.fire_elapsed is Some ==> !w.wants_fire(h, r),
        w.settings.ai_mode == AiMode::Pd && h.reload_timer > 0 ==> !w.wants_fire(h, r),
{
}

proof fn lemma_sent_out_keeps(map: SearchMap, hs: Seq<Hunter>, who: Seq<usize>, n: nat, i: int)
    requires
        n <= who.len(),
        forall|j: int| 0 <= j < who.len() ==> (#[trigger] who[j]) < hs.len(),
        0 <= i < hs.len(),
    ensures
        map.sent_out(hs, who, n).len() == hs.len(),
        map.sent_out(hs, who, n)[i] == (Hunter {
            search_target: map.sent_out(hs, who, n)[i].search_target,
            ..hs[i]
        }),
        (forall|j: int| 0 <= j < n ==> who[j] != i) ==> map.sent_out(hs, who, n)[i] == hs[i],
    decreases n,
{
    if n > 0 {
        lemma_sent_out_keeps(map, hs, who, (n - 1) as nat, i);
    }
}

proof fn lemma_lost_are_lost(rs: Seq<StepReport>, n: nat)
    requires
        n <= rs.len() <= usize::MAX,
    ensures
        forall|k: int|
            0 <= k < lost(rs, n).len() ==> (#[trigger] lost(rs, n)[k]) < n && rs[lost(
                rs,
                n,
            )[k] as int].needs_search_target,
    decreases n,
{
    if n > 0 {
        lemma_lost_are_lost(rs, (n - 1) as nat);
    }
}

/// A step hurts nobody and disarms nobody, and sends nobody anywhere that did not ask.
pub proof fn a_step_leaves_the_rest_alone(
    before: World,
    dt: u32,
    speed: u32,
    rs: Seq<StepReport>,
    after: World,
    plan: StepPlan,
    i: int,
)
    requires
        World::is_stepped(before, dt, speed, rs, after, plan),
        rs.len() == before.hunters@.len() <= usize::MAX,
        0 <= i < rs.len(),
    ensures
        after.hunters@.len() == before.hunters@.len(),
        after.hunters@[i].health == before.hunters@[i].health,
        after.hunters@[i].dead == before.hunters@[i].dead,
        after.hunters@[i].weapon == before.hunters@[i].weapon,
        after.hunters@[i].loaded == before.hunters@[i].loaded,
        after.hunters@[i].pos == rs[i].pos,
        !rs[i].needs_search_target ==> after.hunters@[i].search_target
            == before.hunters@[i].search_target,
{
    let moved = all_moved(all_decided(before.hunters@, rs), rs);
    lemma_lost_are_lost(rs, rs.len());
    lemma_sent_out_keeps(before.search_map(), moved, plan.search@, plan.search@.len(), i);
}

/// While building the camera flies, after a round nothing moves, a dead player waits, without a
/// player only the round's clock runs, and otherwise everything does.
pub proof fn a_step_runs_when_someone_plays(w: World)
    ensures
        w.gate() is Fly <==> w.mode == Mode::Build,
        w.gate() is Frozen <==> w.mode == Mode::Hunt && w.round_over,
        w.gate() is DeathBeat <==> w.mode == Mode::Hunt && !w.round_over && w.player.dead,
        w.gate() is Empty <==> w.mode == Mode::Hunt && !w.round_over && !w.player.dead
            && w.player.pos is None,
        w.gate() is Run <==> w.mode == Mode::Hunt && !w.round_over && !w.player.dead
            && w.player.pos is Some,
{
}

/// A hunter out to fetch something neither sees nor knows of the player. Otherwise it can see a
/// visible player, and knows of it by Perfect Dark's model, or as a simulant where that is on. It
/// goes for the packmate that it picked while that one lives, and for the player otherwise.
pub proof fn hunters_get_their_orders(w: World, h: Hunter, fetching: bool)
    ensures
        ({
            let o = w.orders(h, fetching);
            &&& fetching ==> !o.detectable && !o.omniscient
            &&& !fetching ==> o.detectable == !w.player.invisible
            &&& !fetching ==> (o.omniscient <==> w.settings.ai_mode == AiMode::Pd || (
            w.settings.pd_omniscience && h.simulant))
            &&& o.utility == w.settings.utility_ai
            &&& w.settings.wall_clearance ==> o.clearance == 200
            &&& !w.settings.wall_clearance ==> o.clearance == 0
            &&& o.firing == (h.fire_elapsed is Some)
            &&& h.fire_elapsed is Some ==> o.aim_offset == h.fire.angle_offset
            &&& h.fire_elapsed is None ==> o.aim_offset == 0
            &&& (h.target matches Some(Target::Hunter(j)) && j < w.hunters@.len()
                && !w.hunters@[j as int].dead) ==> o.engage == h.target->0
            &&& !(h.target matches Some(Target::Hunter(j)) && j < w.hunters@.len()
                && !w.hunters@[j as int].dead) ==> o.engage is Player
        }),
{
}

/// A hunter sees what the level leaves clear: the player while it is alive and visible, and
/// living packmates, but not itself.
pub proof fn hunters_see_what_is_in_the_open(w: World, me: usize, clear: bool, j: usize)
    ensures
        w.sees(me, Target::Player, clear) <==> clear && !w.player.dead && !w.player.invisible,
        w.sees(me, Target::Hunter(j), clear) <==> clear && j != me && j < w.hunters@.len()
            && !w.hunters@[j as int].dead,
{
}

/// A hunter starts a burst when its aim model wants to and none is running, or, without one, when
/// it decided to; but not while it reloads by Perfect Dark's rule. They are listed in order.
pub proof fn hunters_fire_when_they_mean_to(w: World, rs: Seq<StepReport>, n: nat)
    requires
        n <= w.hunters@.len() <= usize::MAX,
        rs.len() == w.hunters@.len(),
    ensures
        forall|k: int| 0 <= k < w.firing(rs, n).len() ==> (#[trigger] w.firing(rs, n)[k]) < n,
        forall|a: int, b: int|
            0 <= a < b < w.firing(rs, n).len() ==> (#[trigger] w.firing(rs, n)[a]) < (#[trigger] w.firing(rs, n)[b]),
        forall|i: int|
            0 <= i < n ==> (#[trigger] w.firing(rs, n).contains(i as usize) <==> ((rs[i].aim matches Some(a) && a.want_fire && w.hunters@[i].fire_elapsed is None || rs[i].aim is None && rs[i].want_fire) && !(w.settings.ai_mode == AiMode::Pd && w.hunters@[i].reload_timer > 0))),
    decreases n,
{
    if n > 0 {
        hunters_fire_when_they_mean_to(w, rs, (n - 1) as nat);
        let rest = w.firing(rs, (n - 1) as nat);
        let all = w.firing(rs, n);
        
        assert forall|i: int| 0 <= i < n implies (#[trigger] all.contains(i as usize) <==> ((rs[i].aim matches Some(a) && a.want_fire && w.hunters@[i].fire_elapsed is None || rs[i].aim is None && rs[i].want_fire) && !(w.settings.ai_mode == AiMode::Pd && w.hunters@[i].reload_timer > 0))) by {
            
            if i < n - 1 {
                if rest.contains(i as usize) {
                    let k = choose|k: int| 0 <= k < rest.len() && rest[k] == i as usize;
                    assert(all[k] == i as usize);
                }
                if all.contains(i as usize) {
                    let k = choose|k: int| 0 <= k < all.len() && all[k] == i as usize;
                    assert(k < rest.len());
                    assert(rest[k] == i as usize);
                }
            } else {
                if ((rs[i].aim matches Some(a) && a.want_fire && w.hunters@[i].fire_elapsed is None || rs[i].aim is None && rs[i].want_fire) && !(w.settings.ai_mode == AiMode::Pd && w.hunters@[i].reload_timer > 0)) {
                    assert(all[rest.len() as int] == i as usize);
                }
                if all.contains(i as usize) {
                    let k = choose|k: int| 0 <= k < all.len() && all[k] == i as usize;
                    if k < rest.len() {
                        assert(rest[k] < n - 1);
                    }
                }
            }
        }
    }
}

/// Every hunter that needs a place to look at is listed, in order, and no other is.
pub proof fn the_lost_are_sent_to_look(rs: Seq<StepReport>, n: nat)
    requires
        n <= rs.len() <= usize::MAX,
    ensures
        forall|k: int| 0 <= k < lost(rs, n).len() ==> (#[trigger] lost(rs, n)[k]) < n,
        forall|a: int, b: int|
            0 <= a < b < lost(rs, n).len() ==> (#[trigger] lost(rs, n)[a]) < (#[trigger] lost(rs, n)[b]),
        forall|i: int|
            0 <= i < n ==> (#[trigger] lost(rs, n).contains(i as usize) <==> rs[i].needs_search_target),
    decreases n,
{
    if n > 0 {
        the_lost_are_sent_to_look(rs, (n - 1) as nat);
        let rest = lost(rs, (n - 1) as nat);
        let all = lost(rs, n);
        
        assert forall|i: int| 0 <= i < n implies (#[trigger] all.contains(i as usize) <==> rs[i].needs_search_target) by {
            
            if i < n - 1 {
                if rest.contains(i as usize) {
                    let k = choose|k: int| 0 <= k < rest.len() && rest[k] == i as usize;
                    assert(all[k] == i as usize);
                }
                if all.contains(i as usize) {
                    let k = choose|k: int| 0 <= k < all.len() && all[k] == i as usize;
                    assert(k < rest.len());
                    assert(rest[k] == i as usize);
                }
            } else {
                if rs[i].needs_search_target {
                    assert(all[rest.len() as int] == i as usize);
                }
                if all.contains(i as usize) {
                    let k = choose|k: int| 0 <= k < all.len() && all[k] == i as usize;
                    if k < rest.len() {
                        assert(rest[k] < n - 1);
                    }
                }
            }
        }
    }
}

/// A step takes every hunter at its word: what it is about, whether it fights, where it last knew
/// the player to be, where it went and how it moves. Its aim model, where it has one, turns its
/// body and picks its target, and leaves a readout of it as it was.
pub proof fn a_step_takes_hunters_at_their_word(
    before: World,
    dt: u32,
    speed: u32,
    rs: Seq<StepReport>,
    after: World,
    plan: StepPlan,
    i: int,
)
    requires
        World::is_stepped(before, dt, speed, rs, after, plan),
        rs.len() == before.hunters@.len() <= usize::MAX,
        0 <= i < rs.len(),
    ensures
        ({
            let (h, r, a) = (before.hunters@[i], rs[i], after.hunters@[i]);
            &&& a.state == r.state && a.engaged == r.engaged && a.last_known == r.last_known
            &&& a.pos == r.pos && a.vel == r.vel
            &&& match r.aim {
                Some(m) => {
                    &&& a.render_yaw == Some(m.yaw) && a.target == m.target
                    &&& a.pd_debug matches Some(d) && d.id == i && d.health == h.health
                        && d.max_health == h.max_health && d.dead == h.dead && d.state == r.state
                        && (match m.target {
                        Some(Target::Hunter(j)) => d.target_hunter == Some(j),
                        _ => d.target_hunter is None,
                    }) && (h.fire_elapsed is Some ==> d.fire_offset == Some(h.fire.angle_offset))
                        && (h.fire_elapsed is None ==> d.fire_offset is None)
                },
                None => a.render_yaw == h.render_yaw && a.target == h.target && a.pd_debug
                    == h.pd_debug,
            }
            &&& a.health == h.health && a.dead == h.dead && a.weapon == h.weapon && a.dual
                == h.dual && a.body == h.body && a.collider == h.collider && a.simulant
                == h.simulant
            &&& a.loaded == h.loaded && a.reserve == h.reserve && a.reload_timer
                == h.reload_timer && a.unseen == h.unseen && a.shot_timer == h.shot_timer
                && a.burst_shot == h.burst_shot && a.fire_elapsed == h.fire_elapsed && a.fire
                == h.fire && a.muzzle_timer == h.muzzle_timer && a.hit_part == h.hit_part
        }),
{
    let moved = all_moved(all_decided(before.hunters@, rs), rs);
    lemma_lost_are_lost(rs, rs.len());
    lemma_sent_out_keeps(before.search_map(), moved, plan.search@, plan.search@.len(), i);
}

/// In a step, hunters are called by where they stand before it and by what its minds decided: a
/// living hunter that is in no fight is called exactly when a living one within twelve metres is
/// in a fight and knows where the player was.
pub proof fn a_step_calls_the_pack(
    before: World,
    dt: u32,
    speed: u32,
    rs: Seq<StepReport>,
    after: World,
    plan: StepPlan,
    i: int,
    j: int,
)
    requires
        World::is_stepped(before, dt, speed, rs, after, plan),
        rs.len() == before.hunters@.len() <= usize::MAX,
        0 <= i < rs.len(),
        0 <= j < rs.len(),
        !before.hunters@[i].dead,
        !rs[i].engaged,
        !before.hunters@[j].dead,
        rs[j].engaged,
        rs[j].last_known is Some,
        before.hunters@[j].pos.dist2_to(before.hunters@[i].pos) < 12_000 * 12_000,
    ensures
        exists|k: int| 0 <= k < plan.calls@.len() && (#[trigger] plan.calls@[k]).0 == i,
{
    let minds = all_decided(before.hunters@, rs);
    crate::pack::quiet_hunters_are_called_to_the_closest_fight(minds, minds.len());
    assert(crate::pack::misses_a_fight(minds, i)) by {
        reveal(crate::pack::misses_a_fight);
        assert(crate::pack::fights_near(minds[j], minds[i].pos));
    }
}

/// Doors are opened for whoever wants one opened, each once and in order, and the player is caught
/// when somebody caught it, and stays so.
pub proof fn a_step_opens_doors_and_catches(
    before: World,
    dt: u32,
    speed: u32,
    rs: Seq<StepReport>,
    after: World,
    plan: StepPlan,
    i: int,
    k: int,
)
    requires
        World::is_stepped(before, dt, speed, rs, after, plan),
    ensures
        0 <= i < rs.len() && rs[i].pending_door is Some ==> plan.doors@.contains(
            rs[i].pending_door->0,
        ),
        0 <= k < plan.doors@.len() ==> exists|j: int|
            0 <= j < rs.len() && (#[trigger] rs[j]).pending_door == Some(plan.doors@[k]),
        0 <= i < k < plan.doors@.len() ==> plan.doors@[i] < plan.doors@[k],
        0 <= i < rs.len() && rs[i].caught ==> after.caught && (plan.newly_caught <==> !before.caught),
        before.caught ==> after.caught && !plan.newly_caught,
        !before.caught && (forall|j: int| 0 <= j < rs.len() ==> !(#[trigger] rs[j]).caught)
            ==> !after.caught && !plan.newly_caught,
{
    if 0 <= i < rs.len() && rs[i].pending_door is Some {
        let d = rs[i].pending_door->0;
        assert(rs[i].pending_door == Some(d));
        assert(wanted_door(rs, d, rs.len()));
    }
    if 0 <= k < plan.doors@.len() {
        let d = plan.doors@[k];
        assert(plan.doors@.contains(d));
        assert(wanted_door(rs, d, rs.len()));
    }
    if 0 <= i < rs.len() && rs[i].caught {
        assert(catch_made(rs, rs.len()));
    }
}

/// A hunter that needs a place to look at is sent to one that the search map would pick for it
/// with the pack as it then stands.
pub proof fn a_step_sends_the_lost_somewhere(
    map: SearchMap,
    hs: Seq<Hunter>,
    who: Seq<usize>,
    k: int,
    n: nat,
)
    requires
        0 <= k < n <= who.len(),
        forall|j: int| 0 <= j < who.len() ==> (#[trigger] who[j]) < hs.len(),
        forall|a: int, b: int| 0 <= a < b < who.len() ==> (#[trigger] who[a]) < (#[trigger] who[b]),
    ensures
        ({
            let before = map.sent_out(hs, who, k as nat);
            map.sent_out(hs, who, n)[who[k] as int].search_target == Some(
                map.pick(before, who[k] as int),
            )
        }),
    decreases n,
{
    lemma_sent_out_len(map, hs, who, (n - 1) as nat);
    if k < n - 1 {
        a_step_sends_the_lost_somewhere(map, hs, who, k, (n - 1) as nat);
        assert(who[k] < who[n - 1]);
    } else {
        lemma_sent_out_len(map, hs, who, k as nat);
    }
}

/// The search map of a world is the places of its spawn pool, its player and its entrance.
pub proof fn the_search_map_is_the_spawn_pools(w: World)
    ensures
        w.search_map().points == w.spawn.search_points@,
        w.search_map().player == w.player.pos,
        w.search_map().home == w.spawn.point,
{
}

} // verus!
