//! Gunfire: who is hit, what it does to them, and what the hunters hear of it.
use vstd::prelude::*;

use crate::hunter::Hunter;
use crate::rng::{drawn, rand_below, shifted};
use crate::settings::CAPSULE_REF_HEIGHT;
use crate::space::Point;
use crate::ticks::{later, left};
use crate::world::World;

verus! {

/// How many cries of pain there are to choose from.
pub const PAIN_COUNT: usize = 26;

/// How long a spark shows.
pub const SPARK_TTL: u32 = 144;

/// A spark on a wall, and the time it has left.
#[derive(Clone, Copy, PartialEq, Eq, Debug, Structural)]
pub struct Spark {
    pub pos: Point,
    pub ttl: u32,
}

/// How long the player has stayed in one place.
#[derive(Clone, Copy, PartialEq, Eq, Debug, Structural)]
pub struct Camp {
    pub anchor: Option<Point>,
    pub timer: u32,
    /// Time until the pack may throw another grenade.
    pub cooldown: u32,
}

impl Camp {
    pub fn new() -> (c: Camp)
        ensures
            c == (Camp { anchor: None, timer: 0, cooldown: 0 }),
    {
        Camp { anchor: None, timer: 0, cooldown: 0 }
    }
}

/// How many animations there are to choose from: the authored injuries and deaths of each
/// body part, the flinches of each zone, and the deaths that fit anyone.
pub struct ClipTables {
    pub injuries: Vec<usize>,
    pub deaths: Vec<usize>,
    /// The part that a hit counts for when none was found.
    pub torso: usize,
    pub head_flinches: usize,
    pub torso_flinches: usize,
    pub leg_flinches: usize,
    pub death_clips: usize,
}

pub open spec fn rows_in(rows: Seq<usize>, part: int) -> usize {
    if 0 <= part < rows.len() {
        rows[part]
    } else {
        0
    }
}

// ---- Line of sight ----

/// Whether a surface `first_hit` along the line, the first one if there is any, leaves the
/// view from `eye` to `target` clear. The last stretch does not count, so that the surface
/// that a blast sits on does not hide it.
pub fn los_clear(eye: Point, target: Point, first_hit: Option<u32>) -> (clear: bool)
    ensures
        clear == (eye.dist2_to(target) < 150 * 150 || match first_hit {
            None => true,
            Some(h) => (h + 150) * (h + 150) > eye.dist2_to(target),
        }),
{
    let d: u128 = eye.dist2(&target);
    if d < 22500 {
        return true;
    }
    match first_hit {
        None => true,
        Some(h) => {
            let r: u128 = h as u128 + 150;
            assert(0 <= r * r <= 0x1_0000_0100 * 0x1_0000_0100) by (nonlinear_arith)
                requires
                    0 <= r <= 0x1_0000_0100,
            ;
            r * r > d
        },
    }
}

// ---- Where a shot landed ----

/// A vertex of a posed body, with the joints that hold it and how strongly.
#[derive(Clone, Copy)]
pub struct PosedVertex {
    pub pos: Point,
    pub joints: [u16; 4],
    pub weights: [u32; 4],
}

impl PosedVertex {
    /// Whether any joint holds it.
    pub open spec fn held(self) -> bool {
        exists|k: int| 0 <= k < 4 && #[trigger] self.weights@[k] > 0
    }

    /// Whether joint slot `s` holds it most strongly, the first one if several do.
    pub open spec fn is_heaviest(self, s: int) -> bool {
        &&& 0 <= s < 4
        &&& self.weights@[s] > 0
        &&& forall|k: int| 0 <= k < 4 ==> #[trigger] self.weights@[k] <= self.weights@[s]
        &&& forall|k: int| 0 <= k < s ==> #[trigger] self.weights@[k] < self.weights@[s]
    }

    fn heaviest(&self) -> (s: Option<usize>)
        ensures
            match s {
                Some(s) => self.is_heaviest(s as int),
                None => !self.held(),
            },
    {
        let mut best: Option<usize> = None;
        let mut most: u32 = 0;
        let mut k: usize = 0;
        while k < 4
            invariant
                k <= 4,
                forall|j: int| 0 <= j < k ==> #[trigger] self.weights@[j] <= most,
                match best {
                    Some(s) => s < k && self.weights@[s as int] == most && most > 0 && forall|j: int|
                        0 <= j < s ==> #[trigger] self.weights@[j] < most,
                    None => most == 0,
                },
            decreases 4 - k,
        {
            if self.weights[k] > most {
                most = self.weights[k];
                best = Some(k);
            }
            k = k + 1;
        }
        best
    }
}

/// Whether `k` is the held vertex nearest to `hit`, the first one if several are.
pub open spec fn is_nearest(vs: Seq<PosedVertex>, hit: Point, k: int) -> bool {
    &&& 0 <= k < vs.len()
    &&& vs[k].held()
    &&& forall|j: int|
        0 <= j < vs.len() && (#[trigger] vs[j]).held() ==> vs[k].pos.dist2_to(hit)
            <= vs[j].pos.dist2_to(hit)
    &&& forall|j: int|
        0 <= j < k && (#[trigger] vs[j]).held() ==> vs[k].pos.dist2_to(hit) < vs[j].pos.dist2_to(
            hit,
        )
}

/// The body part that joint `j` belongs to, if it belongs to one.
pub open spec fn part_of(parts: Seq<Option<usize>>, j: int) -> Option<usize> {
    if 0 <= j < parts.len() {
        parts[j]
    } else {
        None
    }
}

/// Which body part a shot landed on: the part of the joint that holds the nearest vertex of
/// the skin most strongly. There is none when no vertex is held, or when that joint belongs
/// to no part.
pub fn nearest_hit_part(vs: &Vec<PosedVertex>, hit: Point, parts: &Vec<Option<usize>>) -> (part:
    Option<usize>)
    ensures
        forall|k: int, s: int|
            is_nearest(vs@, hit, k) && #[trigger] vs@[k].is_heaviest(s) ==> part == part_of(
                parts@,
                vs@[k].joints@[s] as int,
            ),
        (forall|k: int| 0 <= k < vs@.len() ==> !(#[trigger] vs@[k]).held()) ==> part is None,
{
    let mut best: Option<usize> = None;
    let mut near: u128 = 0;
    let mut slot: usize = 0;
    let mut k: usize = 0;
    while k < vs.len()
        invariant
            k <= vs@.len(),
            match best {
                Some(b) => {
                    &&& b < k
                    &&& vs@[b as int].held()
                    &&& vs@[b as int].is_heaviest(slot as int)
                    &&& near == vs@[b as int].pos.dist2_to(hit)
                    &&& forall|j: int|
                        0 <= j < k && (#[trigger] vs@[j]).held() ==> near <= vs@[j].pos.dist2_to(hit)
                    &&& forall|j: int|
                        0 <= j < b && (#[trigger] vs@[j]).held() ==> near < vs@[j].pos.dist2_to(hit)
                },
                None => forall|j: int| 0 <= j < k ==> !(#[trigger] vs@[j]).held(),
            },
        decreases vs@.len() - k,
    {
        let v: &PosedVertex = &vs[k];
        match v.heaviest() {
            Some(s) => {
                assert(v.weights@[s as int] > 0);
                assert(vs@[k as int].held());
                let d: u128 = v.pos.dist2(&hit);
                if best.is_none() || d < near {
                    best = Some(k);
                    near = d;
                    slot = s;
                }
            },
            None => {},
        }
        k = k + 1;
    }
    match best {
        None => None,
        Some(b) => {
            let j: usize = vs[b].joints[slot] as usize;
            proof {
                assert(is_nearest(vs@, hit, b as int));
                assert forall|k: int, s: int|
                    is_nearest(vs@, hit, k) && #[trigger] vs@[k].is_heaviest(s) implies k == b && s
                    == slot by {
                    assert(vs@[k].held());
                    assert(k == b);
                    assert(vs@[k].weights@[s] <= vs@[k].weights@[slot as int]);
                    assert(vs@[k].weights@[slot as int] <= vs@[k].weights@[s]);
                }
            }
            if j < parts.len() {
                parts[j]
            } else {
                None
            }
        },
    }
}

// ---- Zones ----

/// Where a shot landed, by its height above the feet.
#[derive(Clone, Copy, PartialEq, Eq, Debug, Structural)]
pub enum HitZone {
    Head,
    Torso,
    Legs,
}

/// The zone at `height` on a body that stands `body` tall: on the reference body the head
/// begins at 1.1 m and the legs end at 0.55 m, and both grow with the body.
pub open spec fn zone_at(height: int, body: u32) -> HitZone {
    if height * CAPSULE_REF_HEIGHT >= 1100 * body {
        HitZone::Head
    } else if height * CAPSULE_REF_HEIGHT < 550 * body {
        HitZone::Legs
    } else {
        HitZone::Torso
    }
}

impl HitZone {
    /// The damage multiplier, in tenths.
    pub open spec fn mult(self) -> int {
        match self {
            HitZone::Head => 40,
            HitZone::Torso => 10,
            HitZone::Legs => 6,
        }
    }

    pub fn classify(height: i64, body: u32) -> (z: HitZone)
        requires
            -0x1_0000_0000 <= height <= 0x1_0000_0000,
        ensures
            z == zone_at(height as int, body),
    {
        let h: i64 = height * CAPSULE_REF_HEIGHT as i64;
        if h >= 1100 * (body as i64) {
            HitZone::Head
        } else if h < 550 * (body as i64) {
            HitZone::Legs
        } else {
            HitZone::Torso
        }
    }
}

/// The damage that a shot of `base` does in a zone, as far as it can be counted.
pub open spec fn zone_damage(base: u32, zone: HitZone) -> u32 {
    let d = base * zone.mult() / 10;
    if d > u32::MAX {
        u32::MAX
    } else {
        d as u32
    }
}

fn damage_in(base: u32, zone: HitZone) -> (d: u32)
    ensures
        d == zone_damage(base, zone),
{
    let m: u64 = match zone {
        HitZone::Head => 40,
        HitZone::Torso => 10,
        HitZone::Legs => 6,
    };
    let d: u64 = base as u64 * m / 10;
    if d > u32::MAX as u64 {
        u32::MAX
    } else {
        d as u32
    }
}

/// A shot to the head hurts most and a shot to the legs least.
pub proof fn heads_hurt_more_than_legs(base: u32)
    ensures
        zone_damage(base, HitZone::Legs) <= zone_damage(base, HitZone::Torso),
        zone_damage(base, HitZone::Torso) == base,
        zone_damage(base, HitZone::Torso) <= zone_damage(base, HitZone::Head),
        4 * base <= u32::MAX ==> zone_damage(base, HitZone::Head) == 4 * base,
{
}

// ---- Reactions ----

/// How a hunter takes a hit.
#[derive(Clone, Copy, PartialEq, Eq, Debug, Structural)]
pub enum HitReaction {
    /// The authored death of the part that was hit, by row.
    AuthoredDeath(usize),
    /// A death that the physics plays.
    RagdollDeath,
    /// A death that fits anyone, by number.
    CannedDeath(usize),
    /// The authored injury of the part that was hit, by row.
    Injury(usize),
    /// A stagger that the physics plays.
    Stagger,
    /// A flinch of the zone that was hit, by number.
    Flinch(usize),
    Nothing,
}

#[derive(Clone, Copy, PartialEq, Eq, Debug, Structural)]
pub struct HitReport {
    pub zone: HitZone,
    pub damage: u32,
    /// Which cry of pain is heard, counted from one.
    pub pain: usize,
    pub died: bool,
    pub reaction: HitReaction,
    /// How long the hunter stands stunned, where that does not follow from an animation.
    pub stun: u32,
    /// The capsule to take out of the physics: a corpse cannot be shot.
    pub capsule: Option<u64>,
}

/// How long a stagger stuns.
pub const REACTION_STUN: u32 = 420;

/// The stun of a reaction.
pub open spec fn stun_of(reaction: HitReaction) -> u32 {
    if reaction is Stagger {
        REACTION_STUN
    } else {
        0
    }
}

impl ClipTables {
    pub open spec fn flinches(self, zone: HitZone) -> usize {
        match zone {
            HitZone::Head => self.head_flinches,
            HitZone::Torso => self.torso_flinches,
            HitZone::Legs => self.leg_flinches,
        }
    }

    fn flinch_count(&self, zone: HitZone) -> (n: usize)
        ensures
            n == self.flinches(zone),
    {
        match zone {
            HitZone::Head => self.head_flinches,
            HitZone::Torso => self.torso_flinches,
            HitZone::Legs => self.leg_flinches,
        }
    }

    fn row_count(rows: &Vec<usize>, part: usize) -> (n: usize)
        ensures
            n == rows_in(rows@, part as int),
    {
        if part < rows.len() {
            rows[part]
        } else {
            0
        }
    }
}

impl World {
    /// How many authored animations hunter `h` can react with.
    pub open spec fn authored_rows(self, h: Hunter, death: bool) -> usize {
        if !self.settings.authored_reactions || !h.pd_anims {
            0
        } else {
            let part = match h.hit_part {
                Some(p) => p,
                None => self.tables.torso,
            };
            rows_in(
                if death {
                    self.tables.deaths@
                } else {
                    self.tables.injuries@
                },
                part as int,
            )
        }
    }

    /// How a hunter dies, drawn from the generator at `rng`, and where the generator is then:
    /// an authored death before a ragdoll before one that fits anyone.
    pub open spec fn death_drawn(self, h: Hunter, rng: u64) -> (HitReaction, u64) {
        let rows = self.authored_rows(h, true);
        if rows > 0 {
            (HitReaction::AuthoredDeath(drawn(rng, rows) as usize), shifted(rng))
        } else if self.settings.ragdoll {
            (HitReaction::RagdollDeath, rng)
        } else {
            (
                HitReaction::CannedDeath(drawn(rng, self.tables.death_clips) as usize),
                shifted(rng),
            )
        }
    }

    /// How a hunter takes a hit that it survives: an authored injury (not from a blast)
    /// before a stagger before a flinch, if any of these are switched on.
    pub open spec fn injury_drawn(self, h: Hunter, zone: HitZone, blast: bool, rng: u64) -> (
        HitReaction,
        u64,
    ) {
        let rows = if blast {
            0
        } else {
            self.authored_rows(h, false)
        };
        if rows > 0 {
            (HitReaction::Injury(drawn(rng, rows) as usize), shifted(rng))
        } else if self.settings.ragdoll {
            (HitReaction::Stagger, rng)
        } else if self.settings.hit_reactions {
            (HitReaction::Flinch(drawn(rng, self.tables.flinches(zone)) as usize), shifted(rng))
        } else {
            (HitReaction::Nothing, rng)
        }
    }

    /// The hunter after a reaction: one that flinches from a shot drops the trigger.
    pub open spec fn after_reaction(h: Hunter, reaction: HitReaction, blast: bool) -> Hunter {
        match reaction {
            HitReaction::Injury(_) => h.ceased(),
            HitReaction::Stagger => if blast {
                Hunter {
                    reaction_time: if h.reaction is Some {
                        0
                    } else {
                        h.reaction_time
                    },
                    ..h
                }
            } else {
                Hunter {
                    reaction_time: if h.reaction is Some {
                        0
                    } else {
                        h.reaction_time
                    },
                    ..h.ceased()
                }
            },
            HitReaction::Flinch(_) => if blast {
                h
            } else {
                h.ceased()
            },
            _ => h,
        }
    }

    /// What a hit of `damage` in `zone` on the living hunter `h` does, with the generator at
    /// `start`: the report, the hunter, and the generator.
    pub open spec fn hit_outcome(
        self,
        start: u64,
        h: Hunter,
        zone: HitZone,
        damage: u32,
        blast: bool,
    ) -> (HitReport, Hunter, u64) {
        let hurt = h.hurt(damage);
        let pain = drawn(start, PAIN_COUNT) + 1;
        let rng = shifted(start);
        let (reaction, rng2) = if hurt.dead {
            self.death_drawn(hurt, rng)
        } else {
            self.injury_drawn(hurt, zone, blast, rng)
        };
        (
            HitReport {
                zone,
                damage,
                pain: pain as usize,
                died: hurt.dead,
                reaction,
                stun: stun_of(reaction),
                capsule: if hurt.dead {
                    Some(h.collider)
                } else {
                    None
                },
            },
            Self::after_reaction(hurt, reaction, blast),
            rng2,
        )
    }

    /// Whether hunter `i` exists and lives.
    pub open spec fn lives(self, i: int) -> bool {
        0 <= i < self.hunters@.len() && !self.hunters@[i].dead
    }

    fn authored_row_count(&self, h: &Hunter, death: bool) -> (n: usize)
        ensures
            n == self.authored_rows(*h, death),
    {
        if !self.settings.authored_reactions || !h.pd_anims {
            return 0;
        }
        let part: usize = match h.hit_part {
            Some(p) => p,
            None => self.tables.torso,
        };
        if death {
            ClipTables::row_count(&self.tables.deaths, part)
        } else {
            ClipTables::row_count(&self.tables.injuries, part)
        }
    }

    /// Applies a hit to a living hunter.
    fn apply_hit(&mut self, i: usize, hunter: Hunter, zone: HitZone, damage: u32, blast: bool) -> (r:
        HitReport)
        requires
            i < old(self).hunters@.len(),
            !hunter.dead,
        ensures
            r == old(self).hit_outcome(old(self).char_rng, hunter, zone, damage, blast).0,
            final(self).hunters@ == old(self).hunters@.update(
                i as int,
                old(self).hit_outcome(old(self).char_rng, hunter, zone, damage, blast).1,
            ),
            final(self).char_rng == old(self).hit_outcome(old(self).char_rng, hunter, zone, damage, blast).2,
            final(self).arms == if r.died {
                (crate::arms::Armory {
                    credits: later(old(self).arms.credits, old(self).arms.bounty),
                    ..old(self).arms
                })
            } else {
                old(self).arms
            },
            *final(self) == (World {
                hunters: final(self).hunters,
                char_rng: final(self).char_rng,
                arms: final(self).arms,
                ..*old(self)
            }),
    {
        let mut h: Hunter = hunter;
        let died: bool = h.take_damage(damage);
        let mut rng: u64 = self.char_rng;
        let pain: usize = rand_below(&mut rng, PAIN_COUNT) + 1;
        let rows: usize = if died || !blast {
            self.authored_row_count(&h, died)
        } else {
            0
        };
        let reaction: HitReaction = if died {
            if rows > 0 {
                HitReaction::AuthoredDeath(rand_below(&mut rng, rows))
            } else if self.settings.ragdoll {
                HitReaction::RagdollDeath
            } else {
                HitReaction::CannedDeath(rand_below(&mut rng, self.tables.death_clips))
            }
        } else if rows > 0 {
            HitReaction::Injury(rand_below(&mut rng, rows))
        } else if self.settings.ragdoll {
            HitReaction::Stagger
        } else if self.settings.hit_reactions {
            HitReaction::Flinch(rand_below(&mut rng, self.tables.flinch_count(zone)))
        } else {
            HitReaction::Nothing
        };
        match reaction {
            HitReaction::Injury(_) => {
                h.stop_fire();
            },
            HitReaction::Stagger => {
                if h.reaction.is_some() {
                    h.reaction_time = 0;
                }
                if !blast {
                    h.stop_fire();
                }
            },
            HitReaction::Flinch(_) => {
                if !blast {
                    h.stop_fire();
                }
            },
            _ => {},
        }
        self.char_rng = rng;
        self.hunters.set(i, h);
        if died {
            self.arms.award_kill();
        }
        let stun: u32 = match reaction {
            HitReaction::Stagger => REACTION_STUN,
            _ => 0,
        };
        let capsule: Option<u64> = if died {
            Some(hunter.collider)
        } else {
            None
        };
        HitReport { zone, damage, pain, died, reaction, stun, capsule }
    }

    /// Applies a shot of `base` damage that landed `height` above the feet of hunter `i`, on
    /// body part `part` if one was found. The dead are not hit again.
    pub fn hit_enemy_with(&mut self, i: usize, height: i64, base: u32, part: Option<usize>) -> (r:
        Option<HitReport>)
        requires
            -0x1_0000_0000 <= height <= 0x1_0000_0000,
        ensures
            r is Some <==> old(self).lives(i as int),
            r matches Some(rep) ==> {
                let h = Hunter { hit_part: part, ..old(self).hunters@[i as int] };
                let zone = zone_at(height as int, old(self).bodies.height_of(h.body as int));
                let out = old(self).hit_outcome(
                    old(self).char_rng,
                    h,
                    zone,
                    zone_damage(base, zone),
                    false,
                );
                &&& rep == out.0
                &&& final(self).hunters@ == old(self).hunters@.update(i as int, out.1)
                &&& final(self).char_rng == out.2
                &&& final(self).arms == if rep.died {
                    (crate::arms::Armory {
                        credits: later(old(self).arms.credits, old(self).arms.bounty),
                        ..old(self).arms
                    })
                } else {
                    old(self).arms
                }
            },
            r is None && i >= old(self).hunters@.len() ==> *final(self) == *old(self),
            r is None && i < old(self).hunters@.len() ==> final(self).hunters@ == old(self).hunters@.update(
                i as int,
                Hunter { hit_part: None, ..old(self).hunters@[i as int] },
            ) && final(self).char_rng == old(self).char_rng && final(self).arms == old(self).arms,
            *final(self) == (World {
                hunters: final(self).hunters,
                char_rng: final(self).char_rng,
                arms: final(self).arms,
                ..*old(self)
            }),
    {
        if i >= self.hunters.len() {
            return None;
        }
        let mut h: Hunter = self.hunters[i];
        if h.dead {
            h.hit_part = None;
            self.hunters.set(i, h);
            return None;
        }
        h.hit_part = part;
        let zone: HitZone = HitZone::classify(height, self.bodies.body_height(h.body));
        Some(self.apply_hit(i, h, zone, damage_in(base, zone), false))
    }

    /// Applies blast damage to hunter `i`. A blast has no zone; it counts as the torso.
    pub fn blast_hit_enemy(&mut self, i: usize, damage: u32) -> (r: Option<HitReport>)
        ensures
            r is Some <==> old(self).lives(i as int),
            r matches Some(rep) ==> {
                let out = old(self).hit_outcome(
                    old(self).char_rng,
                    old(self).hunters@[i as int],
                    HitZone::Torso,
                    damage,
                    true,
                );
                &&& rep == out.0
                &&& final(self).hunters@ == old(self).hunters@.update(i as int, out.1)
                &&& final(self).char_rng == out.2
                &&& final(self).arms == if rep.died {
                    (crate::arms::Armory {
                        credits: later(old(self).arms.credits, old(self).arms.bounty),
                        ..old(self).arms
                    })
                } else {
                    old(self).arms
                }
            },
            r is None ==> *final(self) == *old(self),
            *final(self) == (World {
                hunters: final(self).hunters,
                char_rng: final(self).char_rng,
                arms: final(self).arms,
                ..*old(self)
            }),
    {
        if i >= self.hunters.len() || self.hunters[i].dead {
            return None;
        }
        let h: Hunter = self.hunters[i];
        Some(self.apply_hit(i, h, HitZone::Torso, damage, true))
    }

    /// Applies damage to the player.
    pub fn take_player_damage(&mut self, damage: u32)
        ensures
            *final(self) == (World { player: old(self).player.hurt(damage), ..*old(self) }),
            old(self).player.wf() ==> final(self).player.wf(),
    {
        self.player.take_damage(damage);
    }
}

/// A hit costs a hunter exactly its damage, and the last one kills it.
pub proof fn hits_add_up(w: World, rng: u64, h: Hunter, zone: HitZone, damage: u32, blast: bool)
    requires
        h.wf(),
        !h.dead,
    ensures
        w.hit_outcome(rng, h, zone, damage, blast).1.health == left(h.health, damage),
        w.hit_outcome(rng, h, zone, damage, blast).1.dead <==> damage >= h.health,
        w.hit_outcome(rng, h, zone, damage, blast).1.wf(),
        w.hit_outcome(rng, h, zone, damage, blast).0.died <==> damage >= h.health,
{
}

/// A hunter that flinches from a shot stops firing at once.
pub proof fn a_flinch_drops_the_trigger(w: World, rng: u64, h: Hunter, zone: HitZone, damage: u32)
    requires
        !h.dead,
    ensures
        ({
            let out = w.hit_outcome(rng, h, zone, damage, false);
            !out.0.died && !(out.0.reaction is Nothing) ==> out.1.fire_elapsed is None
                && out.1.shot_timer == 0 && out.1.burst_shot == 0
        }),
{
}

/// The zones split a body of any height at the same parts of it: the head is the top, from eleven
/// fifteenths up, and the legs the lower eleven thirtieths.
pub proof fn zones_split_the_body(height: int, body: u32)
    requires
        body > 0,
    ensures
        zone_at(height, body) is Head <==> 15 * height >= 11 * body,
        zone_at(height, body) is Legs <==> 30 * height < 11 * body,
        zone_at(height, body) is Torso <==> 30 * height >= 11 * body && 15 * height < 11 * body,
{
}

/// The head takes four times the damage, the torso all of it and the legs six tenths, as far as
/// it can be counted.
pub proof fn zones_scale_damage(base: u32)
    ensures
        base <= 0x3fff_ffff ==> zone_damage(base, HitZone::Head) == 4 * base,
        base > 0x3fff_ffff ==> zone_damage(base, HitZone::Head) == u32::MAX,
        zone_damage(base, HitZone::Torso) == base,
        10 * zone_damage(base, HitZone::Legs) <= 6 * base < 10 * zone_damage(base, HitZone::Legs)
            + 10,
{
}

/// A hit comes off the health of the one it struck. It cries out with one of the pains there are;
/// it dies exactly when the damage is no less than its health, and then its capsule is let go; and
/// only a stagger stuns it, for 0.35 s.
pub proof fn a_hit_is_reported_as_it_was(
    w: World,
    rng: u64,
    h: Hunter,
    zone: HitZone,
    damage: u32,
    blast: bool,
)
    requires
        !h.dead,
    ensures
        ({
            let (r, after, _) = w.hit_outcome(rng, h, zone, damage, blast);
            &&& r.zone == zone && r.damage == damage
            &&& 1 <= r.pain <= 26
            &&& r.died <==> damage >= h.health
            &&& after.dead == r.died
            &&& damage < h.health ==> after.health == h.health - damage
            &&& damage >= h.health ==> after.health == 0
            &&& r.died ==> r.capsule == Some(h.collider)
            &&& !r.died ==> r.capsule is None
            &&& r.stun == (if r.reaction is Stagger {
                420int
            } else {
                0
            })
        }),
{
}

/// A death is the authored one of the part that was hit where there is one and it is wanted, the
/// ragdoll's where that is on, and one of the canned ones otherwise.
pub proof fn deaths_are_played_in_this_order(
    w: World,
    rng: u64,
    h: Hunter,
    zone: HitZone,
    damage: u32,
    blast: bool,
)
    requires
        !h.dead,
        damage >= h.health,
    ensures
        ({
            let r = w.hit_outcome(rng, h, zone, damage, blast).0.reaction;
            let part = match h.hit_part {
                Some(p) => p,
                None => w.tables.torso,
            };
            let authored = w.settings.authored_reactions && h.pd_anims && part
                < w.tables.deaths@.len() && w.tables.deaths@[part as int] > 0;
            &&& authored ==> (r matches HitReaction::AuthoredDeath(k) && k
                < w.tables.deaths@[part as int])
            &&& !authored && w.settings.ragdoll ==> r is RagdollDeath
            &&& !authored && !w.settings.ragdoll ==> (r matches HitReaction::CannedDeath(k) && (k
                < w.tables.death_clips || k == 0))
        }),
{
}

/// A wound from a shot is the authored one of the part that was hit where there is one and it is
/// wanted; otherwise, and for a blast, a stagger where ragdolls are on, a flinch of the zone where
/// those are on, and nothing where neither is.
pub proof fn wounds_are_played_in_this_order(
    w: World,
    rng: u64,
    h: Hunter,
    zone: HitZone,
    damage: u32,
    blast: bool,
)
    requires
        !h.dead,
        damage < h.health,
    ensures
        ({
            let r = w.hit_outcome(rng, h, zone, damage, blast).0.reaction;
            let part = match h.hit_part {
                Some(p) => p,
                None => w.tables.torso,
            };
            let authored = !blast && w.settings.authored_reactions && h.pd_anims && part
                < w.tables.injuries@.len() && w.tables.injuries@[part as int] > 0;
            let flinches = match zone {
                HitZone::Head => w.tables.head_flinches,
                HitZone::Torso => w.tables.torso_flinches,
                HitZone::Legs => w.tables.leg_flinches,
            };
            &&& authored ==> (r matches HitReaction::Injury(k) && k
                < w.tables.injuries@[part as int])
            &&& !authored && w.settings.ragdoll ==> r is Stagger
            &&& !authored && !w.settings.ragdoll && w.settings.hit_reactions ==> (r matches
                HitReaction::Flinch(k) && (k < flinches || k == 0))
            &&& !authored && !w.settings.ragdoll && !w.settings.hit_reactions ==> r is Nothing
        }),
{
}

/// A hit leaves a hunter as it was but for its health, its burst and the clock of a stagger. A
/// shot that it reacts to stops its burst, a blast does so only through an authored wound, and a
/// stagger under way starts over.
pub proof fn a_hit_changes_little_else(
    w: World,
    rng: u64,
    h: Hunter,
    zone: HitZone,
    damage: u32,
    blast: bool,
)
    requires
        !h.dead,
    ensures
        ({
            let (r, after, _) = w.hit_outcome(rng, h, zone, damage, blast);
            let stops = r.reaction is Injury || (!blast && (r.reaction is Stagger || r.reaction
                is Flinch));
            &&& stops ==> after.fire_elapsed is None && after.shot_timer == 0 && after.burst_shot
                == 0
            &&& !stops ==> after.fire_elapsed == h.fire_elapsed && after.shot_timer == h.shot_timer
                && after.burst_shot == h.burst_shot
            &&& r.reaction is Stagger && h.reaction is Some ==> after.reaction_time == 0
            &&& !(r.reaction is Stagger && h.reaction is Some) ==> after.reaction_time
                == h.reaction_time
            &&& after == (Hunter {
                health: after.health,
                dead: after.dead,
                fire_elapsed: after.fire_elapsed,
                shot_timer: after.shot_timer,
                burst_shot: after.burst_shot,
                reaction_time: after.reaction_time,
                ..h
            })
        }),
{
}

/// The vertex that decides which part was hit is held by some joint, and no vertex that is lies
/// closer; the joint that decides it is one that no other outweighs.
pub proof fn the_closest_skin_tells_the_part(
    vs: Seq<PosedVertex>,
    hit: Point,
    k: int,
    s: int,
    j: int,
    i: int,
)
    requires
        is_nearest(vs, hit, k),
        vs[k].is_heaviest(s),
        0 <= j < vs.len(),
        0 <= i < 4,
    ensures
        0 <= k < vs.len() && 0 <= s < 4 && vs[k].weights@[s] > 0,
        vs[j].weights@[i] > 0 ==> vs[k].pos.dist2_to(hit) <= vs[j].pos.dist2_to(hit),
        vs[j].weights@[i] > 0 && j < k ==> vs[k].pos.dist2_to(hit) < vs[j].pos.dist2_to(hit),
        vs[k].weights@[i] <= vs[k].weights@[s],
        i < s ==> vs[k].weights@[i] < vs[k].weights@[s],
{
    if vs[j].weights@[i] > 0 {
        assert(vs[j].held());
    }
}

/// A joint that belongs to no part of the body, or is none, tells no part.
pub proof fn joints_tell_their_part(parts: Seq<Option<usize>>, j: int)
    ensures
        0 <= j < parts.len() ==> part_of(parts, j) == parts[j],
        j < 0 || j >= parts.len() ==> part_of(parts, j) is None,
{
}

/// The cry, and then the clip where there is a choice, are drawn one after the other, and every
/// draw moves the generator on by one.
pub proof fn reactions_are_drawn(
    w: World,
    rng: u64,
    h: Hunter,
    zone: HitZone,
    damage: u32,
    blast: bool,
)
    requires
        !h.dead,
    ensures
        ({
            let (r, _, next) = w.hit_outcome(rng, h, zone, damage, blast);
            let part = match h.hit_part {
                Some(p) => p,
                None => w.tables.torso,
            } as int;
            let second = shifted(rng);
            &&& r.pain == drawn(rng, 26) + 1
            &&& match r.reaction {
                HitReaction::AuthoredDeath(k) => k == drawn(second, w.tables.deaths@[part]) && next
                    == shifted(second),
                HitReaction::CannedDeath(k) => k == drawn(second, w.tables.death_clips) && next
                    == shifted(second),
                HitReaction::Injury(k) => k == drawn(second, w.tables.injuries@[part]) && next
                    == shifted(second),
                HitReaction::Flinch(k) => k == drawn(
                    second,
                    match zone {
                        HitZone::Head => w.tables.head_flinches,
                        HitZone::Torso => w.tables.torso_flinches,
                        HitZone::Legs => w.tables.leg_flinches,
                    },
                ) && next == shifted(second),
                _ => next == second,
            }
        }),
{
}

} // verus!
