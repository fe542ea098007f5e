//! The wave: who comes, wearing which body and carrying which weapon.
use vstd::prelude::*;

use crate::hunt::{fire_clip_for, fire_slot};
use crate::hunter::{AiState, FireTiming, Hunter, WeaponSpec};
use crate::settings::{BodyRange, Clips, DiffParams};
use crate::space::Point;
use crate::world::World;

verus! {

/// A weapon of an arsenal, by name.
pub struct ArsenalWeapon {
    pub name: String,
    pub spec: WeaponSpec,
}

/// Which games' weapons are in play.
#[derive(Clone, Copy, PartialEq, Eq, Debug, Structural)]
pub enum Arsenal {
    GoldenEye,
    PerfectDark,
    Both,
}

/// What one hunter of a roster carries, and whether in both hands.
#[derive(Clone, Copy, PartialEq, Eq, Debug, Structural)]
pub struct RosterEntry {
    pub weapon: WeaponSpec,
    pub dual: bool,
}

/// The weapons that Perfect Dark's hunters are armed with, by name, and whether in both
/// hands.
pub open spec fn pd_picks() -> Seq<(Seq<char>, bool)> {
    seq![
        ("AR34"@, false),
        ("Falcon 2"@, false),
        ("RC-P120"@, true),
        ("Falcon 2"@, true),
        ("K7 Avenger"@, false),
        ("Shotgun (PD)"@, false),
    ]
}

/// The weapons that GoldenEye's hunters are armed with.
pub open spec fn ge_picks() -> Seq<(Seq<char>, bool)> {
    seq![
        ("KF7"@, false),
        ("PP7"@, false),
        ("RCP90"@, true),
        ("PP7"@, true),
        ("AR33"@, false),
        ("SHOTGUN"@, false),
    ]
}

/// The picks for the arsenal in play: Perfect Dark's when there is nothing else, and
/// GoldenEye's otherwise.
pub open spec fn picks_for(kind: Arsenal) -> Seq<(Seq<char>, bool)> {
    match kind {
        Arsenal::PerfectDark => pd_picks(),
        _ => ge_picks(),
    }
}

/// The first weapon of that name.
pub open spec fn named(arsenal: Seq<ArsenalWeapon>, name: Seq<char>) -> Option<WeaponSpec>
    decreases arsenal.len(),
{
    if arsenal.len() == 0 {
        None
    } else if arsenal[0].name@ == name {
        Some(arsenal[0].spec)
    } else {
        named(arsenal.skip(1), name)
    }
}

/// The roster of the first `n` picks; one that the arsenal lacks is left out.
pub open spec fn picked(
    picks: Seq<(Seq<char>, bool)>,
    arsenal: Seq<ArsenalWeapon>,
    n: nat,
) -> Seq<RosterEntry>
    decreases n,
{
    if n == 0 {
        Seq::empty()
    } else {
        let rest = picked(picks, arsenal, (n - 1) as nat);
        let (name, dual) = picks[n - 1];
        match named(arsenal, name) {
            Some(weapon) => rest.push(RosterEntry { weapon, dual }),
            None => rest,
        }
    }
}

fn find_named(arsenal: &Vec<ArsenalWeapon>, name: &str) -> (w: Option<WeaponSpec>)
    ensures
        w == named(arsenal@, name@),
{
    let want: String = name.to_owned();
    let mut k: usize = 0;
    assert(arsenal@.skip(0) =~= arsenal@);
    while k < arsenal.len()
        invariant
            k <= arsenal@.len(),
            want@ == name@,
            named(arsenal@, name@) == named(arsenal@.skip(k as int), name@),
        decreases arsenal@.len() - k,
    {
        assert(arsenal@.skip(k as int).skip(1) =~= arsenal@.skip(k + 1));
        if arsenal[k].name == want {
            return Some(arsenal[k].spec);
        }
        k = k + 1;
    }
    None
}

fn add_pick(out: &mut Vec<RosterEntry>, arsenal: &Vec<ArsenalWeapon>, name: &str, dual: bool)
    ensures
        final(out)@ == match named(arsenal@, name@) {
            Some(weapon) => old(out)@.push(RosterEntry { weapon, dual }),
            None => old(out)@,
        },
{
    match find_named(arsenal, name) {
        Some(weapon) => {
            out.push(RosterEntry { weapon, dual });
        },
        None => {},
    }
}

/// The roster of Perfect Dark's hunters.
pub fn pd_enemy_roster(arsenal: &Vec<ArsenalWeapon>) -> (out: Vec<RosterEntry>)
    ensures
        out@ == picked(pd_picks(), arsenal@, 6),
{
    let mut out: Vec<RosterEntry> = Vec::new();
    add_pick(&mut out, arsenal, "AR34", false);
    add_pick(&mut out, arsenal, "Falcon 2", false);
    add_pick(&mut out, arsenal, "RC-P120", true);
    add_pick(&mut out, arsenal, "Falcon 2", true);
    add_pick(&mut out, arsenal, "K7 Avenger", false);
    add_pick(&mut out, arsenal, "Shotgun (PD)", false);
    proof {
        reveal_with_fuel(picked, 7);
    }
    out
}

/// The roster of the other game's hunters.
pub fn ge_enemy_roster(arsenal: &Vec<ArsenalWeapon>) -> (out: Vec<RosterEntry>)
    ensures
        out@ == picked(ge_picks(), arsenal@, 6),
{
    let mut out: Vec<RosterEntry> = Vec::new();
    add_pick(&mut out, arsenal, "KF7", false);
    add_pick(&mut out, arsenal, "PP7", false);
    add_pick(&mut out, arsenal, "RCP90", true);
    add_pick(&mut out, arsenal, "PP7", true);
    add_pick(&mut out, arsenal, "AR33", false);
    add_pick(&mut out, arsenal, "SHOTGUN", false);
    proof {
        reveal_with_fuel(picked, 7);
    }
    out
}

/// The roster for the arsenal in play.
pub fn enemy_roster_for(kind: Arsenal, arsenal: &Vec<ArsenalWeapon>) -> (out: Vec<RosterEntry>)
    ensures
        out@ == picked(picks_for(kind), arsenal@, 6),
{
    match kind {
        Arsenal::PerfectDark => pd_enemy_roster(arsenal),
        _ => ge_enemy_roster(arsenal),
    }
}

proof fn lemma_named_is_there(arsenal: Seq<ArsenalWeapon>, name: Seq<char>)
    ensures
        named(arsenal, name) matches Some(w) ==> exists|k: int|
            0 <= k < arsenal.len() && (#[trigger] arsenal[k]).name@ == name && arsenal[k].spec == w,
    decreases arsenal.len(),
{
    if arsenal.len() > 0 && arsenal[0].name@ != name {
        let rest = arsenal.skip(1);
        lemma_named_is_there(rest, name);
        if let Some(w) = named(rest, name) {
            let k = choose|k: int|
                0 <= k < rest.len() && (#[trigger] rest[k]).name@ == name && rest[k].spec == w;
            assert(arsenal[k + 1] == rest[k]);
        }
    }
}

/// Nobody is armed with a weapon that the arsenal lacks.
pub proof fn a_roster_comes_from_the_arsenal(
    picks: Seq<(Seq<char>, bool)>,
    arsenal: Seq<ArsenalWeapon>,
    n: nat,
    i: int,
)
    requires
        0 <= i < picked(picks, arsenal, n).len(),
    ensures
        exists|k: int|
            0 <= k < arsenal.len() && (#[trigger] arsenal[k]).spec == picked(
                picks,
                arsenal,
                n,
            )[i].weapon,
    decreases n,
{
    if n > 0 {
        let rest = picked(picks, arsenal, (n - 1) as nat);
        lemma_named_is_there(arsenal, picks[n - 1].0);
        if i < rest.len() {
            a_roster_comes_from_the_arsenal(picks, arsenal, (n - 1) as nat, i);
        }
    }
}

/// With every pick in the arsenal nobody is left out, and everyone carries what was picked.
pub proof fn a_full_arsenal_arms_everyone(
    picks: Seq<(Seq<char>, bool)>,
    arsenal: Seq<ArsenalWeapon>,
    n: nat,
)
    requires
        n <= picks.len(),
        forall|i: int| 0 <= i < n ==> named(arsenal, (#[trigger] picks[i]).0) is Some,
    ensures
        picked(picks, arsenal, n).len() == n,
        forall|i: int|
            0 <= i < n ==> #[trigger] picked(picks, arsenal, n)[i] == (RosterEntry {
                weapon: named(arsenal, picks[i].0)->0,
                dual: picks[i].1,
            }),
    decreases n,
{
    if n > 0 {
        a_full_arsenal_arms_everyone(picks, arsenal, (n - 1) as nat);
        assert(named(arsenal, picks[n - 1].0) is Some);
    }
}

/// What a wave is made from.
pub struct WaveKit {
    pub roster: Vec<RosterEntry>,
    /// The arsenal in play.
    pub arsenal: Vec<ArsenalWeapon>,
    /// The one weapon that everyone is to carry, when the level asks for that. A name that the
    /// arsenal lacks leaves the roster as it is.
    pub fixed: Option<String>,
    /// What a hunter carries without a roster.
    pub fallback: WeaponSpec,
    /// What the one hunter of the animation log carries.
    pub debug: WeaponSpec,
    /// Empty hands.
    pub bare: WeaponSpec,
    /// Whether hunters come in with empty hands and look for a weapon.
    pub start_unarmed: bool,
    /// A hunter's health at the bottom of the dial, in thousandths of a point.
    pub base_health: u32,
    /// How many spare magazines an armed hunter brings.
    pub spare_mags: u32,
}

impl WaveKit {
    /// The one weapon that the level asks for, if the arsenal has it.
    pub open spec fn asked_for(self) -> Option<WeaponSpec> {
        match self.fixed {
            Some(name) => named(self.arsenal@, name@),
            None => None,
        }
    }

    fn fixed_weapon(&self) -> (w: Option<WeaponSpec>)
        ensures
            w == self.asked_for(),
    {
        match &self.fixed {
            Some(name) => find_named(&self.arsenal, name.as_str()),
            None => None,
        }
    }
}

/// One hunter of the next wave.
#[derive(Clone, Copy, PartialEq, Eq, Debug, Structural)]
pub struct HunterPlan {
    pub body: usize,
    pub clips: Clips,
    /// What it holds, which decides the way it fires.
    pub weapon: WeaponSpec,
    pub dual: bool,
    /// The clip slot it fires with.
    pub aim_slot: usize,
    pub health: u32,
    pub loaded: u32,
    pub reserve: u32,
    /// Which way round the player it goes.
    pub flank_right: bool,
    /// Where its aim model starts from.
    pub seed: u64,
}

/// `n`, as far as it can be counted.
pub open spec fn capped(n: int) -> u32 {
    if n > u32::MAX {
        u32::MAX
    } else {
        n as u32
    }
}

fn cap_product(a: u32, b: u32, d: u32) -> (n: u32)
    requires
        d > 0,
    ensures
        n == capped(a * b / (d as int)),
{
    assert(0 <= a * b <= 0xffff_ffff * 0xffff_ffff) by (nonlinear_arith)
        requires
            0 <= a <= 0xffff_ffff,
            0 <= b <= 0xffff_ffff,
    ;
    let p: u64 = (a as u64 * b as u64) / d as u64;
    if p > u32::MAX as u64 {
        u32::MAX
    } else {
        p as u32
    }
}

/// The seed of hunter `i`: its own, so that no two aim alike.
pub open spec fn seed_of(i: usize) -> u64 {
    0xA5A5_0000u64 ^ vstd::wrapping::u64_specs::wrapping_mul(i as u64, 0x9E37_79B9_7F4A_7C15)
}

/// The body of hunter `i` of `count`: the wave is spread over the whole range.
pub open spec fn body_of(r: BodyRange, i: int, count: int) -> int {
    r.first + (i * r.count() / count) % r.count()
}

impl World {
    /// The clips of the first body in the range, from `first` on, that has any.
    pub open spec fn first_clips(self, first: int, end: int) -> Option<Clips>
        decreases end - first,
    {
        if first >= end {
            None
        } else {
            match self.bodies.clips_for(first, self.settings.goldeneye_clips) {
                Some(c) => Some(c),
                None => self.first_clips(first + 1, end),
            }
        }
    }

    /// How many hunters the next wave has: one for the animation log.
    pub open spec fn wave_count(self) -> usize {
        if self.settings.anim_debug {
            1
        } else {
            self.settings.wave_size
        }
    }

    /// Whether a wave comes at all: hunters are switched on, and some body can be animated.
    pub open spec fn wave_comes(self) -> bool {
        let r = self.bodies.drawn_from(self.settings.body_set);
        self.settings.hunters_enabled && self.first_clips(r.first as int, r.end as int) is Some
    }

    /// What hunter `i` is armed with from the roster: the one weapon of the animation log, the
    /// one weapon that the level asks for, its turn in the roster, or the fallback.
    pub open spec fn armed_with(self, kit: WaveKit, i: int) -> RosterEntry {
        if self.settings.anim_debug {
            RosterEntry { weapon: kit.debug, dual: false }
        } else if kit.asked_for() is Some {
            RosterEntry { weapon: kit.asked_for()->0, dual: false }
        } else if kit.roster@.len() == 0 {
            RosterEntry { weapon: kit.fallback, dual: false }
        } else {
            kit.roster@[i % kit.roster@.len() as int]
        }
    }

    /// The plan of hunter `i`.
    pub open spec fn hunter_plan(self, kit: WaveKit, i: int) -> HunterPlan {
        let r = self.bodies.drawn_from(self.settings.body_set);
        let body = body_of(r, i, self.wave_count() as int);
        let entry = self.armed_with(kit, i);
        let weapon = if kit.start_unarmed {
            kit.bare
        } else {
            entry.weapon
        };
        HunterPlan {
            body: body as usize,
            clips: match self.bodies.clips_for(body, self.settings.goldeneye_clips) {
                Some(c) => c,
                None => self.first_clips(r.first as int, r.end as int)->0,
            },
            weapon,
            dual: entry.dual,
            aim_slot: fire_slot(weapon.class, entry.dual),
            health: capped(
                kit.base_health * crate::settings::ramp(self.settings.difficulty).health_mult
                    / 1000,
            ),
            loaded: weapon.clip,
            reserve: if weapon.unarmed {
                0
            } else {
                capped(weapon.clip * kit.spare_mags / 1)
            },
            flank_right: i % 2 == 0,
            seed: seed_of(i as usize),
        }
    }

    fn find_first_clips(&self, r: BodyRange) -> (c: Option<Clips>)
        ensures
            c == self.first_clips(r.first as int, r.end as int),
    {
        let mut k: usize = r.first;
        while k < r.end
            invariant
                r.first <= k,
                self.first_clips(r.first as int, r.end as int) == self.first_clips(
                    k as int,
                    r.end as int,
                ),
            decreases r.end - k,
        {
            match self.bodies.body_clips(k, self.settings.goldeneye_clips) {
                Some(c) => return Some(c),
                None => {},
            }
            k = k + 1;
        }
        None
    }

    /// Plans the next wave. Nobody comes with hunters switched off, or when no body can be
    /// animated.
    pub fn plan_wave(&self, kit: &WaveKit) -> (plans: Vec<HunterPlan>)
        requires
            self.settings.wf(),
        ensures
            !self.wave_comes() ==> plans@.len() == 0,
            self.wave_comes() ==> plans@ == Seq::new(
                self.wave_count() as nat,
                |i: int| self.hunter_plan(*kit, i),
            ),
    {
        let mut plans: Vec<HunterPlan> = Vec::new();
        if !self.settings.hunters_enabled {
            return plans;
        }
        let r: BodyRange = self.bodies.wave_bodies(self.settings.body_set);
        let first: Clips = match self.find_first_clips(r) {
            Some(c) => c,
            None => return plans,
        };
        assert(r.first < r.end);
        let bodies: usize = r.end - r.first;
        let count: usize = if self.settings.anim_debug {
            1
        } else {
            self.settings.wave_size
        };
        let d: DiffParams = self.settings.difficulty_params();
        let health: u32 = cap_product(kit.base_health, d.health_mult, 1000);
        let fixed: Option<WeaponSpec> = kit.fixed_weapon();
        let mut i: usize = 0;
        while i < count
            invariant
                fixed == kit.asked_for(),
                i <= count,
                count == self.wave_count(),
                count >= 1,
                r == self.bodies.drawn_from(self.settings.body_set),
                r.first < r.end,
                bodies == r.end - r.first,
                Some(first) == self.first_clips(r.first as int, r.end as int),
                health == capped(
                    kit.base_health * crate::settings::ramp(self.settings.difficulty).health_mult
                        / 1000,
                ),
                plans@.len() == i,
                forall|j: int| 0 <= j < i ==> #[trigger] plans@[j] == self.hunter_plan(*kit, j),
            decreases count - i,
        {
            let entry: RosterEntry = if self.settings.anim_debug {
                RosterEntry { weapon: kit.debug, dual: false }
            } else {
                match fixed {
                    Some(weapon) => RosterEntry { weapon, dual: false },
                    None => if kit.roster.len() == 0 {
                        RosterEntry { weapon: kit.fallback, dual: false }
                    } else {
                        kit.roster[i % kit.roster.len()]
                    },
                }
            };
            assert(0 <= i * bodies <= 0xffff_ffff_ffff_ffff * 0xffff_ffff_ffff_ffff) by (nonlinear_arith)
                requires
                    0 <= i <= 0xffff_ffff_ffff_ffff,
                    0 <= bodies <= 0xffff_ffff_ffff_ffff,
            ;
            let turn: u128 = (i as u128 * bodies as u128) / count as u128;
            let step: usize = (turn % bodies as u128) as usize;
            let body: usize = r.first + step;
            assert(body == body_of(r, i as int, count as int));
            let clips: Clips = match self.bodies.body_clips(body, self.settings.goldeneye_clips) {
                Some(c) => c,
                None => first,
            };
            let weapon: WeaponSpec = if kit.start_unarmed {
                kit.bare
            } else {
                entry.weapon
            };
            let reserve: u32 = if weapon.unarmed {
                0
            } else {
                cap_product(weapon.clip, kit.spare_mags, 1)
            };
            let seed: u64 = 0xA5A5_0000u64 ^ (i as u64).wrapping_mul(0x9E37_79B9_7F4A_7C15);
            plans.push(
                HunterPlan {
                    body,
                    clips,
                    weapon,
                    dual: entry.dual,
                    aim_slot: fire_clip_for(weapon.class, entry.dual),
                    health,
                    loaded: weapon.clip,
                    reserve,
                    flank_right: i % 2 == 0,
                    seed,
                },
            );
            i = i + 1;
        }
        assert(plans@ =~= Seq::new(self.wave_count() as nat, |i: int| self.hunter_plan(*kit, i)));
        plans
    }

    /// Lets a planned wave in at the places and with the capsules and attack animations that
    /// were made for it. Every hunter comes in searching, whole, and not yet firing. The
    /// scoreboard starts over.
    pub fn spawn_wave(&mut self, plans: &Vec<HunterPlan>, entries: &Vec<WaveEntry>)
        requires
            plans@.len() == entries@.len(),
        ensures
            plans@.len() == 0 ==> *final(self) == *old(self),
            plans@.len() > 0 ==> final(self).hunters@ == old(self).hunters@ + Seq::new(
                plans@.len(),
                |i: int| fresh_hunter(plans@[i], entries@[i]),
            ) && final(self).hunter_scores@ == Seq::new(
                plans@.len(),
                |i: int| crate::world::Score { kills: 0, deaths: 0 },
            ),
            *final(self) == (World {
                hunters: final(self).hunters,
                hunter_scores: final(self).hunter_scores,
                ..*old(self)
            }),
    {
        if plans.len() == 0 {
            return ;
        }
        let mut scores: Vec<crate::world::Score> = Vec::new();
        let mut i: usize = 0;
        assert(self.hunters@ =~= old(self).hunters@ + Seq::new(
            0,
            |i: int| fresh_hunter(plans@[i], entries@[i]),
        ));
        while i < plans.len()
            invariant
                i <= plans@.len(),
                plans@.len() == entries@.len(),
                *self == (World { hunters: self.hunters, ..*old(self) }),
                self.hunters@ == old(self).hunters@ + Seq::new(
                    i as nat,
                    |j: int| fresh_hunter(plans@[j], entries@[j]),
                ),
                scores@ == Seq::new(
                    i as nat,
                    |j: int| crate::world::Score { kills: 0, deaths: 0 },
                ),
            decreases plans@.len() - i,
        {
            let p: HunterPlan = plans[i];
            let e: WaveEntry = entries[i];
            self.hunters.push(
                Hunter {
                    pos: e.pos,
                    vel: Point { x: 0, y: 0, z: 0 },
                    state: AiState::Search,
                    engaged: false,
                    last_known: None,
                    search_target: None,
                    health: p.health,
                    max_health: p.health,
                    dead: false,
                    body: p.body,
                    weapon: p.weapon,
                    dual: p.dual,
                    collider: e.collider,
                    simulant: true,
                    target: None,
                    pd_debug: None,
                    pd_anims: p.clips.pd_clips,
                    hit_part: None,
                    fade: None,
                    shot_timer: 0,
                    loaded: p.loaded,
                    reserve: p.reserve,
                    reload_timer: 0,
                    unseen: 0,
                    burst_shot: 0,
                    fire_elapsed: None,
                    fire: e.fire,
                    muzzle_timer: 0,
                    render_yaw: None,
                    ragdoll: None,
                    ragdoll_time: 0,
                    reaction: None,
                    reaction_time: 0,
                },
            );
            scores.push(crate::world::Score { kills: 0, deaths: 0 });
            i = i + 1;
            assert(self.hunters@ =~= old(self).hunters@ + Seq::new(
                i as nat,
                |j: int| fresh_hunter(plans@[j], entries@[j]),
            ));
            assert(scores@ =~= Seq::new(
                i as nat,
                |j: int| crate::world::Score { kills: 0, deaths: 0 },
            ));
        }
        self.hunter_scores = scores;
    }
}

/// Where a hunter comes in, with the capsule and the attack animation made for it.
#[derive(Clone, Copy, PartialEq, Eq, Debug, Structural)]
pub struct WaveEntry {
    pub pos: Point,
    pub collider: u64,
    pub fire: FireTiming,
}

/// A hunter as it comes in.
pub open spec fn fresh_hunter(p: HunterPlan, e: WaveEntry) -> Hunter {
    Hunter {
        pos: e.pos,
        vel: Point { x: 0, y: 0, z: 0 },
        state: AiState::Search,
        engaged: false,
        last_known: None,
        search_target: None,
        health: p.health,
        max_health: p.health,
        dead: false,
        body: p.body,
        weapon: p.weapon,
        dual: p.dual,
        collider: e.collider,
        simulant: true,
        target: None,
        pd_debug: None,
        pd_anims: p.clips.pd_clips,
        hit_part: None,
        fade: None,
        shot_timer: 0,
        loaded: p.loaded,
        reserve: p.reserve,
        reload_timer: 0,
        unseen: 0,
        burst_shot: 0,
        fire_elapsed: None,
        fire: e.fire,
        muzzle_timer: 0,
        render_yaw: None,
        ragdoll: None,
        ragdoll_time: 0,
        reaction: None,
        reaction_time: 0,
    }
}

/// Every hunter of a wave wears a body that was loaded.
pub proof fn a_wave_wears_loaded_bodies(w: World, kit: WaveKit, i: int)
    requires
        w.settings.wf(),
        w.bodies.wf(),
        w.wave_comes(),
        0 <= i < w.wave_count(),
    ensures
        w.bodies.drawn_from(w.settings.body_set).holds(w.hunter_plan(kit, i).body as int),
        w.hunter_plan(kit, i).body < w.bodies.count,
{
    let r = w.bodies.drawn_from(w.settings.body_set);
    let n = r.count();
    let x = i * n / (w.wave_count() as int);
    assert(n > 0);
    assert(0 <= x % n < n) by (nonlinear_arith)
        requires
            n > 0,
    ;
}

/// A wave no larger than the number of bodies has no two hunters alike.
pub proof fn a_small_wave_has_no_twins(r: BodyRange, i: int, j: int, count: int)
    requires
        0 <= i < j < count,
        count <= r.count(),
    ensures
        body_of(r, i, count) < body_of(r, j, count),
{
    let n = r.count();
    let a = i * n / count;
    let b = j * n / count;
    assert(0 <= a && a + 1 <= b && b < n) by (nonlinear_arith)
        requires
            a == i * n / count,
            b == j * n / count,
            0 <= i < j < count,
            0 < count <= n,
    {
        assert(count * a <= i * n < count * (a + 1));
        assert(count * b <= j * n < count * (b + 1));
    }
    vstd::arithmetic::div_mod::lemma_small_mod(a as nat, n as nat);
    vstd::arithmetic::div_mod::lemma_small_mod(b as nat, n as nat);
}

/// A weapon is found by name: the first one of that name, and none where there is none.
pub proof fn weapons_are_found_by_name(arsenal: Seq<ArsenalWeapon>, name: Seq<char>, k: int)
    ensures
        0 <= k < arsenal.len() && arsenal[k].name@ == name && (forall|j: int|
            0 <= j < k ==> (#[trigger] arsenal[j]).name@ != name) ==> named(arsenal, name) == Some(
            arsenal[k].spec,
        ),
        (forall|j: int| 0 <= j < arsenal.len() ==> (#[trigger] arsenal[j]).name@ != name) ==> named(
            arsenal,
            name,
        ) is None,
    decreases arsenal.len(),
{
    if arsenal.len() > 0 && arsenal[0].name@ != name {
        let rest = arsenal.skip(1);
        weapons_are_found_by_name(rest, name, k - 1);
        if 0 < k < arsenal.len() && arsenal[k].name@ == name && (forall|j: int|
            0 <= j < k ==> (#[trigger] arsenal[j]).name@ != name) {
            assert(rest[k - 1] == arsenal[k]);
            assert forall|j: int| 0 <= j < k - 1 implies (#[trigger] rest[j]).name@ != name by {
                assert(arsenal[j + 1].name@ != name);
            }
        }
        if forall|j: int| 0 <= j < arsenal.len() ==> (#[trigger] arsenal[j]).name@ != name {
            assert forall|j: int| 0 <= j < rest.len() implies (#[trigger] rest[j]).name@ != name by {
                assert(arsenal[j + 1].name@ != name);
            }
        }
    }
}

/// When the level asks for one weapon and the arsenal has it, every hunter of the wave carries
/// that weapon, the first of its name, in one hand; but for the animation log, and for hunters
/// that start unarmed.
pub proof fn everyone_carries_the_weapon_asked_for(
    w: World,
    kit: WaveKit,
    name: String,
    k: int,
    i: int,
)
    requires
        kit.fixed == Some(name),
        0 <= k < kit.arsenal@.len(),
        kit.arsenal@[k].name@ == name@,
        forall|j: int| 0 <= j < k ==> (#[trigger] kit.arsenal@[j]).name@ != name@,
        !w.settings.anim_debug,
        !kit.start_unarmed,
    ensures
        w.hunter_plan(kit, i).weapon == kit.arsenal@[k].spec,
        !w.hunter_plan(kit, i).dual,
{
    weapons_are_found_by_name(kit.arsenal@, name@, k);
}

/// When the level asks for no weapon, or for one that the arsenal lacks, the hunters take the
/// entries of the roster in turn, over and over; with an empty roster each takes the fallback.
pub proof fn the_roster_goes_round(w: World, kit: WaveKit, i: int)
    requires
        kit.fixed matches Some(name) ==> forall|j: int|
            0 <= j < kit.arsenal@.len() ==> (#[trigger] kit.arsenal@[j]).name@ != name@,
        !w.settings.anim_debug,
        !kit.start_unarmed,
        i >= 0,
    ensures
        kit.roster@.len() == 0 ==> w.hunter_plan(kit, i).weapon == kit.fallback && !w.hunter_plan(
            kit,
            i,
        ).dual,
        0 <= i < kit.roster@.len() ==> w.hunter_plan(kit, i).weapon == kit.roster@[i].weapon
            && w.hunter_plan(kit, i).dual == kit.roster@[i].dual,
        kit.roster@.len() > 0 ==> w.hunter_plan(kit, i + kit.roster@.len()).weapon
            == w.hunter_plan(kit, i).weapon && w.hunter_plan(kit, i + kit.roster@.len()).dual
            == w.hunter_plan(kit, i).dual,
{
    if let Some(name) = kit.fixed {
        weapons_are_found_by_name(kit.arsenal@, name@, 0);
    }
    let n = kit.roster@.len() as int;
    if n > 0 {
        vstd::arithmetic::div_mod::lemma_mod_add_multiples_vanish(i, n);
        assert((i + n) % n == i % n) by (nonlinear_arith)
            requires
                (n + i) % n == i % n,
        ;
        if i < n {
            vstd::arithmetic::div_mod::lemma_small_mod(i as nat, n as nat);
        }
    }
}

/// For the animation log there is one hunter with the weapon of the log, and hunters that start
/// unarmed have bare hands, without a round to spare.
pub proof fn logs_and_unarmed_waves_override_the_roster(w: World, kit: WaveKit, i: int)
    ensures
        w.settings.anim_debug ==> w.wave_count() == 1,
        !w.settings.anim_debug ==> w.wave_count() == w.settings.wave_size,
        w.settings.anim_debug && !kit.start_unarmed ==> w.hunter_plan(kit, i).weapon == kit.debug
            && !w.hunter_plan(kit, i).dual,
        kit.start_unarmed ==> w.hunter_plan(kit, i).weapon == kit.bare,
        w.hunter_plan(kit, i).weapon.unarmed ==> w.hunter_plan(kit, i).reserve == 0,
{
}

/// A hunter comes with a full magazine and as many spare ones as the kit says, at the health that
/// the dial gives: three tenths more for each step.
pub proof fn hunters_come_loaded_and_hardened(w: World, kit: WaveKit, i: int)
    requires
        w.settings.difficulty <= 10,
    ensures
        ({
            let p = w.hunter_plan(kit, i);
            let health = kit.base_health * (1000 + 300 * w.settings.difficulty) / 1000;
            &&& p.loaded == p.weapon.clip
            &&& !p.weapon.unarmed && p.weapon.clip * kit.spare_mags <= u32::MAX ==> p.reserve
                == p.weapon.clip * kit.spare_mags
            &&& health <= u32::MAX ==> p.health == health
            &&& p.aim_slot == (if p.dual {
                6int
            } else {
                match p.weapon.class {
                    crate::hunter::WeaponClass::Rifle => 4int,
                    crate::hunter::WeaponClass::Pistol => 5int,
                }
            })
        }),
{
    let entry = w.armed_with(kit, i);
    let weapon = if kit.start_unarmed {
        kit.bare
    } else {
        entry.weapon
    };
    assert(weapon.clip * kit.spare_mags / 1 == weapon.clip * kit.spare_mags);
}

/// Flankers go right and left in turn, beginning with the right.
pub proof fn flankers_alternate(w: World, kit: WaveKit, i: int)
    requires
        i >= 0,
    ensures
        w.hunter_plan(kit, 0).flank_right,
        w.hunter_plan(kit, i + 1).flank_right == !w.hunter_plan(kit, i).flank_right,
{
}

/// The bodies of a wave are spread over the ones to be had: hunter `i` of `n` wears the one that
/// lies that share of the way through them.
pub proof fn bodies_are_spread_over_the_wave(w: World, kit: WaveKit, i: int)
    requires
        w.bodies.wf(),
        w.settings.wf(),
        0 <= i < w.wave_count(),
        w.bodies.drawn_from(w.settings.body_set).first < w.bodies.drawn_from(
            w.settings.body_set,
        ).end,
    ensures
        ({
            let r = w.bodies.drawn_from(w.settings.body_set);
            let n = r.end - r.first;
            let c = w.wave_count() as int;
            let step = w.hunter_plan(kit, i).body - r.first;
            &&& 0 <= step < n
            &&& step * c <= i * n < step * c + c
        }),
{
    let r = w.bodies.drawn_from(w.settings.body_set);
    let n = (r.end - r.first) as int;
    let c = w.wave_count() as int;
    let q = i * n / c;
    assert(q * c <= i * n < q * c + c && 0 <= q < n) by (nonlinear_arith)
        requires
            c > 0,
            n > 0,
            0 <= i < c,
            q == i * n / c,
    ;
    vstd::arithmetic::div_mod::lemma_small_mod(q as nat, n as nat);
    assert(r.count() == n);
}

/// A wave comes exactly when hunters are let in and some body to be had has clips to play.
pub proof fn a_wave_comes_when_someone_can_move(w: World)
    ensures
        w.wave_comes() <==> w.settings.hunters_enabled && exists|b: int|
            w.bodies.drawn_from(w.settings.body_set).first <= b < w.bodies.drawn_from(
                w.settings.body_set,
            ).end && (#[trigger] w.bodies.clips_for(b, w.settings.goldeneye_clips)) is Some,
{
    let r = w.bodies.drawn_from(w.settings.body_set);
    lemma_first_clips(w, r.first as int, r.end as int);
}

proof fn lemma_first_clips(w: World, first: int, end: int)
    ensures
        w.first_clips(first, end) is Some <==> exists|b: int|
            first <= b < end && (#[trigger] w.bodies.clips_for(b, w.settings.goldeneye_clips))
                is Some,
        w.first_clips(first, end) is Some ==> exists|b: int|
            first <= b < end && (#[trigger] w.bodies.clips_for(b, w.settings.goldeneye_clips))
                == w.first_clips(first, end) && forall|a: int|
                first <= a < b ==> (#[trigger] w.bodies.clips_for(
                    a,
                    w.settings.goldeneye_clips,
                )) is None,
    decreases end - first,
{
    if first < end {
        lemma_first_clips(w, first + 1, end);
        if w.bodies.clips_for(first, w.settings.goldeneye_clips) is None {
            if w.first_clips(first, end) is Some {
                let b = choose|b: int|
                    first + 1 <= b < end && (#[trigger] w.bodies.clips_for(
                        b,
                        w.settings.goldeneye_clips,
                    )) == w.first_clips(first + 1, end) && forall|a: int|
                        first + 1 <= a < b ==> (#[trigger] w.bodies.clips_for(
                            a,
                            w.settings.goldeneye_clips,
                        )) is None;
                assert forall|a: int| first <= a < b implies (#[trigger] w.bodies.clips_for(
                    a,
                    w.settings.goldeneye_clips,
                )) is None by {
                    if a > first {
                    }
                }
            }
        }
    }
}

/// A hunter plays the clips of its own body, or those of the first body to be had that has any.
pub proof fn hunters_play_their_own_clips(w: World, kit: WaveKit, i: int)
    ensures
        ({
            let p = w.hunter_plan(kit, i);
            let r = w.bodies.drawn_from(w.settings.body_set);
            let own = w.bodies.clips_for(
                body_of(r, i, w.wave_count() as int),
                w.settings.goldeneye_clips,
            );
            own is Some ==> p.clips == own->0
        }),
{
}

/// A hunter comes in where it was placed, alive and whole, looking for the player, with its
/// weapon still and its rounds as planned.
pub proof fn hunters_come_in_fresh(p: HunterPlan, e: WaveEntry)
    ensures
        ({
            let h = fresh_hunter(p, e);
            &&& h.pos == e.pos && h.collider == e.collider && h.fire == e.fire
            &&& h.vel.x == 0 && h.vel.y == 0 && h.vel.z == 0
            &&& h.state is Search && !h.engaged && h.last_known is None && h.search_target is None
            &&& !h.dead && h.health == p.health && h.max_health == p.health
            &&& h.body == p.body && h.weapon == p.weapon && h.dual == p.dual
            &&& h.loaded == p.loaded && h.reserve == p.reserve
            &&& h.simulant && h.target is None && h.pd_anims == p.clips.pd_clips
            &&& h.fire_elapsed is None && h.shot_timer == 0 && h.burst_shot == 0
                && h.reload_timer == 0 && h.unseen == 0 && h.muzzle_timer == 0
            &&& h.fade is None && h.ragdoll is None && h.reaction is None && h.hit_part is None
                && h.render_yaw is None && h.pd_debug is None
        }),
{
}

/// A roster has an entry for each pick that the arsenal has, in the order of the picks.
pub proof fn a_roster_follows_the_picks(
    picks: Seq<(Seq<char>, bool)>,
    arsenal: Seq<ArsenalWeapon>,
    n: nat,
)
    requires
        n <= picks.len(),
    ensures
        picked(picks, arsenal, n) == picks.take(n as int).filter(
            |p: (Seq<char>, bool)| named(arsenal, p.0) is Some,
        ).map_values(
            |p: (Seq<char>, bool)| RosterEntry { weapon: named(arsenal, p.0)->0, dual: p.1 },
        ),
    decreases n,
{
    reveal(Seq::filter);
    let t = picks.take(n as int);
    if n > 0 {
        a_roster_follows_the_picks(picks, arsenal, (n - 1) as nat);
        assert(t.drop_last() =~= picks.take(n - 1));
        assert(t.last() == picks[n - 1]);
    } else {
        assert(t =~= Seq::empty());
    }
    assert(picked(picks, arsenal, n) =~= t.filter(
        |p: (Seq<char>, bool)| named(arsenal, p.0) is Some,
    ).map_values(
        |p: (Seq<char>, bool)| RosterEntry { weapon: named(arsenal, p.0)->0, dual: p.1 },
    ));
}

/// Each game's roster has six picks, of which the third and the fourth are carried in pairs and
/// the fourth is the second weapon again; a mixed arsenal arms its hunters as GoldenEye's does.
pub proof fn rosters_are_alike(i: int)
    requires
        0 <= i < 6,
    ensures
        pd_picks().len() == 6 && ge_picks().len() == 6,
        pd_picks()[i].1 == (i == 2 || i == 3) && ge_picks()[i].1 == (i == 2 || i == 3),
        pd_picks()[1].0 == pd_picks()[3].0 && ge_picks()[1].0 == ge_picks()[3].0,
        pd_picks()[0].0 == "AR34"@ && pd_picks()[1].0 == "Falcon 2"@ && pd_picks()[2].0
            == "RC-P120"@ && pd_picks()[4].0 == "K7 Avenger"@ && pd_picks()[5].0
            == "Shotgun (PD)"@,
        ge_picks()[0].0 == "KF7"@ && ge_picks()[1].0 == "PP7"@ && ge_picks()[2].0 == "RCP90"@
            && ge_picks()[4].0 == "AR33"@ && ge_picks()[5].0 == "SHOTGUN"@,
        picks_for(Arsenal::PerfectDark) == pd_picks(),
        picks_for(Arsenal::Both) == picks_for(Arsenal::GoldenEye) && picks_for(Arsenal::GoldenEye)
            == ge_picks(),
{
}

/// Each hunter of a wave has a seed of its own: two of them never have the same.
pub proof fn no_two_hunters_share_a_seed(i: usize, j: usize)
    ensures
        seed_of(i) == seed_of(j) ==> i == j,
        seed_of(0) == 0xA5A5_0000,
{
    let (a, b) = (i as u64, j as u64);
    let x = vstd::wrapping::u64_specs::wrapping_mul(a, 0x9E37_79B9_7F4A_7C15);
    let y = vstd::wrapping::u64_specs::wrapping_mul(b, 0x9E37_79B9_7F4A_7C15);
    assert(0xA5A5_0000u64 ^ x == 0xA5A5_0000u64 ^ y ==> x == y) by (bit_vector);
    assert(0xA5A5_0000u64 ^ 0u64 == 0xA5A5_0000u64) by (bit_vector);
    if x == y {
        lemma_odd_products_differ(a, b);
    }
}

proof fn lemma_odd_products_differ(a: u64, b: u64)
    requires
        (a * 0x9E37_79B9_7F4A_7C15) % 0x1_0000_0000_0000_0000 == (b * 0x9E37_79B9_7F4A_7C15)
            % 0x1_0000_0000_0000_0000,
    ensures
        a == b,
{
    let (m, inv) = (0x9E37_79B9_7F4A_7C15int, 0xf1de83e19937733dint);
    let n = 0x1_0000_0000_0000_0000int;
    assert(m * inv % n == 1);
    vstd::arithmetic::div_mod::lemma_mul_mod_noop(a * m, inv, n);
    vstd::arithmetic::div_mod::lemma_mul_mod_noop(b * m, inv, n);
    assert(((a * m) * inv) % n == ((b * m) * inv) % n);
    assert((a * m) * inv == a * (m * inv)) by (nonlinear_arith);
    assert((b * m) * inv == b * (m * inv)) by (nonlinear_arith);
    vstd::arithmetic::div_mod::lemma_mul_mod_noop(a as int, m * inv, n);
    vstd::arithmetic::div_mod::lemma_mul_mod_noop(b as int, m * inv, n);
    vstd::arithmetic::div_mod::lemma_small_mod(a as nat, n as nat);
    vstd::arithmetic::div_mod::lemma_small_mod(b as nat, n as nat);
}

} // verus!
