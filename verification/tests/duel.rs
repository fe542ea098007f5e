use hunt_world::arms::Gun;
use hunt_world::combat::ClipTables;
use hunt_world::gunfire::ShotLine;
use hunt_world::hunter::{
    AiMode, AiState, FireTiming, Target, WeaponClass, WeaponSpec, PD_BURST_GAP, PD_BURST_ROUNDS,
    PD_RELOAD_UNSEEN,
};
use hunt_world::lifecycle::{BakedHunt, HuntEntry};
use hunt_world::settings::{Bodies, BodySet};
use hunt_world::space::Point;
use hunt_world::step::{AimReport, StepReport};
use hunt_world::ticks::TICKS_PER_SEC;
use hunt_world::wave::{RosterEntry, WaveEntry, WaveKit};
use hunt_world::world::{Assets, Pose, World};

const DT: u32 = TICKS_PER_SEC / 60;

fn at(x: i32, y: i32, z: i32) -> Point {
    Point { x, y, z }
}

fn rifle() -> WeaponSpec {
    WeaponSpec {
        id: 1,
        class: WeaponClass::Rifle,
        automatic: true,
        interval: 150,
        damage: 6_000,
        clip: 20,
        reload: 1800,
        unarmed: false,
    }
}

fn attack() -> FireTiming {
    FireTiming {
        start: 0,
        shoot_from: 300,
        shoot_to: 1800,
        recoil_from: 300,
        recoil_to: 1800,
        end: 2000,
        angle_offset: 0,
    }
}

fn assets(ai_mode: AiMode) -> Assets {
    Assets {
        bodies: Bodies {
            ge_count: 2,
            count: 4,
            heights: vec![1500, 1500, 1730, 1730],
            ge_template: true,
            pd_template: true,
            pd_template_ge: true,
        },
        tables: ClipTables {
            injuries: vec![3, 4],
            deaths: vec![2, 5],
            torso: 1,
            head_flinches: 2,
            torso_flinches: 4,
            leg_flinches: 3,
            death_clips: 10,
        },
        guns: vec![
            Gun { magazine: 0, reserve: 0, magazine_size: 0, price: 0, ammo_price: 0, reloading: false, unarmed: true },
            Gun { magazine: 7, reserve: 21, magazine_size: 7, price: 100, ammo_price: 10, reloading: false, unarmed: false },
        ],
        own_all: false,
        bounty: 50,
        ammo_mags: 3,
        ai_mode,
        unarmed_hunters: false,
        anim_debug: false,
    }
}

/// One hunter against a player that stands still, with the aim error of each step given.
struct Duel {
    world: World,
    /// How far apart the two stand.
    range: f32,
}

/// Starts the hunt with the player at `player` and one hunter at `hunter`.
fn enter(world: &mut World, player: Point, hunter: Point) {
    let change = world.toggle_mode(Some(HuntEntry {
        camera: Pose { feet: player, yaw: 0, pitch: 0 },
        pad: None,
        baked: Some(BakedHunt {
            pads: vec![],
            yaws: vec![],
            marker: None,
            standable: vec![],
            interior: vec![],
        }),
    }));
    assert!(change.changed && change.wave);
    let kit = WaveKit {
        roster: vec![RosterEntry { weapon: rifle(), dual: false }],
        arsenal: vec![],
        fixed: None,
        fallback: rifle(),
        debug: rifle(),
        bare: rifle(),
        start_unarmed: false,
        base_health: 100_000,
        spare_mags: 20,
    };
    let plans = world.plan_wave(&kit);
    let entries = vec![WaveEntry { pos: hunter, collider: 7, fire: attack() }];
    world.spawn_wave(&plans, &entries);
    assert_eq!(world.hunters.len(), 1);
}

impl Duel {
    fn new(mode: AiMode, range: i32) -> Duel {
        let mut world = World::new(assets(mode));
        world.enable_pd_lab(1, None);
        enter(&mut world, at(7500, 0, 2500), at(7500, 0, 2500 + range));
        Duel { world, range: range as f32 }
    }

    /// One step: the aim model pulls the trigger or not, and its barrel points `error` degrees
    /// off the player. Tells whether a round left the barrel.
    fn step(&mut self, trigger: bool, seen: bool, error: f32) -> bool {
        let h = self.world.hunters[0];
        let report = StepReport {
            aim: Some(AimReport { want_fire: trigger, yaw: 0, target: Some(Target::Player) }),
            want_fire: false,
            needs_search_target: false,
            caught: false,
            pending_door: None,
            state: AiState::Attack,
            engaged: true,
            last_known: self.world.player_pos(),
            pos: h.pos,
            vel: h.vel,
            slow: false,
        };
        let plan = self.world.fixed_step(DT, 0, &vec![report]);
        for i in plan.fire {
            self.world.start_enemy_fire(i, None);
        }
        self.world.enemy_reload_step(DT, &vec![seen]);
        let orders = self.world.enemy_combat_step(DT);
        let mut shot = false;
        for i in orders.shots {
            if self.world.emit_enemy_shot(i).is_none() {
                continue;
            }
            shot = true;
            let rad = error.to_radians();
            let line = ShotLine {
                miss: (self.range * rad.sin().abs()) as u32,
                along: (self.range * rad.cos()) as i32,
            };
            let own = ShotLine { miss: 0, along: 0 };
            if let Some(victim) = self.world.emit_pd_shot(i, line, &vec![own]) {
                let damage = self.world.hunters[i].weapon.damage;
                self.world.land_shot(victim, damage, None);
            }
        }
        shot
    }
}

/// The intervals between rounds, in seconds, over `secs` of fire on a player in plain view.
fn pd_shot_intervals(secs: f32) -> Vec<f32> {
    let mut duel = Duel::new(AiMode::Ours, 7_000);
    duel.world.toggle_invulnerable();
    let dt = 1.0 / 60.0;
    let (mut intervals, mut since, mut prev_muzzle, mut first) = (Vec::new(), 0.0f32, 0u32, true);
    for _ in 0..(secs / dt) as usize {
        duel.step(true, true, 0.0);
        since += dt;
        let m = duel.world.hunters[0].muzzle_timer;
        if m > prev_muzzle {
            if !first {
                intervals.push(since);
            }
            first = false;
            since = 0.0;
        }
        prev_muzzle = m;
    }
    intervals
}

#[test]
fn pd_an_automatic_fires_in_bursts_not_a_continuous_stream() {
    let intervals = pd_shot_intervals(12.0);
    assert!(intervals.len() >= 12, "not enough shots to judge the rhythm: {intervals:?}");
    let pause = PD_BURST_GAP as f32 / TICKS_PER_SEC as f32 * 0.9;
    let pauses = intervals.iter().filter(|&&d| d >= pause).count();
    let tight = intervals.iter().filter(|&&d| d < pause).count();
    assert!(pauses > 0, "an automatic never paused");
    assert!(tight > 0, "no rounds came close together");
    let mut run = 1usize;
    let mut worst = 1usize;
    for &d in &intervals {
        if d < pause {
            run += 1;
            worst = worst.max(run);
        } else {
            run = 1;
        }
    }
    assert!(
        worst <= PD_BURST_ROUNDS as usize,
        "{worst} rounds left back-to-back with no pause; a burst is {PD_BURST_ROUNDS}"
    );
}

/// How long an aim model takes to kill a player in the open ten metres away, if it does: the
/// `delay` before it first pulls the trigger, and its aim error over time.
fn pd_time_to_kill(secs: f32, delay: f32, error: fn(f32) -> f32) -> Option<f32> {
    let mut duel = Duel::new(AiMode::Ours, 10_000);
    let dt = 1.0 / 60.0;
    for i in 0..(secs / dt) as usize {
        let t = i as f32 * dt;
        duel.step(t >= delay, true, error(t));
        if duel.world.is_player_dead() {
            return Some(t);
        }
    }
    None
}

#[test]
fn pd_accuracy_emerges_from_aim_rather_than_a_dice_roll() {
    const WINDOW: f32 = 30.0;
    // The best tier has no aim error and no reaction time; the worst wanders up to thirty
    // degrees off and takes a second and a half to react.
    let dark = pd_time_to_kill(WINDOW, 0.0, |_| 0.0);
    let meat = pd_time_to_kill(WINDOW, 1.5, |t| 30.0 * (t * 1.7).sin());
    let dark = dark.expect("the best tier must kill a stationary target in the open");
    match meat {
        None => {}
        Some(meat) => assert!(
            meat > dark * 2.0,
            "difficulty must separate on aim alone: dark killed in {dark:.1}s, meat in {meat:.1}s"
        ),
    }
}

struct AbMetrics {
    damage: f32,
    reloaded: bool,
}

/// One hunter against a stationary player nine metres away.
fn ab_run(mode: AiMode, secs: f32, invulnerable: bool) -> AbMetrics {
    let mut duel = Duel::new(mode, 9_000);
    duel.world.set_ai_mode(mode);
    if invulnerable {
        duel.world.toggle_invulnerable();
    }
    let dt = 1.0 / 60.0;
    let start_hp = duel.world.player_health() as f32;
    let mut reloaded = false;
    for _ in 0..(secs / dt) as usize {
        duel.step(true, true, 0.5);
        if duel.world.hunters[0].reload_timer > 0 {
            reloaded = true;
        }
        if duel.world.is_player_dead() {
            break;
        }
    }
    AbMetrics { damage: start_hp - duel.world.player_health() as f32, reloaded }
}

#[test]
fn ai_ab_time_to_kill_is_reported_for_both_models() {
    let ours = ab_run(AiMode::Ours, 25.0, false);
    let pd = ab_run(AiMode::Pd, 25.0, false);
    assert!(pd.damage > 0.0, "a PD-mode hunter never landed a shot in 25 s");
    assert!(ours.damage > 0.0, "an ours-mode hunter never landed a shot in 25 s");
}

#[test]
fn pd_mode_hunters_run_dry_and_reload() {
    let pd = ab_run(AiMode::Pd, 20.0, true);
    let ours = ab_run(AiMode::Ours, 20.0, true);
    assert!(pd.reloaded, "a PD-mode hunter fired for 20 s without ever reloading");
    assert!(!ours.reloaded, "an ours-mode hunter reloaded — that rule is PD-mode only");
}

#[test]
fn pd_mode_tops_up_a_partial_clip_once_you_are_out_of_sight() {
    let mut duel = Duel::new(AiMode::Pd, 4_000);
    duel.world.toggle_invulnerable();
    let dt = 1.0 / 60.0;
    let clip = duel.world.hunters[0].weapon.clip;
    assert!(clip >= 2);
    let mut fired_frames = 0;
    while duel.world.hunters[0].loaded > clip / 2 && fired_frames < 60 * 20 {
        duel.step(true, true, 0.0);
        fired_frames += 1;
    }
    let loaded = duel.world.hunters[0].loaded;
    assert!(loaded > 0 && duel.world.hunters[0].reload_timer == 0);
    assert!(loaded < clip, "the hunter never fired a shot in 20 s");
    duel.world.toggle_invisible();
    let mut scheduled_at = None;
    for f in 0..(60.0 * 4.0) as usize {
        duel.step(false, false, 0.0);
        if scheduled_at.is_none() && duel.world.hunters[0].reload_timer > 0 {
            scheduled_at = Some(f as f32 * dt);
        }
    }
    let at = scheduled_at.expect("a partial magazine was never topped up after 4 s unseen");
    let unseen = PD_RELOAD_UNSEEN as f32 / TICKS_PER_SEC as f32;
    assert!((unseen..3.5).contains(&at), "the reload came {at:.1}s after losing sight");
}

#[test]
fn pd_mode_zeroes_the_behaviours_perfect_dark_does_not_have() {
    let mut world = World::new(assets(AiMode::Ours));
    world.set_difficulty(hunt_world::settings::DIFFICULTY_MAX);

    world.set_ai_mode(AiMode::Ours);
    let ours = world.ai_tuning();
    assert!(ours.dodge > 0 && ours.flank > 0 && ours.cover > 0 && ours.suppress > 0);

    world.set_ai_mode(AiMode::Pd);
    let pd = world.ai_tuning();
    assert_eq!(pd.dodge, 0);
    assert_eq!(pd.flank, 0);
    assert_eq!(pd.cover, 0);
    assert_eq!(pd.suppress, 0);
    assert_eq!(pd.speed_mult, ours.speed_mult);
    assert_eq!(pd.sense, ours.sense);

    world.set_ai_mode(AiMode::Ours);
    assert!(world.ai_tuning().dodge > 0);
}

#[test]
fn an_explicit_ai_mode_outranks_the_lab() {
    let mut world = World::new(assets(AiMode::Pd));
    world.enable_pd_lab(1, None);
    world.set_ai_mode(AiMode::Ours);
    assert_eq!(world.ai_mode(), AiMode::Ours);
    world.set_ai_mode(AiMode::Pd);
    assert_eq!(world.ai_mode(), AiMode::Pd);
}

#[test]
fn a_dry_hunter_holds_its_fire_until_the_reload_is_done() {
    let mut duel = Duel::new(AiMode::Pd, 5_000);
    duel.world.toggle_invulnerable();
    let mut shots = 0;
    let mut frames = 0;
    while duel.world.hunters[0].reload_timer == 0 {
        if duel.step(true, true, 0.0) {
            shots += 1;
        }
        frames += 1;
        assert!(frames < 3000);
    }
    assert_eq!(shots, 20);
    let before = duel.world.hunters[0].reserve;
    while duel.world.hunters[0].reload_timer > 0 {
        assert!(!duel.step(true, true, 0.0) || duel.world.hunters[0].reload_timer == 0);
    }
    assert_eq!(duel.world.hunters[0].loaded + duel.world.hunters[0].reserve, before);
    assert!(duel.world.hunters[0].loaded >= 19);
}

#[test]
fn a_round_two_degrees_off_misses_at_ten_metres_and_lands_at_one() {
    let mut duel = Duel::new(AiMode::Ours, 10_000);
    for _ in 0..300 {
        duel.step(true, true, 3.0);
    }
    assert_eq!(duel.world.player_health(), 100_000);
    for _ in 0..300 {
        duel.step(true, true, 1.0);
    }
    assert!(duel.world.player_health() < 100_000);
}

#[test]
fn fetching_hunters_are_blind_and_pd_hunters_always_know() {
    let mut duel = Duel::new(AiMode::Ours, 5_000);
    let o = duel.world.hunter_orders(0, false);
    assert!(o.detectable && o.omniscient && o.utility);
    assert_eq!(o.clearance, 200);
    let f = duel.world.hunter_orders(0, true);
    assert!(!f.detectable && !f.omniscient);
    duel.world.set_pd_omniscience(false);
    assert!(!duel.world.hunter_orders(0, false).omniscient);
    duel.world.set_ai_mode(AiMode::Pd);
    assert!(duel.world.hunter_orders(0, false).omniscient);
    duel.world.toggle_invisible();
    assert!(!duel.world.hunter_orders(0, false).detectable);
}

// ---- Knowing where the player is ----

/// A room of fifteen metres split by a wall, metres seven to eight, with one gap in it. The
/// player stands on the far side, the hunter in a near corner.
struct Arena {
    world: World,
    player: Point,
}

const GAP: (i32, i32) = (6_750, 8_250);

/// Whether the wall leaves the line between two points clear.
fn perception_los(a: Point, b: Point) -> bool {
    let across = |z: i32| -> bool {
        if (a.z < z) == (b.z < z) {
            return true;
        }
        let x = a.x as i64 + (b.x - a.x) as i64 * (z - a.z) as i64 / (b.z - a.z) as i64;
        (GAP.0 as i64..=GAP.1 as i64).contains(&x)
    };
    across(7_000) && across(8_000)
}

fn toward(a: Point, b: Point, step: i32) -> Point {
    let (dx, dz) = ((b.x - a.x) as f32, (b.z - a.z) as f32);
    let d = (dx * dx + dz * dz).sqrt();
    if d <= step as f32 {
        return at(b.x, a.y, b.z);
    }
    at(a.x + (dx / d * step as f32) as i32, a.y, a.z + (dz / d * step as f32) as i32)
}

fn gap(a: Point, b: Point) -> f32 {
    let (dx, dz) = ((b.x - a.x) as f32, (b.z - a.z) as f32);
    (dx * dx + dz * dz).sqrt() / 1000.0
}

impl Arena {
    fn step(&mut self) {
        let orders = self.world.hunter_orders(0, false);
        let h = self.world.hunters[0];
        // A mind that goes where it knows the player to be, through the gap, and otherwise to
        // where it was sent to look.
        let sees = self.world.can_see(0, Target::Player, perception_los(h.pos, self.player));
        let knows = orders.omniscient || (orders.detectable && sees);
        let goal = if knows { Some(self.player) } else { h.search_target };
        let pos = match goal {
            Some(g) if gap(h.pos, g) > 4.0 => {
                let next = if perception_los(h.pos, g) { g } else { at(7_500, 0, 7_500) };
                toward(h.pos, next, 50)
            }
            _ => h.pos,
        };
        let state = match (knows, sees) {
            (true, true) => AiState::Attack,
            (true, false) => AiState::Chase,
            _ => AiState::Search,
        };
        let report = StepReport {
            aim: Some(AimReport { want_fire: false, yaw: 0, target: Some(Target::Player) }),
            want_fire: false,
            needs_search_target: !knows && h.search_target.is_none(),
            caught: false,
            pending_door: None,
            state,
            engaged: knows && sees,
            last_known: if knows { Some(self.player) } else { None },
            pos,
            vel: at(0, 0, 0),
            slow: false,
        };
        self.world.fixed_step(DT, 0, &vec![report]);
    }
}

fn omniscience_arena(pd: bool) -> Arena {
    let player = at(11_000, 0, 12_000);
    let mut world = World::new(assets(AiMode::Ours));
    if pd {
        world.enable_pd_lab(1, None);
    } else {
        world.set_wave_size(1);
    }
    enter(&mut world, player, at(2_000, 0, 3_000));
    world.toggle_invulnerable();
    Arena { world, player }
}

/// The closest the hunter came within `secs`, and whether it ever went looking.
fn omniscience_run(arena: &mut Arena, secs: f32) -> (f32, bool) {
    let dt = 1.0 / 60.0;
    let mut closest = f32::MAX;
    let mut searched = false;
    for _ in 0..(secs / dt) as usize {
        arena.step();
        let h = &arena.world.hunters[0];
        closest = closest.min(gap(h.pos, arena.player));
        if matches!(h.state, AiState::Search | AiState::Investigate) {
            searched = true;
        }
    }
    (closest, searched)
}

#[test]
fn pd_omniscient_hunter_finds_a_player_it_cannot_see() {
    let mut arena = omniscience_arena(true);
    assert!(arena.world.pd_omniscience(), "PD omniscience is on by default");
    let start = arena.world.hunters[0].pos;
    assert!(!perception_los(start, arena.player), "the wall stands between the two");
    let (closest, searched) = omniscience_run(&mut arena, 20.0);
    assert!(closest < 6.0, "the hunter got no closer than {closest:.2} m");
    assert!(!searched, "an omniscient hunter has nothing to search for");
}

#[test]
fn pd_omniscience_kill_switch_restores_the_search() {
    let mut arena = omniscience_arena(true);
    arena.world.set_pd_omniscience(false);
    assert!(!arena.world.pd_omniscience(), "the kill-switch disables omniscience");
    let (_, searched) = omniscience_run(&mut arena, 20.0);
    assert!(searched, "without omniscience a blind hunter must fall back to the search");
}

#[test]
fn omniscience_reaches_a_goldeneye_bodied_hunter_too() {
    let player = at(11_000, 0, 12_000);
    let mut world = World::new(assets(AiMode::Ours));
    world.set_body_set(BodySet::GoldenEye);
    world.set_difficulty(hunt_world::settings::DIFFICULTY_MAX);
    world.set_wave_size(1);
    enter(&mut world, player, at(2_000, 0, 3_000));
    world.toggle_invulnerable();
    assert!(world.hunters[0].simulant, "every hunter carries a simulant, whatever body it wears");
    let ge = world.bodies.ge_bodies();
    assert!((ge.first..ge.end).contains(&world.hunters[0].body), "this one wears a GoldenEye body");
    let mut arena = Arena { world, player };
    assert!(arena.world.pd_omniscience(), "the world flag is on");
    let (closest, searched) = omniscience_run(&mut arena, 20.0);
    assert!(arena.world.hunter_orders(0, false).omniscient);
    assert!(closest < 6.0, "the hunter got no closer than {closest:.2} m");
    assert!(!searched, "an omniscient hunter has nothing to search for");
}

#[test]
fn pd_mode_is_omniscient_even_with_the_kill_switch_off() {
    let mut arena = omniscience_arena(true);
    arena.world.set_ai_mode(AiMode::Pd);
    arena.world.set_pd_omniscience(false);
    let (closest, searched) = omniscience_run(&mut arena, 20.0);
    assert!(arena.world.hunter_orders(0, false).omniscient, "AI=pd requires omniscience");
    assert!(!searched, "a PD-mode hunter has no search to reach");
    assert!(closest < 6.0, "and it comes through the gap ({closest:.2} m)");
}

#[test]
fn the_overlay_of_the_lab_shows_each_simulant_as_of_its_last_step() {
    let mut arena = omniscience_arena(true);
    assert!(arena.world.pd_debug().is_empty(), "nothing has been stepped yet");
    arena.step();
    let d = arena.world.pd_debug();
    assert_eq!(d.len(), 1);
    assert_eq!((d[0].id, d[0].health, d[0].max_health, d[0].dead), (0, 100_000, 100_000, false));
    assert_eq!((d[0].state, d[0].target_hunter, d[0].fire_offset), (AiState::Chase, None, None));
    arena.world.hunters[0].health = 40_000;
    assert_eq!(arena.world.pd_debug()[0].health, 100_000);
    arena.step();
    assert_eq!(arena.world.pd_debug()[0].health, 40_000);

    let mut arena = omniscience_arena(false);
    arena.step();
    assert!(arena.world.hunters[0].pd_debug.is_some());
    assert!(arena.world.pd_debug().is_empty(), "outside the lab there is nothing to show");
}
