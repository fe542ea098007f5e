use hunt_world::arms::Gun;
use hunt_world::combat::ClipTables;
use hunt_world::controls::{HudView, LookAction, PadAction, ViewSource};
use hunt_world::hunt::{
    band_for_speed, fire_window_for, is_fire_clip, turn_toward, AnimInput, BreakableDoor,
    FireWindows, GunDraw, PoseSource, FADE_DURATION, FIRE_DUAL_IDX, FIRE_PISTOL_IDX,
    FIRE_RIFLE_IDX, HALF_TURN,
};
use hunt_world::hunter::{AiMode, AiState, FireTiming, Hunter, Target, WeaponClass, WeaponSpec};
use hunt_world::lifecycle::{BakedHunt, HuntEntry};
use hunt_world::nav_survey::PadProbe;
use hunt_world::pack::{
    pick_spread_spawns, separate_enemies, squad_alert, take_pad, SpawnPad,
};
use hunt_world::settings::{Bodies, BodyRange, BodySet, Clips, Settings, Tier, DIFFICULTY_MAX};
use hunt_world::space::Point;
use hunt_world::step::{AimReport, StepGate, StepReport};
use hunt_world::wave::{
    enemy_roster_for, ge_enemy_roster, pd_enemy_roster, Arsenal, ArsenalWeapon, RosterEntry, WaveEntry, WaveKit,
};
use hunt_world::world::{Assets, Mode, Pose, World};

fn at(x: i32, y: i32, z: i32) -> Point {
    Point { x, y, z }
}

fn spec(id: usize) -> WeaponSpec {
    WeaponSpec {
        id,
        class: if id % 2 == 0 { WeaponClass::Rifle } else { WeaponClass::Pistol },
        automatic: id % 2 == 0,
        interval: 150,
        damage: 8_000,
        clip: 30,
        reload: 1200,
        unarmed: false,
    }
}

fn bare() -> WeaponSpec {
    WeaponSpec { clip: 0, unarmed: true, ..spec(99) }
}

fn timing() -> FireTiming {
    FireTiming {
        start: 0,
        shoot_from: 100,
        shoot_to: 1000,
        recoil_from: 100,
        recoil_to: 500,
        end: 1200,
        angle_offset: 7,
    }
}

fn bodies(ge: usize, pd: usize) -> Bodies {
    Bodies::load(&vec![Some(1500); ge], &vec![Some(1730); pd], true, true, true)
}

fn world() -> World {
    World::new(Assets {
        bodies: bodies(4, 2),
        tables: ClipTables {
            injuries: vec![1],
            deaths: vec![1],
            torso: 0,
            head_flinches: 1,
            torso_flinches: 1,
            leg_flinches: 1,
            death_clips: 1,
        },
        guns: vec![Gun {
            magazine: 7,
            reserve: 21,
            magazine_size: 7,
            price: 0,
            ammo_price: 0,
            reloading: false,
            unarmed: false,
        }],
        own_all: true,
        bounty: 1,
        ammo_mags: 1,
        ai_mode: AiMode::Ours,
        unarmed_hunters: false,
        anim_debug: false,
    })
}

fn kit() -> WaveKit {
    WaveKit {
        roster: vec![
            RosterEntry { weapon: spec(0), dual: false },
            RosterEntry { weapon: spec(1), dual: true },
        ],
        arsenal: vec![],
        fixed: None,
        fallback: spec(3),
        debug: spec(5),
        bare: bare(),
        start_unarmed: false,
        base_health: 100_000,
        spare_mags: 4,
    }
}

fn entry(feet: Point) -> HuntEntry {
    HuntEntry {
        camera: Pose { feet, yaw: 11, pitch: 22 },
        pad: None,
        baked: Some(BakedHunt {
            pads: vec![],
            yaws: vec![],
            marker: Some(at(2_875, 0, 2_875)),
            interior: vec![],
            standable: vec![at(100, 0, 100), at(900, 100, 900), at(1_100, 0, 0), at(0, 2_000, 0)],
        }),
    }
}

fn hunting(hunters: usize) -> World {
    let mut w = world();
    w.set_wave_size(hunters);
    w.toggle_mode(Some(entry(at(0, 0, 0))));
    let plans = w.plan_wave(&kit());
    let entries: Vec<WaveEntry> = (0..plans.len())
        .map(|i| WaveEntry { pos: at(5_000 + 1_000 * i as i32, 0, 0), collider: i as u64, fire: timing() })
        .collect();
    w.spawn_wave(&plans, &entries);
    w
}

/// A hunter that stays where and as it is.
fn quiet(h: &Hunter) -> StepReport {
    StepReport {
        aim: None,
        want_fire: false,
        needs_search_target: false,
        caught: false,
        pending_door: None,
        state: h.state,
        engaged: h.engaged,
        last_known: h.last_known,
        pos: h.pos,
        vel: h.vel,
        slow: false,
    }
}

fn quiet_all(w: &World) -> Vec<StepReport> {
    w.hunters.iter().map(quiet).collect()
}

fn aimed(want_fire: bool) -> Option<AimReport> {
    Some(AimReport { want_fire, yaw: 5, target: Some(Target::Hunter(0)) })
}

// ---- Settings ----

#[test]
fn the_dials_stop_at_their_ends() {
    let mut w = world();
    assert_eq!((w.difficulty(), w.wave_size()), (0, 1));
    w.set_difficulty(99);
    assert_eq!(w.difficulty(), DIFFICULTY_MAX);
    w.change_difficulty(-3);
    assert_eq!(w.difficulty(), 7);
    w.change_difficulty(-300);
    assert_eq!(w.difficulty(), 0);
    assert!(w.change_difficulty(-1).is_none());
    w.set_wave_size(0);
    assert_eq!(w.wave_size(), 1);
    w.set_wave_size(50);
    assert_eq!(w.wave_size(), 16);
    w.change_wave_size(-20);
    assert_eq!(w.wave_size(), 1);
    w.change_wave_size(4);
    assert_eq!(w.wave_size(), 5);
    w.enable_pd_lab(0, Some(4));
    assert_eq!(w.wave_size(), 1);
    assert!(w.pd_lab_active());
    assert_eq!(w.ai_tuning().tier, Tier::Fixed(4));
}

#[test]
fn the_ramp_is_linear() {
    let mut w = world();
    let d = w.difficulty_params();
    assert_eq!((d.speed_mult, d.cooldown_mult, d.reaction_mult, d.health_mult), (1000, 1000, 1000, 1000));
    assert_eq!((d.dodge, d.sense_mult, d.suppress, d.flank, d.cover), (0, 1000, 0, 0, 0));
    w.set_difficulty(10);
    let d = w.difficulty_params();
    assert_eq!((d.speed_mult, d.cooldown_mult, d.reaction_mult, d.health_mult), (1500, 150, 200, 4000));
    assert_eq!((d.dodge, d.sense_mult, d.suppress, d.flank, d.cover), (1000, 1400, 1000, 1000, 1000));
    w.set_difficulty(5);
    let t = w.ai_tuning();
    assert_eq!((t.alert, t.cooldown, t.speed_mult, t.sense), (600, 575, 1250, 1200));
    assert_eq!(t.tier, Tier::Dial(500));
}

#[test]
fn every_switch_starts_where_it_should_and_turns() {
    let mut w = world();
    assert!(w.authored_reactions() && w.local_avoidance() && w.head_look() && w.foot_ik());
    assert!(w.ragdoll() && w.wall_clearance() && w.utility_ai() && w.pd_omniscience());
    assert!(!w.grenades() && w.hunters_enabled() && w.is_build() && !w.is_caught());
    w.set_utility_ai(false);
    assert!(!w.utility_ai() && w.pd_omniscience());
    w.set_local_avoidance(false);
    w.set_head_look(false);
    w.set_foot_ik(false);
    w.set_wall_clearance(false);
    w.set_grenades(true);
    assert!(!w.local_avoidance() && !w.head_look() && !w.foot_ik() && !w.wall_clearance());
    assert!(w.grenades());
    let s = Settings::new(AiMode::Pd, true, false);
    assert!(s.unarmed_hunters && s.ai_mode == AiMode::Pd);
}

#[test]
fn a_missing_family_falls_back_to_the_other() {
    let b = bodies(4, 2);
    assert_eq!(b.wave_bodies(BodySet::All), BodyRange { first: 0, end: 6 });
    assert_eq!(b.wave_bodies(BodySet::GoldenEye), BodyRange { first: 0, end: 4 });
    assert_eq!(b.wave_bodies(BodySet::PerfectDark), BodyRange { first: 4, end: 6 });
    assert_eq!(bodies(4, 0).wave_bodies(BodySet::PerfectDark), BodyRange { first: 0, end: 4 });
    assert_eq!(bodies(0, 2).wave_bodies(BodySet::GoldenEye), BodyRange { first: 0, end: 2 });
    assert_eq!(BodySet::default(), BodySet::All);
    let some = Bodies::load(&vec![None, Some(1500)], &vec![Some(1730), None], true, true, false);
    assert_eq!((some.ge_count, some.count), (1, 2));
    assert_eq!(some.heights, vec![1500, 1730]);
}

#[test]
fn clips_follow_the_rig() {
    let b = bodies(4, 2);
    let pd_on_pd = Some(Clips { pd_rig: true, pd_clips: true });
    let pd_on_ge = Some(Clips { pd_rig: false, pd_clips: true });
    let ge_on_ge = Some(Clips { pd_rig: false, pd_clips: false });
    assert_eq!(b.body_clips(5, false), pd_on_pd);
    assert_eq!(b.body_clips(5, true), pd_on_pd);
    assert_eq!(b.body_clips(1, false), pd_on_ge);
    assert_eq!(b.body_clips(1, true), ge_on_ge);
    let mut b = bodies(4, 2);
    b.pd_template = false;
    b.pd_template_ge = false;
    assert_eq!(b.body_clips(5, true), None);
    assert_eq!(b.body_clips(1, false), ge_on_ge);
    assert_eq!((b.body_height(0), b.body_height(5), b.body_height(77)), (1500, 1730, 1500));
    assert_eq!(b.body_capsule(0), (240, 480));
    assert_eq!(b.body_capsule(5), (276, 553));
}

#[test]
fn the_roster_is_summed_up_in_a_line() {
    let mut w = world();
    assert_eq!(w.roster_summary(), "4 GoldenEye + 2 Perfect Dark bodies, Perfect Dark clips");
    w.set_goldeneye_clips(true);
    w.set_body_set(BodySet::GoldenEye);
    assert_eq!(
        w.roster_summary(),
        "4 GoldenEye + 0 Perfect Dark bodies, GoldenEye clips (legacy) [GE_CLIPS]"
    );
    w.enable_pd_lab(3, None);
    w.set_goldeneye_clips(false);
    assert_eq!(w.roster_summary(), "0 GoldenEye + 2 Perfect Dark bodies, Perfect Dark clips [PD_LAB]");
    w.bodies = Bodies::none();
    assert_eq!(w.roster_summary(), "0 GoldenEye + 0 Perfect Dark bodies, NO CLIPS LOADED [PD_LAB]");
}

// ---- Waves ----

#[test]
fn rosters_are_picked_by_name() {
    let arsenal: Vec<ArsenalWeapon> = ["Falcon 2", "AR34", "RC-P120", "Falcon 2"]
        .iter()
        .enumerate()
        .map(|(i, n)| ArsenalWeapon { name: n.to_string(), spec: spec(i) })
        .collect();
    let got: Vec<(usize, bool)> = pd_enemy_roster(&arsenal).iter().map(|e| (e.weapon.id, e.dual)).collect();
    assert_eq!(got, vec![(1, false), (0, false), (2, true), (0, true)]);
    assert_eq!(enemy_roster_for(Arsenal::PerfectDark, &arsenal).len(), 4);
    assert_eq!(enemy_roster_for(Arsenal::Both, &arsenal), vec![]);
    let arsenal: Vec<ArsenalWeapon> = ["PP7", "SHOTGUN", "AR33", "RCP90", "KF7"]
        .iter()
        .enumerate()
        .map(|(i, n)| ArsenalWeapon { name: n.to_string(), spec: spec(i) })
        .collect();
    let got: Vec<(usize, bool)> =
        ge_enemy_roster(&arsenal).iter().map(|e| (e.weapon.id, e.dual)).collect();
    assert_eq!(got, vec![(4, false), (0, false), (3, true), (0, true), (2, false), (1, false)]);
    assert_eq!(enemy_roster_for(Arsenal::Both, &arsenal), ge_enemy_roster(&arsenal));
    assert_eq!(enemy_roster_for(Arsenal::GoldenEye, &arsenal), ge_enemy_roster(&arsenal));
    assert_eq!(enemy_roster_for(Arsenal::PerfectDark, &arsenal), vec![]);
}

#[test]
fn a_wave_is_spread_over_bodies_and_roster() {
    let mut w = world();
    w.set_wave_size(4);
    w.set_difficulty(10);
    let plans = w.plan_wave(&kit());
    assert_eq!(plans.iter().map(|p| p.body).collect::<Vec<_>>(), vec![0, 1, 3, 4]);
    assert_eq!(plans.iter().map(|p| p.weapon.id).collect::<Vec<_>>(), vec![0, 1, 0, 1]);
    assert_eq!(plans.iter().map(|p| p.dual).collect::<Vec<_>>(), vec![false, true, false, true]);
    assert_eq!(plans[0].aim_slot, FIRE_RIFLE_IDX);
    assert_eq!(plans[1].aim_slot, FIRE_DUAL_IDX);
    assert_eq!(plans[0].health, 400_000);
    assert_eq!((plans[0].loaded, plans[0].reserve), (30, 120));
    assert_eq!(plans.iter().map(|p| p.flank_right).collect::<Vec<_>>(), vec![true, false, true, false]);
    assert_eq!(plans[0].seed, 0xA5A5_0000);
    assert_eq!(plans[1].seed, 0xA5A5_0000 ^ 0x9E37_79B9_7F4A_7C15);
    assert_eq!(plans[3].seed, 0xA5A5_0000 ^ 3u64.wrapping_mul(0x9E37_79B9_7F4A_7C15));
    assert_eq!(plans[3].clips, Clips { pd_rig: true, pd_clips: true });
}

#[test]
fn a_wave_can_be_unarmed_fixed_or_absent() {
    let mut w = world();
    let mut k = kit();
    k.start_unarmed = true;
    let p = w.plan_wave(&k)[0];
    assert!(p.weapon.unarmed && p.loaded == 0 && p.reserve == 0);
    let mut k = kit();
    k.arsenal = vec![ArsenalWeapon { name: "Klobb".to_string(), spec: spec(7) }];
    k.fixed = Some("Klobb".to_string());
    assert_eq!(w.plan_wave(&k)[0].weapon.id, 7);
    k.fixed = Some("RC-P90".to_string());
    assert_eq!(w.plan_wave(&k), w.plan_wave(&kit()), "the arsenal has no such weapon");
    let mut k = kit();
    k.roster.clear();
    assert_eq!(w.plan_wave(&k)[0].weapon.id, 3);
    assert_eq!(w.plan_wave(&k)[0].aim_slot, FIRE_PISTOL_IDX);
    w.settings.anim_debug = true;
    w.set_wave_size(9);
    assert_eq!(w.plan_wave(&kit()).len(), 1);
    assert_eq!(w.plan_wave(&kit())[0].weapon.id, 5);
    w.bodies = Bodies::none();
    assert!(w.plan_wave(&kit()).is_empty());
    let mut w = world();
    w.toggle_hunters();
    assert!(w.plan_wave(&kit()).is_empty());
}

#[test]
fn a_body_without_clips_borrows_the_first_set_of_the_wave() {
    let mut w = world();
    w.bodies.pd_template = false;
    w.set_wave_size(6);
    let plans = w.plan_wave(&kit());
    assert_eq!(plans[5].body, 5);
    assert_eq!(plans[5].clips, Clips { pd_rig: false, pd_clips: true });
}

// ---- The course of a hunt ----

#[test]
fn a_hunt_starts_and_ends_clean() {
    let mut w = world();
    w.edit.sel_size_u = 5;
    w.edit.tool_armed = true;
    let no = w.toggle_mode(None);
    assert!(!no.changed && w.is_build());
    assert!(!w.edit.tool_armed);
    assert_eq!(w.edit.sel_size_u, 0, "a refused switch still disarms the tools");
    let yes = w.toggle_mode(Some(entry(at(7, 0, 7))));
    assert!(yes.changed && yes.wave && !w.is_build());
    assert_eq!(w.player_pos(), Some(at(7, 0, 7)));
    assert_eq!(w.spawn.pads, vec![SpawnPad { pos: at(2_875, 0, 2_875), yaw: 0 }]);
    assert_eq!(w.radar_cells, vec![at(100, 0, 100), at(1_100, 0, 0), at(0, 2_000, 0)]);
    assert_eq!(w.hunt_spawn, Some(Pose { feet: at(7, 0, 7), yaw: 11, pitch: 22 }));
    let mut h = hunting(1).hunters[0];
    h.ragdoll = Some(40);
    h.reaction = Some(41);
    w.hunters.push(h);
    w.player.health = 5;
    let back = w.toggle_mode(None);
    assert!(back.changed && !back.wave && w.is_build());
    assert_eq!(back.gone, vec![40, 41], "no rigid body is left behind");
    assert_eq!(back.camera, Some(Pose { feet: at(7, 1_350, 7), yaw: 11, pitch: 22 }));
    assert!(w.hunters.is_empty() && w.spawn.pads.is_empty() && w.radar_cells.is_empty());
    assert_eq!((w.player_health(), w.player_pos()), (100_000, None));
}

#[test]
fn a_hunt_without_a_grid_has_no_wave() {
    let mut w = world();
    let mut e = entry(at(0, 0, 0));
    e.baked = None;
    e.pad = Some((at(50, 0, 60), 7));
    let c = w.toggle_mode(Some(e));
    assert!(c.changed && !c.wave && !w.nav_ready);
    assert_eq!(w.hunt_spawn, Some(Pose { feet: at(50, 0, 60), yaw: 7, pitch: 0 }));
    let mut w = world();
    w.set_spawn_enemies(false);
    assert!(!w.toggle_mode(Some(entry(at(0, 0, 0)))).wave);
}

#[test]
fn a_restart_brings_everything_back_to_the_start() {
    let mut w = hunting(2);
    w.player.health = 3;
    w.player.pos = Some(at(900, 0, 0));
    w.caught = true;
    w.camp.timer = 5;
    let r = w.restart_hunt();
    assert!(r.wave && w.hunters.is_empty() && !w.is_caught());
    assert_eq!((w.player_health(), w.player_pos()), (100_000, Some(at(0, 0, 0))));
    assert_eq!(w.camp.timer, 0);
    let r = w.set_difficulty(4).unwrap();
    assert!(r.wave);
    assert!(w.set_difficulty(4).is_none());
    assert!(w.change_wave_size(1).unwrap().wave);
    let mut b = world();
    assert!(!b.restart_hunt().wave);
}

#[test]
fn hunters_can_be_switched_off_and_on() {
    let mut w = hunting(3);
    w.hunters[1].ragdoll = Some(9);
    let off = w.toggle_hunters();
    assert!(!w.hunters_enabled() && w.hunters.is_empty() && !off.wave);
    assert_eq!(off.gone, vec![9]);
    assert!(w.toggle_hunters().wave);
    let mut b = world();
    assert!(!b.toggle_hunters().wave);
}

#[test]
fn death_ends_the_hunt() {
    let mut w = hunting(1);
    assert!(w.restart_after_death().is_none());
    w.take_player_damage(100_000);
    assert!(w.is_player_dead());
    let c = w.restart_after_death().unwrap();
    assert!(c.changed && w.is_build() && !w.is_player_dead());
    w.player.dead = true;
    w.player.health = 0;
    assert!(w.restart_after_death().is_none());
    assert_eq!(w.player_health(), 100_000);
}

#[test]
fn a_step_runs_only_when_it_should() {
    let mut w = world();
    assert_eq!(w.step_gate(), StepGate::Fly);
    let mut w2 = hunting(1);
    assert_eq!(w2.step_gate(), StepGate::Run);
    w2.player.pos = None;
    assert_eq!(w2.step_gate(), StepGate::Empty);
    w2.player.dead = true;
    assert_eq!(w2.step_gate(), StepGate::DeathBeat);
    w2.round_over = true;
    assert_eq!(w2.step_gate(), StepGate::Frozen);
    let plan = w.fixed_step(20, 6_400, &vec![]);
    assert!(plan.fire.is_empty() && plan.doors.is_empty() && plan.calls.is_empty());
}

#[test]
fn a_step_collects_triggers_searches_and_doors() {
    let mut w = hunting(4);
    w.spawn.search_points = vec![at(0, 0, 0), at(9_000, 0, 0)];
    let mut rs = quiet_all(&w);
    rs[0].want_fire = true;
    rs[0].pending_door = Some(9);
    rs[1].aim = aimed(true);
    rs[1].needs_search_target = true;
    rs[1].pending_door = Some(2);
    rs[2].aim = aimed(false);
    rs[2].want_fire = true;
    rs[2].pending_door = Some(9);
    rs[3].aim = aimed(true);
    rs[3].caught = true;
    w.hunters[3].fire_elapsed = Some(10);
    let plan = w.fixed_step(20, 0, &rs);
    assert_eq!(plan.fire, vec![0, 1]);
    assert_eq!(plan.search, vec![1]);
    assert_eq!(plan.doors, vec![2, 9]);
    assert!(plan.newly_caught && w.is_caught());
    assert!(!w.fixed_step(20, 0, &rs).newly_caught);
    w.set_ai_mode(AiMode::Pd);
    w.hunters[0].reload_timer = 1;
    assert_eq!(w.fixed_step(20, 0, &rs).fire, vec![1]);
    assert_eq!(w.hunters[1].search_target, Some(at(0, 0, 0)));
    assert_eq!(w.hunters[0].search_target, None);
    assert_eq!((w.hunters[1].render_yaw, w.hunters[1].target), (Some(5), Some(Target::Hunter(0))));
}

#[test]
fn a_step_calls_moves_hears_and_sends_in_order() {
    let mut w = hunting(3);
    w.set_difficulty(10);
    w.hunters = hunting(3).hunters;
    w.spawn.search_points = vec![at(50_000, 0, 0), at(60_000, 0, 0), at(0, 0, 50_000)];
    w.hunters[0].pos = at(0, 0, 30_000);
    w.hunters[1].pos = at(0, 0, 20_000);
    w.hunters[2].pos = at(0, 0, 60_000);
    let mut rs = quiet_all(&w);
    rs[0].engaged = true;
    rs[0].last_known = Some(at(1, 2, 3));
    rs[0].pos = at(0, 0, 90_000);
    rs[1].pos = at(0, 0, 10_000);
    rs[1].needs_search_target = true;
    rs[2].pos = at(0, 0, 10_001);
    rs[2].needs_search_target = true;
    w.hunters[2].reaction = Some(77);
    let plan = w.fixed_step(600, 6_400, &rs);
    assert_eq!(plan.calls, vec![(1, at(1, 2, 3))], "calls go out before anybody moves");
    assert_eq!(plan.heard, vec![1], "steps are heard where the hunters went");
    assert_eq!(plan.search, vec![1, 2]);
    assert_eq!(w.hunters[1].search_target, Some(at(60_000, 0, 0)));
    assert_eq!(w.hunters[2].search_target, Some(at(0, 0, 50_000)), "away from the one before");
    assert_eq!(plan.gone, vec![77]);
    assert_eq!(w.hunters[2].reaction, None);
    assert_eq!(w.hunters[0].pos, at(0, 0, 90_000));
    assert_eq!(plan.thrower, None);
}

#[test]
fn sight_ignores_bodies_the_dead_and_oneself() {
    let mut w = hunting(2);
    assert!(w.can_see(0, Target::Player, true) && !w.can_see(0, Target::Player, false));
    assert!(w.can_see(0, Target::Hunter(1), true));
    assert!(!w.can_see(0, Target::Hunter(0), true));
    w.hunters[1].dead = true;
    assert!(!w.can_see(0, Target::Hunter(1), true));
    w.toggle_invisible();
    assert!(!w.can_see(0, Target::Player, true));
    w.hunters[0].target = Some(Target::Hunter(1));
    assert_eq!(w.hunter_orders(0, false).engage, Target::Player);
    w.hunters[1].dead = false;
    assert_eq!(w.hunter_orders(0, false).engage, Target::Hunter(1));
    assert_eq!(w.hunter_orders(0, false).aim_offset, 0);
    w.hunters[0].fire_elapsed = Some(0);
    assert_eq!(w.hunter_orders(0, false).aim_offset, 7);
}

// ---- The pack ----

#[test]
fn the_pack_answers_the_closest_call() {
    let mut w = hunting(4);
    w.hunters[0].engaged = true;
    w.hunters[0].last_known = Some(at(1, 0, 0));
    w.hunters[1].pos = at(10_000, 0, 0);
    w.hunters[2].engaged = true;
    w.hunters[2].pos = at(11_000, 0, 0);
    w.hunters[2].last_known = Some(at(2, 0, 0));
    w.hunters[3].pos = at(23_000, 0, 0);
    assert_eq!(squad_alert(&w.hunters), vec![(1, at(2, 0, 0))]);
    w.hunters[3].pos = at(22_999, 0, 0);
    assert_eq!(squad_alert(&w.hunters), vec![(1, at(2, 0, 0)), (3, at(2, 0, 0))]);
    w.hunters[2].dead = true;
    w.hunters[3].dead = true;
    assert_eq!(squad_alert(&w.hunters), vec![(1, at(1, 0, 0))]);
}

#[test]
fn crowded_pairs_are_found() {
    let mut w = hunting(3);
    w.hunters[0].pos = at(0, 0, 0);
    w.hunters[1].pos = at(699, 5_000, 0);
    w.hunters[2].pos = at(700, 0, 0);
    assert_eq!(separate_enemies(&w.hunters), vec![(0, 1), (1, 2)]);
    w.hunters[1].dead = true;
    assert!(separate_enemies(&w.hunters).is_empty());
}

#[test]
fn searchers_fan_out() {
    let mut w = hunting(2);
    w.spawn.search_points = vec![at(0, 0, 0), at(20_000, 0, 0), at(10_000, 0, 0)];
    w.hunters[0].pos = at(1_000, 0, 0);
    w.hunters[1].pos = at(5_000, 0, 0);
    assert_eq!(w.pick_search_point(0), at(20_000, 0, 0));
    w.hunters[1].search_target = Some(at(20_000, 0, 0));
    assert_eq!(w.pick_search_point(0), at(10_000, 0, 0));
    w.spawn.search_points = vec![at(2_000, 0, 0), at(500, 0, 0)];
    assert_eq!(w.pick_search_point(0), at(2_000, 0, 0), "nowhere worth going");
    w.spawn.search_points.clear();
    assert_eq!(w.pick_search_point(0), at(0, 0, 0), "after the player");
    w.player.pos = None;
    assert_eq!(w.pick_search_point(0), w.spawn.point);
}

#[test]
fn spawns_are_spread_far_from_the_player_and_one_another() {
    let cells = vec![at(0, 0, 0), at(10_000, 0, 0), at(5_000, 0, 0), at(10_000, 0, 0)];
    let got = pick_spread_spawns(&cells, &vec![], at(0, 0, 0), 3);
    assert_eq!(got, vec![at(10_000, 0, 0), at(0, 0, 0), at(5_000, 0, 0)]);
    assert_eq!(pick_spread_spawns(&cells, &vec![], at(0, 0, 0), 9).len(), 3);
    let interior = vec![at(5_000, 0, 0)];
    assert_eq!(pick_spread_spawns(&cells, &interior, at(0, 0, 0), 1), interior);
    assert!(pick_spread_spawns(&cells, &interior, at(0, 0, 0), 0).is_empty());
    assert!(pick_spread_spawns(&vec![], &vec![], at(0, 0, 0), 4).is_empty());
}

#[test]
fn the_pool_keeps_the_pads_of_the_largest_group() {
    let mut w = world();
    let pad = |x: i32, comp: u32| PadProbe {
        pos: at(x, 100, 0),
        comp: Some(comp),
        snapped: at(x, 0, 0),
        snapped_comp: Some(comp),
    };
    let floor = vec![at(0, 0, 0), at(5_000, 0, 0), at(1_000, 0, 0)];
    w.doors.push(BreakableDoor { hp: 1, broken: false, panel: 1 });
    w.prepare_spawn(&vec![pad(1, 0), pad(2, 1), pad(3, 1)], &vec![10, 20, 30], None, &floor, &vec![]);
    assert_eq!(w.spawn.pads, vec![SpawnPad { pos: at(2, 0, 0), yaw: 20 }, SpawnPad { pos: at(3, 0, 0), yaw: 30 }]);
    assert_eq!(w.spawn.point, at(2, 0, 0));
    assert_eq!(w.spawn.search_points, vec![at(5_000, 0, 0), at(0, 0, 0), at(1_000, 0, 0)]);
    assert!(w.doors.is_empty());
    w.prepare_spawn(&vec![], &vec![], None, &floor, &vec![]);
    assert_eq!(w.spawn.pads, vec![SpawnPad { pos: at(3_000, 0, 3_000), yaw: 0 }]);
    let mut per_pad = vec![0, 0];
    assert_eq!((take_pad(&mut per_pad, 1), take_pad(&mut per_pad, 1), take_pad(&mut per_pad, 5)), (0, 1, 0));
    assert_eq!(per_pad, vec![0, 2]);
}

#[test]
fn the_radar_shows_the_players_storey() {
    let mut w = hunting(2);
    w.player.pos = Some(at(0, 10_000, 0));
    w.radar_cells = vec![at(3_000, 10_000, 4_000), at(3_001, 10_000, 4_000), at(0, 12_001, 0), at(-500, 8_000, 0)];
    w.hunters[0].pos = at(0, 13_000, 5_000);
    w.hunters[1].pos = at(0, 10_000, 5_001);
    let r = w.radar(5_000).unwrap();
    assert_eq!(r.floor, vec![(3_000, 4_000), (-500, 0)]);
    assert_eq!(r.blips.len(), 1);
    assert_eq!((r.blips[0].id, r.blips[0].dz, r.blips[0].dy), (0, 5_000, 3_000));
    w.player.pos = None;
    assert!(w.radar(5_000).is_none());
}

// ---- Animation and drawing ----

#[test]
fn gaits_windows_and_clips() {
    let speeds: Vec<usize> = [0, 1, 2_999, 3_000, 5_000].iter().map(|s| band_for_speed(*s, 3_000, 5_000)).collect();
    assert_eq!(speeds, vec![0, 1, 1, 2, 3]);
    let w = FireWindows { pistol: Some((1, 2)), rifle: None, dual: Some((5, 6)), fallback: (3, 4) };
    assert_eq!(fire_window_for(WeaponClass::Pistol, false, &w), (1, 2));
    assert_eq!(fire_window_for(WeaponClass::Rifle, false, &w), (3, 4));
    assert_eq!(fire_window_for(WeaponClass::Rifle, true, &w), (5, 6));
    assert_eq!((0..9).filter(|k| is_fire_clip(*k)).collect::<Vec<_>>(), vec![4, 5, 6]);
}

#[test]
fn bodies_turn_the_short_way() {
    assert_eq!(turn_toward(None, 5_000, 10), 5_000);
    assert_eq!(turn_toward(Some(0), 1_000, 300), 300);
    assert_eq!(turn_toward(Some(0), -1_000, 300), -300);
    assert_eq!(turn_toward(Some(900), 1_000, 300), 1_000);
    assert_eq!(turn_toward(Some(32_000), -32_000, 300), 32_300);
    assert_eq!(turn_toward(Some(32_700), -32_000, 300), -32_536);
    assert_eq!(turn_toward(Some(HALF_TURN), -HALF_TURN, 300), HALF_TURN);
    assert_eq!(turn_toward(Some(0), 3 * 65_536 + 100, 300), 100, "turns that change nothing");
    assert_eq!(turn_toward(Some(0), -3 * 65_536 - 100, 300), -100);
}

fn calm() -> AnimInput {
    AnimInput {
        oneshot: false,
        clip: 0,
        finished: false,
        heading: 1_000,
        max_turn: 100,
        scan_point: at(1, 2, 3),
        model: true,
        rig: true,
        floor: true,
        moving: true,
    }
}

#[test]
fn the_animation_follows_what_a_hunter_is_about() {
    let mut w = hunting(1);
    let p = w.advance_animation(20, &vec![calm()])[0].unwrap();
    assert!(!p.one_shot && p.stride && !p.aim && p.feet);
    assert_eq!(p.focus, Some(at(1, 2, 3)));
    assert_eq!(w.hunters[0].render_yaw, Some(1_000));
    w.hunters[0].state = AiState::Attack;
    let p = w.advance_animation(20, &vec![calm()])[0].unwrap();
    assert!(p.aim);
    assert_eq!(p.focus, Some(at(0, 1_000, 0)));
    w.hunters[0].state = AiState::Investigate;
    w.hunters[0].last_known = Some(at(9, 0, 9));
    assert_eq!(w.advance_animation(20, &vec![calm()])[0].unwrap().focus, Some(at(9, 1_000, 9)));
    let hit = AnimInput { oneshot: true, clip: 20, ..calm() };
    let p = w.advance_animation(20, &vec![hit])[0].unwrap();
    assert!(p.one_shot && !p.aim && !p.feet && p.focus.is_none());
    let shot = AnimInput { oneshot: true, clip: 4, ..calm() };
    assert!(!w.advance_animation(20, &vec![shot])[0].unwrap().one_shot);
    assert!(w.advance_animation(20, &vec![AnimInput { model: false, ..calm() }])[0].is_none());
    w.set_head_look(false);
    w.set_foot_ik(false);
    let p = w.advance_animation(20, &vec![calm()])[0].unwrap();
    assert!(p.focus.is_none() && !p.feet && !p.stride);
    w.hunters[0].dead = true;
    w.hunters[0].health = 0;
    w.advance_animation(20, &vec![AnimInput { finished: true, ..calm() }]);
    assert_eq!(w.hunters[0].fade, Some(20));
    assert_eq!(w.hunters[0].opacity(), FADE_DURATION - 20);
    w.mode = Mode::Build;
    assert!(w.advance_animation(20, &vec![calm()]).is_empty());
}

#[test]
fn corpses_settle_fade_and_go() {
    let mut w = hunting(2);
    assert_eq!(w.spawn_ragdoll(0, Some(50)), None);
    assert!(!w.spawn_reaction(1, Some(60)));
    assert!(w.advance_ragdolls(500, &vec![false, false]).is_empty());
    assert!(w.spawn_reaction(1, None), "a stagger under way is kicked");
    assert_eq!(w.hunters[1].reaction_time, 0);
    assert!(w.advance_ragdolls(513, &vec![true, false]).is_empty());
    assert_eq!(w.hunters[0].fade, Some(513));
    assert_eq!(w.advance_ragdolls(1, &vec![true, false]), vec![60]);
    assert_eq!(w.advance_ragdolls(10_000, &vec![false, false]), vec![50]);
    assert!(w.hunters[0].ragdoll.is_none());
    assert_eq!(w.hunters[0].opacity(), 0);
    w.hunters[0].reaction = Some(70);
    assert_eq!(w.spawn_ragdoll(0, None), Some(70));
    assert_eq!(w.spawn_ragdoll(9, Some(1)), None);
}

#[test]
fn only_what_is_there_is_drawn() {
    let mut w = hunting(3);
    w.hunters[1].dual = true;
    w.hunters[1].muzzle_timer = 5;
    w.hunters[2].dead = true;
    w.hunters[2].ragdoll = Some(1);
    w.hunters[0].body = 99;
    let d = w.character_instances();
    assert_eq!(d.iter().map(|c| c.hunter).collect::<Vec<_>>(), vec![1, 2]);
    assert_eq!(d[1].pose, PoseSource::Physics);
    let g = |hunter: usize, left: bool| GunDraw { hunter, left };
    assert_eq!(w.enemy_weapon_draws(), vec![g(0, false), g(1, false), g(1, true)]);
    assert_eq!(w.enemy_muzzle_draws(), vec![g(1, false), g(1, true)]);
    assert!(w.enemy_mesh().is_none());
    w.bodies = Bodies::none();
    assert_eq!(w.enemy_mesh().unwrap()[0], at(5_000, 600, 0));
    w.settings.anim_debug = true;
    assert_eq!(w.log_anim_debug(), None);
    w.hunters[0].state = AiState::Chase;
    w.hunters[1].state = AiState::Peek;
    w.hunters[1].pos = at(100, 0, 0);
    assert_eq!(w.log_anim_debug(), Some(1));
    w.mode = Mode::Build;
    assert!(w.character_instances().is_empty());
}

#[test]
fn a_door_withstands_what_it_withstands() {
    let mut w = hunting(1);
    w.doors.push(BreakableDoor { hp: 3_000, broken: false, panel: 8 });
    w.doors.push(BreakableDoor { hp: 1, broken: false, panel: 9 });
    assert_eq!(w.breach_tick(0, 2_999), None);
    assert_eq!(w.door_mesh(), vec![8, 9]);
    assert_eq!(w.breach_tick(0, 1), Some(8));
    assert_eq!(w.breach_tick(0, 1), None);
    assert_eq!(w.breach_tick(7, 1), None);
    assert_eq!(w.door_mesh(), vec![9]);
}

#[test]
fn looking_depends_on_the_mode_and_the_pointer() {
    let mut w = world();
    assert_eq!(w.look(true, true), LookAction::Fly);
    assert!(!w.crosshair_visible());
    assert_eq!(w.gamepad_look(true, true), PadAction::Idle);
    assert_eq!((w.view_proj(true), w.view_proj(false)), (ViewSource::Ortho, ViewSource::Camera));
    assert!(w.hud_mesh().is_none() && !w.reload_weapon() && !w.viewmodel_transform(true));
    let mut w = hunting(1);
    assert_eq!(w.look(true, true), LookAction::FreeAim);
    assert!(w.crosshair_visible());
    assert_eq!(w.look(true, false), LookAction::Turn);
    assert_eq!(w.look(false, true), LookAction::Drain);
    assert!(!w.crosshair_visible());
    assert_eq!(w.gamepad_look(true, true), PadAction::Aim);
    assert!(w.crosshair_visible());
    assert_eq!(w.gamepad_look(true, false), PadAction::Walk);
    assert_eq!(w.view_proj(true), ViewSource::Player);
    assert_eq!(
        w.hud_mesh(),
        Some(HudView::Status { magazine: 7, reserve: 21, difficulty: 0, credits: 0 })
    );
    assert!(w.reload_weapon() && w.muzzle_transform(true, true) && !w.muzzle_transform(true, false));
    w.take_player_damage(200_000);
    assert_eq!(w.hud_mesh(), Some(HudView::Death));
    assert_eq!(w.health_hud_rgba(), (0, 0));
    assert_eq!(w.hud_alpha(), 600);
}

#[test]
fn a_fresh_hunter_comes_in_whole() {
    let w = hunting(1);
    let h: Hunter = w.hunters[0];
    assert_eq!((h.state, h.health, h.dead, h.fire_elapsed), (AiState::Search, 100_000, false, None));
    assert!(h.simulant && h.pd_anims);
    assert_eq!(w.hunter_scores.len(), 1);
}
