use hunt_world::arms::{is_on, Armory, Gun};
use hunt_world::combat::{
    los_clear, nearest_hit_part, ClipTables, HitReaction, HitZone, PosedVertex, Spark,
};
use hunt_world::explosives::{
    blast_puffs, chain_reaction, mines_step, step_projectiles, Contact, Detonation, Explosion,
    Mine, MineSweep, MineTrigger, Projectile, Sweep,
};
use hunt_world::gunfire::{FireKind, ShotLine};
use hunt_world::hunt::LooseDraw;
use hunt_world::hunter::{
    AiMode, AiState, FireTiming, Hunter, Target, WeaponClass, WeaponSpec, PD_BURST_GAP,
    PD_BURST_SPACING,
};
use hunt_world::player::{Player, FLASH_MAX, HUD_FADE_TAIL};
use hunt_world::props::{RayHit, ShotEffect};
use hunt_world::rng::rand_below;
use hunt_world::settings::Bodies;
use hunt_world::space::Point;
use hunt_world::world::{Assets, Mode, World};

fn at(x: i32, y: i32, z: i32) -> Point {
    Point { x, y, z }
}

fn gun(price: u32, ammo_price: u32) -> Gun {
    Gun {
        magazine: 7,
        reserve: 21,
        magazine_size: 7,
        price,
        ammo_price,
        reloading: false,
        unarmed: false,
    }
}

fn pistol() -> WeaponSpec {
    WeaponSpec {
        id: 0,
        class: WeaponClass::Pistol,
        automatic: false,
        interval: 300,
        damage: 9_000,
        clip: 7,
        reload: 600,
        unarmed: false,
    }
}

fn hunter(x: i32, z: i32) -> Hunter {
    Hunter {
        pos: at(x, 0, z),
        vel: at(0, 0, 0),
        state: AiState::Search,
        engaged: false,
        last_known: None,
        search_target: None,
        health: 100_000,
        max_health: 100_000,
        dead: false,
        body: 0,
        weapon: pistol(),
        dual: false,
        collider: 1,
        simulant: true,
        target: None,
        pd_debug: None,
        pd_anims: true,
        hit_part: None,
        fade: None,
        shot_timer: 0,
        loaded: 7,
        reserve: 70,
        reload_timer: 0,
        unseen: 0,
        burst_shot: 0,
        fire_elapsed: None,
        fire: FireTiming {
            start: 0,
            shoot_from: 100,
            shoot_to: 1000,
            recoil_from: 100,
            recoil_to: 500,
            end: 1200,
            angle_offset: 90,
        },
        muzzle_timer: 0,
        render_yaw: None,
        ragdoll: None,
        ragdoll_time: 0,
        reaction: None,
        reaction_time: 0,
    }
}

fn world() -> World {
    let mut w = World::new(Assets {
        bodies: Bodies {
            ge_count: 1,
            count: 2,
            heights: vec![1500, 1730],
            ge_template: true,
            pd_template: true,
            pd_template_ge: true,
        },
        tables: ClipTables {
            injuries: vec![3, 4],
            deaths: vec![2, 5],
            torso: 1,
            head_flinches: 2,
            torso_flinches: 4,
            leg_flinches: 3,
            death_clips: 10,
        },
        guns: vec![gun(100, 10), gun(200, 20), gun(300, 30)],
        own_all: false,
        bounty: 50,
        ammo_mags: 3,
        ai_mode: AiMode::Ours,
        unarmed_hunters: false,
        anim_debug: false,
    });
    w.mode = Mode::Hunt;
    w.player.pos = Some(at(0, 0, 0));
    w
}

#[test]
fn sight_is_clear_when_nothing_is_in_the_way_or_too_close_to_the_end() {
    let eye = at(0, 0, 0);
    assert!(los_clear(eye, at(1000, 0, 0), None));
    assert!(!los_clear(eye, at(1000, 0, 0), Some(850)));
    assert!(los_clear(eye, at(1000, 0, 0), Some(851)));
    assert!(los_clear(eye, at(149, 0, 0), Some(0)));
    assert!(!los_clear(eye, at(150, 0, 0), Some(0)));
}

#[test]
fn a_hit_lands_on_the_part_of_the_nearest_skin() {
    let v = |x: i32, joints: [u16; 4], weights: [u32; 4]| PosedVertex { pos: at(x, 0, 0), joints, weights };
    let parts = vec![Some(7), None, Some(9)];
    let vs = vec![
        v(0, [0, 1, 2, 3], [0, 0, 0, 0]),
        v(10, [0, 2, 1, 0], [5, 9, 9, 1]),
        v(30, [0, 0, 0, 0], [1, 0, 0, 0]),
    ];
    assert_eq!(nearest_hit_part(&vs, at(0, 0, 0), &parts), Some(9));
    assert_eq!(nearest_hit_part(&vs, at(28, 0, 0), &parts), Some(7));
    assert_eq!(nearest_hit_part(&vs, at(20, 0, 0), &parts), Some(9), "the first of two as near");
    let blend = vec![v(0, [1, 0, 0, 0], [1, 0, 0, 0])];
    assert_eq!(nearest_hit_part(&blend, at(0, 0, 0), &parts), None);
    let lost = vec![v(0, [8, 0, 0, 0], [1, 0, 0, 0])];
    assert_eq!(nearest_hit_part(&lost, at(0, 0, 0), &parts), None);
    assert_eq!(nearest_hit_part(&vec![], at(0, 0, 0), &parts), None);
}

#[test]
fn zones_scale_with_the_body() {
    assert_eq!(HitZone::classify(1100, 1500), HitZone::Head);
    assert_eq!(HitZone::classify(1099, 1500), HitZone::Torso);
    assert_eq!(HitZone::classify(550, 1500), HitZone::Torso);
    assert_eq!(HitZone::classify(549, 1500), HitZone::Legs);
    assert_eq!(HitZone::classify(1100, 1730), HitZone::Torso);
    assert_eq!(HitZone::classify(1269, 1730), HitZone::Head);
}

#[test]
fn a_head_shot_hurts_four_times_as_much() {
    let mut w = world();
    w.hunters.push(hunter(0, 5000));
    let r = w.hit_enemy_with(0, 1200, 10_000, Some(0)).unwrap();
    assert_eq!(r.zone, HitZone::Head);
    assert_eq!(r.damage, 40_000);
    assert_eq!(w.hunters[0].health, 60_000);
    assert!(!r.died);
    assert!(matches!(r.reaction, HitReaction::Injury(k) if k < 3));
    assert!(1 <= r.pain && r.pain <= 26);
    let r = w.hit_enemy_with(0, 100, 10_000, Some(1)).unwrap();
    assert_eq!(r.damage, 6_000);
    assert!(matches!(r.reaction, HitReaction::Injury(k) if k < 4));
    let r = w.hit_enemy_with(0, 800, 60_000, None).unwrap();
    assert!(r.died && w.hunters[0].dead);
    assert_eq!(r.capsule, Some(1));
    assert!(matches!(r.reaction, HitReaction::AuthoredDeath(k) if k < 5));
    assert_eq!(w.credits(), 50);
    assert!(w.hit_enemy_with(0, 800, 60_000, None).is_none());
    assert!(w.hit_enemy_with(5, 800, 60_000, None).is_none());
}

#[test]
fn reactions_fall_back_in_order_and_drop_the_trigger() {
    let hit = |authored: bool, ragdoll: bool, flinch: bool| {
        let mut w = world();
        w.set_authored_reactions(authored);
        w.set_ragdoll(ragdoll);
        w.set_hit_reactions(flinch);
        let mut h = hunter(0, 5000);
        h.fire_elapsed = Some(200);
        h.burst_shot = 2;
        h.shot_timer = 40;
        w.hunters.push(h);
        let r = w.hit_enemy_with(0, 800, 1_000, None).unwrap();
        (r.reaction, w.hunters[0].fire_elapsed.is_some())
    };
    assert!(matches!(hit(true, true, true), (HitReaction::Injury(_), false)));
    assert!(matches!(hit(false, true, true), (HitReaction::Stagger, false)));
    assert!(matches!(hit(false, false, true), (HitReaction::Flinch(_), false)));
    assert!(matches!(hit(false, false, false), (HitReaction::Nothing, true)));
}

#[test]
fn deaths_fall_back_in_order() {
    let kill = |authored: bool, ragdoll: bool| {
        let mut w = world();
        w.set_authored_reactions(authored);
        w.set_ragdoll(ragdoll);
        w.hunters.push(hunter(0, 0));
        w.hit_enemy_with(0, 800, 200_000, None).unwrap().reaction
    };
    assert!(matches!(kill(true, true), HitReaction::AuthoredDeath(_)));
    assert!(matches!(kill(false, true), HitReaction::RagdollDeath));
    assert!(matches!(kill(false, false), HitReaction::CannedDeath(k) if k < 10));
}

#[test]
fn a_blast_does_not_stop_fire_and_has_no_authored_injury() {
    let mut w = world();
    let mut h = hunter(0, 5000);
    h.fire_elapsed = Some(200);
    w.hunters.push(h);
    let mut corpse = hunter(1, 1);
    corpse.dead = true;
    corpse.health = 0;
    w.hunters.push(corpse);
    w.hunters.push(hunter(2, 2));
    w.hunters.push(hunter(9_001, 0));
    let d = Detonation { at: at(0, 700, 0), blast: Explosion { radius: 9_000, max_damage: 1 } };
    let mut rng = w.char_rng;
    let puffs: Vec<u32> = (0..31).map(|_| rand_below(&mut rng, 1 << 24) as u32).collect();
    let report = w.detonate(&d, &vec![5_000, 5_000, 0, 5_000], 30_000);
    assert_eq!(report.puffs, puffs, "six puffs, the core from one fraction");
    let reports = report.hunters;
    assert_eq!(reports[0].unwrap().pain, rand_below(&mut rng, 26) + 1, "the puffs are drawn first");
    assert!(reports[3].is_none(), "out of reach");
    assert_eq!(reports[0].unwrap().reaction, HitReaction::Stagger);
    assert_eq!((reports[0].unwrap().stun, reports[0].unwrap().capsule), (420, None));
    assert!(reports[1].is_none() && reports[2].is_none());
    assert_eq!(w.hunters[0].fire_elapsed, Some(200));
    assert_eq!(w.hunters[0].health, 95_000);
    assert_eq!(w.player_health(), 70_000);
}

#[test]
fn damage_takes_armour_first() {
    let mut p = Player::new();
    p.armor = 30_000;
    p.take_damage(10_000);
    assert_eq!((p.armor, p.health, p.damage_flash), (20_000, 100_000, 60_000));
    p.take_damage(50_000);
    assert_eq!((p.armor, p.health, p.damage_flash), (0, 70_000, FLASH_MAX));
    p.invulnerable = true;
    p.take_damage(50_000);
    assert_eq!(p.health, 70_000);
    p.invulnerable = false;
    p.take_damage(70_000);
    assert!(p.dead && p.health == 0);
    let corpse = p;
    p.take_damage(1);
    assert_eq!(p, corpse);
}

#[test]
fn the_feedback_of_a_hit_fades() {
    let mut p = Player::new();
    assert_eq!(p.hud_alpha(), 0);
    p.take_damage(1_000);
    assert_eq!(p.hud_alpha(), HUD_FADE_TAIL);
    p.settle(1200);
    assert_eq!(p.hud_alpha(), 600);
    assert_eq!(p.damage_flash, 0);
    p.settle(300);
    assert_eq!(p.hud_alpha(), 300);
    p.take_damage(10_000);
    p.settle(20);
    assert_eq!(p.damage_flash, 50_000);
}

#[test]
fn single_shots_keep_the_weapons_own_rhythm() {
    let mut h = hunter(0, 0);
    h.start_fire(None);
    let mut times = Vec::new();
    for k in 1..100u32 {
        let s = h.fire_step(20, AiMode::Ours);
        if s.shot {
            times.push(k * 20);
        }
        if s.ended_sideways {
            assert_eq!(k * 20, 1300);
            break;
        }
    }
    assert_eq!(times, vec![100, 400, 700, 1000]);
    assert!(h.fire_elapsed.is_none());
}

#[test]
fn bursts_are_three_rounds_and_a_pause() {
    let mut h = hunter(0, 0);
    h.weapon.automatic = true;
    h.fire.shoot_to = 100_000;
    h.start_fire(None);
    let mut waits = Vec::new();
    for _ in 0..100 {
        if h.fire_step(20, AiMode::Ours).shot {
            waits.push(h.shot_timer);
        }
    }
    assert_eq!(&waits[..6], &[
        PD_BURST_SPACING, PD_BURST_SPACING, PD_BURST_GAP,
        PD_BURST_SPACING, PD_BURST_SPACING, PD_BURST_GAP,
    ]);
    h.stop_fire();
    assert_eq!((h.fire_elapsed, h.burst_shot, h.shot_timer), (None, 0, 0));
}

#[test]
fn nobody_shoots_a_dead_player() {
    let mut w = world();
    let mut h = hunter(0, 0);
    h.start_fire(None);
    h.muzzle_timer = 50;
    w.hunters.push(h);
    w.player.dead = true;
    w.player.health = 0;
    let o = w.enemy_combat_step(200);
    assert!(o.shots.is_empty());
    assert_eq!(w.hunters[0].muzzle_timer, 0);
    assert_eq!(w.hunters[0].fire_elapsed, Some(0));
    w.player.dead = false;
    w.player.health = 1;
    assert_eq!(w.enemy_combat_step(200).shots, vec![0]);
    w.mode = Mode::Build;
    assert!(w.enemy_combat_step(300).shots.is_empty());
}

#[test]
fn a_pistol_kicks_in_its_window_only() {
    let mut w = world();
    w.hunters.push(hunter(0, 0));
    assert_eq!(w.emit_enemy_shot(0), Some(true));
    assert_eq!(w.hunters[0].muzzle_timer, 120);
    w.hunters[0].fire_elapsed = Some(600);
    assert_eq!(w.emit_enemy_shot(0), Some(false));
    w.hunters[0].fire_elapsed = Some(300);
    w.hunters[0].weapon.class = WeaponClass::Rifle;
    assert_eq!(w.emit_enemy_shot(0), Some(false));
    w.hunters[0].dead = true;
    assert_eq!(w.emit_enemy_shot(0), None);
    assert_eq!(w.emit_enemy_shot(3), None);
}

#[test]
fn a_round_strikes_whoever_is_first_in_line() {
    let mut w = world();
    for k in 0..4 {
        w.hunters.push(hunter(k, 0));
    }
    w.hunters[2].dead = true;
    let line = |miss: u32, along: i32| ShotLine { miss, along };
    let lines = vec![line(0, 1), line(300, 4000), line(0, 10), line(350, 4000)];
    assert_eq!(w.emit_pd_shot(0, line(0, 4000), &lines), Some(Target::Player));
    assert_eq!(w.emit_pd_shot(0, line(0, 4001), &lines), Some(Target::Hunter(1)));
    assert_eq!(w.emit_pd_shot(1, line(351, 10), &lines), Some(Target::Hunter(0)));
    assert_eq!(w.emit_pd_shot(0, line(351, 10), &vec![line(0, 1), line(351, 5), line(0, 1), line(0, 0)]), None);
    w.hunters[0].simulant = false;
    assert_eq!(w.emit_pd_shot(0, line(0, 4000), &lines), None);
    assert_eq!(w.emit_pd_shot(9, line(0, 4000), &lines), None);
    let r = w.land_shot(Target::Hunter(1), 9_000, None).unwrap();
    assert_eq!(r.zone, HitZone::Torso);
    assert_eq!(w.hunters[1].health, 91_000);
    assert!(w.land_shot(Target::Hunter(2), 9_000, None).is_none());
    w.land_shot(Target::Player, 9_000, None);
    assert_eq!(w.player_health(), 91_000);
}

#[test]
fn noise_carries_by_distance() {
    let mut w = world();
    w.hunters.push(hunter(25_000, 0));
    w.hunters.push(hunter(25_001, 0));
    w.hunters.push(hunter(10, 0));
    w.hunters[2].dead = true;
    assert_eq!(w.alert_enemies_to_noise(), vec![0]);
    w.player.pos = None;
    assert!(w.alert_enemies_to_noise().is_empty());
}

#[test]
fn footsteps_carry_with_speed_and_difficulty() {
    let mut w = world();
    w.hunters.push(hunter(5_000, 0));
    assert!(w.alert_enemies_to_movement(6_400).is_empty(), "deaf at the bottom of the dial");
    w.set_difficulty(10);
    w.mode = Mode::Hunt;
    w.player.pos = Some(at(0, 0, 0));
    w.hunters.clear();
    w.hunters.push(hunter(5_000, 0));
    assert_eq!(w.alert_enemies_to_movement(6_400), vec![0]);
    assert_eq!(w.alert_enemies_to_movement(3_200), vec![0]);
    assert!(w.alert_enemies_to_movement(3_199).is_empty());
    w.hunters[0].pos.x = 10;
    assert!(w.alert_enemies_to_movement(2_499).is_empty(), "sneaking");
    assert_eq!(w.alert_enemies_to_movement(2_500), vec![0]);
}

#[test]
fn campers_are_flushed_out() {
    let mut w = world();
    w.set_difficulty(10);
    w.set_grenades(true);
    w.player.pos = Some(at(0, 0, 0));
    let mut near = hunter(8_000, 0);
    near.engaged = true;
    let mut far = hunter(9_000, 0);
    far.engaged = true;
    w.hunters.push(far);
    w.hunters.push(near);
    assert_eq!(w.grenade_flush_step(20), None);
    for _ in 0..119 {
        assert_eq!(w.grenade_flush_step(20), None);
    }
    assert_eq!(w.grenade_flush_step(20), Some(1));
    assert_eq!(w.camp.cooldown, 4800);
    assert_eq!(w.camp.timer, 0);
    w.camp.cooldown = 0;
    w.camp.timer = 100_000;
    w.hunters[0].pos.x = 6_499;
    assert_eq!(w.grenade_flush_step(20), None, "one of the pack is too close");
    w.hunters[0].pos.x = 9_000;
    w.hunters[0].vel.x = -3_000;
    assert_eq!(w.grenade_flush_step(20), None, "one of the pack will be too close");
    w.hunters[0].vel.x = 0;
    w.player.pos = Some(at(2_501, 0, 0));
    assert_eq!(w.grenade_flush_step(20), None, "the camper moved");
    assert_eq!(w.camp.anchor, Some(at(2_501, 0, 0)));
    w.camp.timer = 100_000;
    w.set_grenades(false);
    assert_eq!(w.grenade_flush_step(20), None);
    assert_eq!(w.camp.anchor, None);
}

fn round(fuse: Option<u32>, bounces: bool) -> Projectile {
    Projectile {
        pos: at(0, 0, 0),
        age: 0,
        at_rest: false,
        fuse,
        bounces,
        blast: Explosion { radius: 4000, max_damage: 90_000 },
        model: None,
    }
}

#[test]
fn projectiles_bounce_rest_explode_and_expire() {
    let contact = |slow: bool| {
        Some(Contact { point: at(5, 0, 0), rest: at(4, 0, 0), off: at(3, 0, 0), slow })
    };
    let miss = Sweep { to: at(9, 0, 0), contact: None };
    let mut ps = vec![
        round(None, false),
        round(Some(1000), true),
        round(Some(1000), true),
        round(Some(20), true),
        round(Some(20), false),
        round(None, false),
        round(None, false),
    ];
    ps[5].age = 7190;
    let sweeps = vec![
        Sweep { to: at(9, 0, 0), contact: contact(false) },
        Sweep { to: at(9, 0, 0), contact: contact(false) },
        Sweep { to: at(9, 0, 0), contact: contact(true) },
        Sweep { to: at(9, 0, 0), contact: contact(false) },
        miss,
        miss,
        miss,
    ];
    let blasts = step_projectiles(&mut ps, &sweeps, 20);
    let places: Vec<Point> = blasts.iter().map(|d| d.at).collect();
    assert_eq!(places, vec![at(5, 0, 0), at(5, 0, 0), at(9, 0, 0)]);
    assert_eq!(ps.len(), 3);
    assert_eq!((ps[0].pos, ps[0].at_rest), (at(3, 0, 0), false));
    assert_eq!((ps[1].pos, ps[1].at_rest), (at(4, 0, 0), true));
    assert_eq!(ps[2].pos, at(9, 0, 0));
    let later = step_projectiles(&mut ps, &vec![miss, miss, miss], 980);
    assert_eq!(later.len(), 2);
    assert_eq!(later[1].at, at(4, 0, 0));
}

fn mine(x: i32, trigger: MineTrigger) -> Mine {
    Mine {
        pos: at(x, 0, 0),
        stuck: true,
        flight_time: 0,
        arm_left: 0,
        trigger,
        blast: Explosion { radius: 1000, max_damage: 50_000 },
        model: 0,
    }
}

#[test]
fn mines_stick_arm_and_trip() {
    let mut flying = mine(0, MineTrigger::Proximity(500));
    flying.stuck = false;
    flying.arm_left = 40;
    let mut lost = flying;
    lost.flight_time = 5990;
    let mut timed = mine(0, MineTrigger::Timed(20));
    timed.arm_left = 20;
    let mut ms = vec![flying, lost, mine(0, MineTrigger::Remote), timed, mine(100, MineTrigger::Proximity(500))];
    let still = MineSweep { to: at(7, 0, 0), sticks_at: None };
    let stick = MineSweep { to: at(7, 0, 0), sticks_at: Some(at(6, 0, 0)) };
    let (out, cues) = mines_step(&mut ms, &vec![stick, still, still, still, still], &vec![at(600, 0, 0)], 20);
    assert_eq!(out, vec![Detonation { at: at(100, 0, 0), blast: Explosion { radius: 1000, max_damage: 50_000 } }]);
    assert_eq!((cues.placed, cues.armed), (2, 1));
    assert_eq!((ms[0].pos, ms[0].stuck), (at(6, 0, 0), true));
    assert_eq!((ms[1].pos, ms[1].stuck), (at(7, 0, 0), true));
    let (out, _) = mines_step(&mut ms, &vec![still; 4], &vec![at(6, 0, 0)], 40);
    assert_eq!(out.len(), 3, "both proximity mines armed and tripped, and the timed one ran out");
    assert_eq!(ms.len(), 1, "the remote mine waits");
}

#[test]
fn a_cluster_goes_up_together() {
    let mut ms = vec![
        mine(3000, MineTrigger::Remote),
        mine(1000, MineTrigger::Remote),
        mine(2000, MineTrigger::Remote),
        mine(9000, MineTrigger::Remote),
    ];
    let first = Detonation { at: at(0, 0, 0), blast: Explosion { radius: 1000, max_damage: 1 } };
    let fired = chain_reaction(vec![first], &mut ms);
    let places: Vec<i32> = fired.iter().map(|d| d.at.x).collect();
    assert_eq!(places, vec![0, 1000, 2000, 3000]);
    assert_eq!(ms.len(), 1);
    assert_eq!(ms[0].pos.x, 9000);
}

#[test]
fn the_detonator_sets_off_remote_mines_in_a_hunt() {
    let mut w = world();
    w.mines.push(mine(0, MineTrigger::Remote));
    w.mines.push(mine(50_000, MineTrigger::Timed(100)));
    w.mode = Mode::Build;
    assert!(w.detonate_remote_mines().is_none());
    w.mode = Mode::Hunt;
    assert_eq!(w.detonate_remote_mines().unwrap().len(), 1);
    assert_eq!(w.mines.len(), 1);
    assert_eq!(w.detonate_remote_mines().unwrap().len(), 0);
    w.player.dead = true;
    assert!(w.detonate_remote_mines().is_none());
}

#[test]
fn a_step_of_everything_that_explodes() {
    let mut w = world();
    w.launch(at(0, 0, 0), None, false, Explosion { radius: 4000, max_damage: 1 }, None);
    w.throw_mine(at(5_000, 900, 0), 0, MineTrigger::Proximity(100), Explosion { radius: 10, max_damage: 1 });
    w.mines[0].stuck = true;
    w.player.pos = Some(at(5_000, 0, 0));
    let hit = Contact { point: at(1, 1, 1), rest: at(0, 0, 0), off: at(0, 0, 0), slow: false };
    let (fired, _) = w.explosives_step(
        20,
        &vec![Sweep { to: at(2, 2, 2), contact: Some(hit) }],
        &vec![MineSweep { to: at(0, 0, 0), sticks_at: None }],
    );
    let places: Vec<Point> = fired.iter().map(|d| d.at).collect();
    assert_eq!(places, vec![at(5_000, 900, 0), at(1, 1, 1)]);
    assert!(w.projectiles.is_empty() && w.mines.is_empty());
    assert_eq!((blast_puffs(1_999), blast_puffs(2_000), blast_puffs(60_000)), (3, 4, 6));
}

#[test]
fn the_shop_refuses_what_cannot_be_had() {
    let mut a = Armory::new(vec![gun(100, 10), gun(200, 20)], false, 50, 3);
    assert_eq!(a.index, 0, "without bare hands the first weapon is in hand");
    assert_eq!(a.weapon_ammo(1), Some((0, 0)), "nothing is loaded");
    assert!(!a.buy_weapon(1));
    a.credits = 250;
    assert!(a.buy_weapon(1));
    assert_eq!(a.credits, 50);
    assert!(!a.buy_weapon(1), "owned already");
    assert!(!a.buy_weapon(2), "no such weapon");
    assert!(a.buy_ammo(1));
    assert_eq!(a.weapon_ammo(1), Some((0, 21)));
    assert_eq!(a.credits, 30);
    assert!(!a.buy_ammo(7));
    a.credits = 0;
    assert!(!a.buy_ammo(1));
    a.award_kill();
    assert_eq!(a.credits, 50);
    assert!(a.owns_weapon(1) && !a.owns_weapon(9));
}

#[test]
fn an_arsenal_starts_with_bare_hands() {
    let mut bare = gun(0, 0);
    bare.unarmed = true;
    let a = Armory::new(vec![gun(1, 1), bare, gun(2, 2)], false, 50, 3);
    assert_eq!(a.index, 1);
    assert_eq!(a.owned, vec![false, true, false]);
    let all = Armory::new(vec![gun(1, 1), bare], true, 50, 3);
    assert_eq!(all.owned, vec![true, true]);
    assert_eq!(all.weapon_ammo(0), Some((7, 21)));
    for (v, on) in [("1", true), ("on", true), ("yes", true), ("true", true), ("", false), ("off", false)] {
        assert_eq!(is_on(&v.to_string()), on);
    }
}

#[test]
fn a_switch_goes_to_the_next_owned_weapon_once() {
    let mut w = world();
    w.begin_weapon_switch();
    assert!(!w.arms.switching, "nothing to switch to");
    w.arms.owned[2] = true;
    w.arms.guns[0].reloading = true;
    w.mode = Mode::Build;
    w.begin_weapon_switch();
    assert!(!w.arms.switching);
    w.mode = Mode::Hunt;
    w.begin_weapon_switch();
    assert!(w.arms.switching && !w.arms.guns[0].reloading);
    assert_eq!(w.arms.switch_target, 2);
    let t = w.combat_step(239, true, true).unwrap();
    assert!(!t.trigger && !t.swapped);
    assert_eq!(w.active_weapon_index(), 0);
    let t = w.combat_step(1, true, true).unwrap();
    assert!(t.swapped);
    assert_eq!(w.active_weapon_index(), 2);
    assert!(w.take_models_dirty() && !w.take_models_dirty());
    let t = w.combat_step(240, true, true).unwrap();
    assert!(t.trigger && !t.swapped && !w.arms.switching);
    assert!(!w.combat_step(1, false, true).unwrap().trigger);
    w.begin_weapon_switch();
    assert_eq!(w.arms.switch_target, 0);
}

#[test]
fn sparks_fade() {
    let mut w = world();
    w.sparks.push(Spark { pos: at(0, 0, 0), ttl: 144 });
    w.sparks.push(Spark { pos: at(1, 0, 0), ttl: 20 });
    w.combat_step(20, false, false);
    assert_eq!(w.sparks, vec![Spark { pos: at(0, 0, 0), ttl: 124 }]);
    w.mode = Mode::Build;
    assert!(w.combat_step(20, false, false).is_none());
}

#[test]
fn the_generator_repeats_itself_from_the_same_seed() {
    let mut a = 0x9E37_79B9_7F4A_7C15u64;
    let mut b = a;
    for n in [1usize, 7, 26, 0, 65536] {
        let x = rand_below(&mut a, n);
        assert_eq!(x, rand_below(&mut b, n));
        assert!(x < n.max(1));
    }
    let mut one = 1u64;
    assert_eq!(rand_below(&mut one, 1000), (1u64 ^ (1 << 13) ^ ((1u64 ^ (1 << 13)) >> 7) ^ ((1u64 ^ (1 << 13) ^ ((1u64 ^ (1 << 13)) >> 7)) << 17)) as usize % 1000);
    let mut w = world();
    assert!(w.rand_unit() < 1 << 24);
    let seed = w.char_rng;
    let first = w.rand_below(10);
    w.char_rng = seed;
    assert_eq!(w.rand_below(10), first);
}

#[test]
fn a_hunter_turns_on_whom_it_picked_while_that_one_lives() {
    let mut w = world();
    w.hunters.push(hunter(100, 200));
    w.hunters.push(hunter(300, 400));
    assert_eq!(w.engage_target_pos(0), Some(at(0, 0, 0)));
    w.hunters[0].target = Some(Target::Hunter(1));
    assert_eq!(w.engage_target_pos(0), Some(at(300, 0, 400)));
    let seed = w.char_rng;
    let (dx, dz, roll) = w.pd_fire_row(0).unwrap();
    assert_eq!((dx, dz), (200, 200));
    assert!(roll < 65536 && w.char_rng != seed);
    w.hunters[1].dead = true;
    assert_eq!(w.engage_target_pos(0), Some(at(0, 0, 0)));
    w.hunters[0].pos = at(0, 50, 0);
    assert!(w.pd_fire_row(0).is_none(), "on top of the target");
    w.hunters[0].pos = at(1, 0, 0);
    w.hunters[0].pd_anims = false;
    assert!(w.pd_fire_row(0).is_none());
    assert!(w.pd_fire_row(9).is_none());
}

#[test]
fn an_attack_animation_needs_its_clip_and_its_measurement() {
    let mut w = world();
    w.hunters.push(hunter(0, 0));
    let mut row = w.hunters[0].fire;
    row.start = 55;
    assert!(!w.install_fire_row(0, row, false, true));
    assert!(!w.install_fire_row(0, row, true, false));
    assert!(!w.install_fire_row(4, row, true, true));
    assert_ne!(w.hunters[0].fire, row);
    assert!(w.install_fire_row(0, row, true, true));
    w.start_enemy_fire(0, None);
    assert_eq!(w.hunters[0].fire_elapsed, Some(55));
    w.stop_enemy_fire(0);
    assert_eq!(w.hunters[0].fire_elapsed, None);
    w.start_enemy_fire(7, None);
}

#[test]
fn a_blast_reaches_by_the_centre_of_the_body() {
    let mut w = world();
    w.hunters.push(hunter(1_000, 0));
    w.hunters.push(hunter(1_001, 0));
    w.hunters.push(hunter(0, 0));
    w.hunters[2].dead = true;
    w.player.pos = Some(at(0, 600, 0));
    let d = Detonation { at: at(0, 700, 0), blast: Explosion { radius: 1_000, max_damage: 1 } };
    let r = w.blast_reach(&d);
    assert_eq!(r.hunters, vec![Some(at(1_000, 700, 0)), None, None]);
    assert_eq!(r.player, Some(at(0, 1_500, 0)));
}

#[test]
fn a_round_is_aimed_at_whom_the_model_picked() {
    let mut w = world();
    w.hunters.push(hunter(0, 0));
    w.hunters.push(hunter(3_000, 0));
    w.player.pos = Some(at(9, 9, 9));
    let mut rng = w.char_rng;
    let a = w.aim_shot(0).unwrap();
    assert_eq!(a.at, at(9, 9, 9));
    let draws: Vec<u32> = (0..4).map(|_| rand_below(&mut rng, 1 << 24) as u32).collect();
    assert_eq!(a.scatter, draws);
    assert_eq!(w.char_rng, rng);
    w.hunters[0].target = Some(Target::Hunter(1));
    w.hunters[1].dead = true;
    assert_eq!(w.aim_shot(0).unwrap().at, at(3_000, 0, 0), "even the dead");
    w.hunters[0].target = Some(Target::Hunter(5));
    assert_eq!(w.aim_shot(0).unwrap().at, at(9, 9, 9));
    assert!(w.aim_shot(7).is_none());
    w.hunters[0].simulant = false;
    assert!(w.aim_shot(0).is_none());
    w.hunters[0].simulant = true;
    w.player.pos = None;
    assert!(w.aim_shot(0).is_none());
}

#[test]
fn a_shot_is_heard_and_delivered() {
    let mut w = world();
    let blast = Explosion { radius: 1_000, max_damage: 5 };
    w.player.pos = Some(at(0, 0, 0));
    w.hunters.push(hunter(25_000, 0));
    w.hunters.push(hunter(25_001, 0));
    let rocket = FireKind::Projectile { fuse: None, bounces: false, blast, model: None };
    let r = w.deliver_shot(rocket, at(500, 0, 0), RayHit::Nothing, 0);
    assert_eq!(r.heard, vec![0]);
    assert_eq!(r.effect, ShotEffect::Nothing);
    assert_eq!(w.projectiles[0].pos, at(500, 0, 0));
    let mine = FireKind::Mine { arm_time: 60, trigger: MineTrigger::Remote, blast };
    w.deliver_shot(mine, at(400, 0, 0), RayHit::Nothing, 0);
    assert_eq!((w.mines[0].arm_left, w.mines[0].stuck), (60, false));
    let collider = w.hunters[0].collider;
    let hit = RayHit::Enemy { collider, height: 800, part: None };
    let r = w.deliver_shot(FireKind::Hitscan, at(0, 0, 0), hit, 7_000);
    assert!(matches!(r.effect, ShotEffect::Hunter(0, _)));
    assert_eq!(w.hunters[0].health, 93_000);
    w.player.pos = None;
    let r = w.deliver_shot(rocket, at(500, 0, 0), RayHit::Nothing, 0);
    assert!(r.heard.is_empty() && w.projectiles.len() == 1);
    w.throw_enemy_grenade(at(1, 2, 3), blast, Some(4));
    assert_eq!((w.projectiles[1].fuse, w.projectiles[1].bounces), (Some(3_600), false));
    assert_eq!(w.projectiles[1].model, Some(4));
}

#[test]
fn a_shot_stopped_by_the_level_hurts_nobody() {
    let mut w = world();
    w.hunters.push(hunter(5_000, 0));
    assert!(w.resolve_shot(Target::Hunter(0), false, 9_000, None).is_none());
    assert!(w.resolve_shot(Target::Player, false, 9_000, None).is_none());
    assert_eq!((w.hunters[0].health, w.player_health()), (100_000, 100_000));
    assert!(w.resolve_shot(Target::Hunter(0), true, 9_000, None).is_some());
    assert_eq!(w.hunters[0].health, 91_000);
    assert!(w.resolve_shot(Target::Player, true, 9_000, None).is_none());
    assert_eq!(w.player_health(), 91_000);
    w.hunters[0].dead = true;
    w.hunters[0].hit_part = Some(3);
    assert!(w.resolve_shot(Target::Hunter(0), true, 9_000, None).is_none());
    assert!(w.resolve_shot(Target::Hunter(7), true, 9_000, None).is_none());
    assert_eq!((w.hunters[0].health, w.hunters[0].hit_part), (91_000, Some(3)));
}

#[test]
fn with_one_weapon_there_is_none_to_go_on_to() {
    let mut w = world();
    w.arms.owned = vec![false, false, true];
    for from in 0..3 {
        assert_eq!(w.arms.next_owned(from), None, "one weapon is owned, whichever is in hand");
    }
    w.arms.owned = vec![false, false, false];
    assert_eq!(w.arms.next_owned(0), None);
    w.arms.owned = vec![true, false, true];
    assert_eq!(w.arms.next_owned(0), Some(2));
    assert_eq!(w.arms.next_owned(1), Some(2));
    assert_eq!(w.arms.next_owned(2), Some(0));
}

#[test]
fn rounds_and_mines_are_drawn_outside_the_hand() {
    let mut w = world();
    w.arms.index = 2;
    let blast = Explosion { radius: 1_000, max_damage: 5 };
    assert_eq!(w.loose_weapon_draws(None), vec![]);
    w.launch(at(1, 0, 0), None, false, blast, None);
    w.launch(at(2, 0, 0), Some(600), true, blast, Some(9));
    w.launch(at(3, 0, 0), Some(600), true, blast, Some(8));
    w.projectiles[1].age = 40;
    w.projectiles[2].age = 50;
    w.projectiles[2].at_rest = true;
    w.throw_mine(at(4, 0, 0), 60, MineTrigger::Remote, blast);
    w.throw_mine(at(5, 0, 0), 60, MineTrigger::Remote, blast);
    w.mines[0].flight_time = 30;
    w.mines[1].stuck = true;
    assert_eq!(
        w.loose_weapon_draws(Some(1)),
        vec![
            LooseDraw::Preview(1),
            LooseDraw::Round { model: 9, at: at(2, 0, 0), spin: 40 },
            LooseDraw::Round { model: 8, at: at(3, 0, 0), spin: 0 },
            LooseDraw::Mine { model: 2, at: at(4, 0, 0), tumbled: Some(30) },
            LooseDraw::Mine { model: 2, at: at(5, 0, 0), tumbled: None },
        ]
    );
}
