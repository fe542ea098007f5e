use hunt_world::hunter::AiState;
use hunt_world::jank::{HunterSample, JankMonitor, ViolationKind};
use hunt_world::rig::{load_anim_template, resolve_barrel_axis, BarrelSource, Chain, NamedJoints, Rig};
use hunt_world::space::Point;

fn at(x: i32, y: i32, z: i32) -> Point {
    Point { x, y, z }
}

fn seen(x: i32) -> HunterSample {
    HunterSample {
        pos: at(x, 0, 0),
        state: AiState::Attack,
        speed: 0,
        dead: false,
        firing: false,
        los: false,
        packmate_block: false,
    }
}

#[test]
fn staring_is_flagged_once_per_streak() {
    let mut m = JankMonitor::new(1);
    let mut s = seen(12_000);
    s.los = true;
    for _ in 0..179 {
        m.sample(Some(at(0, 0, 0)), &vec![s], 20);
    }
    assert!(m.violations.is_empty());
    m.sample(Some(at(0, 0, 0)), &vec![s], 20);
    let v = m.violations_of(ViolationKind::Stall);
    assert_eq!(v.len(), 1);
    assert_eq!((v[0].enemy, v[0].t, v[0].measure), (0, 3600, 144_000_000));
    assert_eq!((v[0].lasted, v[0].from), (3600, Some(at(12_000, 0, 0))));
    for _ in 0..179 {
        m.sample(Some(at(0, 0, 0)), &vec![s], 20);
    }
    assert_eq!(m.violations.len(), 1);
    s.firing = true;
    m.sample(Some(at(0, 0, 0)), &vec![s], 20);
    assert!(m.tracks[0].ever_fired);
    assert_eq!(m.tracks[0].stare, 0);
    s.firing = false;
    s.pos.x = 12_001;
    for _ in 0..400 {
        m.sample(Some(at(0, 0, 0)), &vec![s], 20);
    }
    assert_eq!(m.violations.len(), 1, "out of range");
}

#[test]
fn a_flag_tells_how_long_the_streak_ran() {
    let mut m = JankMonitor::new(1);
    let mut s = seen(5_000);
    s.los = true;
    m.sample(Some(at(0, 0, 0)), &vec![s], 3500);
    m.sample(Some(at(0, 0, 0)), &vec![s], 700);
    assert_eq!(m.violations[0].lasted, 4200, "the step that reaches the limit counts in full");
}

#[test]
fn overlapping_hunters_are_flagged() {
    let mut m = JankMonitor::new(2);
    let s = vec![seen(0), seen(339)];
    for _ in 0..60 {
        m.sample(Some(at(90_000, 0, 0)), &s, 20);
    }
    let v = m.violations_of(ViolationKind::Overlap);
    assert_eq!(v.iter().map(|v| v.enemy).collect::<Vec<_>>(), vec![0, 1]);
    assert_eq!((v[0].measure, v[0].lasted), (339 * 339, 1200));
    let apart = vec![seen(0), seen(340)];
    let mut m = JankMonitor::new(2);
    for _ in 0..100 {
        m.sample(Some(at(90_000, 0, 0)), &apart, 20);
    }
    assert!(m.violations.is_empty());
}

#[test]
fn dithering_is_more_than_six_changes_in_a_second() {
    let mut m = JankMonitor::new(1);
    let mut s = seen(50_000);
    for k in 0..8 {
        s.state = if k % 2 == 0 { AiState::Chase } else { AiState::Attack };
        m.sample(Some(at(0, 0, 0)), &vec![s], 20);
        assert_eq!(m.violations.len(), if k == 7 { 1 } else { 0 });
    }
    assert_eq!((m.violations[0].measure, m.violations[0].lasted), (7, 0));
    assert!(m.trans_times[0].is_empty());
}

#[test]
fn walking_on_the_spot_is_flagged_and_walking_is_not() {
    let mut m = JankMonitor::new(1);
    let mut s = seen(50_000);
    s.speed = 101;
    for _ in 0..90 {
        m.sample(Some(at(0, 0, 0)), &vec![s, seen(50_500)], 20);
    }
    let v = m.violations_of(ViolationKind::WalkInPlace);
    assert_eq!(v.len(), 1);
    assert_eq!((v[0].crowd, v[0].lasted, v[0].speed), (1, 1800, 101));
    let mut m = JankMonitor::new(1);
    for k in 0..300 {
        s.pos.x = 50_000 + k * 10;
        m.sample(Some(at(0, 0, 0)), &vec![s], 20);
    }
    assert!(m.violations.is_empty());
}

#[test]
fn falls_are_flagged_and_the_dead_are_not_watched() {
    let mut m = JankMonitor::new(1);
    let mut s = seen(50_000);
    s.packmate_block = true;
    m.sample(Some(at(0, 0, 0)), &vec![s], 20);
    s.pos.y = -1000;
    m.sample(Some(at(0, 0, 0)), &vec![s], 20);
    assert!(m.violations.is_empty());
    s.pos.y = -2001;
    m.sample(Some(at(0, 0, 0)), &vec![s], 20);
    let v = m.violations_of(ViolationKind::IllegalY);
    assert_eq!((v[0].measure, v[0].lasted), (1001, 0));
    assert_eq!((v[0].from, v[0].at), (Some(at(50_000, -1000, 0)), at(50_000, -2001, 0)));
    assert_eq!(m.tracks[0].packmate_blocks, 3);
    s.dead = true;
    s.pos.y = 9_000;
    m.sample(Some(at(0, 0, 0)), &vec![s], 20);
    m.sample(None, &vec![s], 20);
    assert_eq!(m.violations.len(), 1);
    assert_eq!(m.t, 100);
}

#[test]
fn a_rig_is_found_by_walking_up_the_skeleton() {
    // 0 root, 1 pelvis, 2 chest, 3-5 right arm, 6-8 left arm, 9 head, 10-12 left leg, 13-15 right.
    let parents = vec![
        None, Some(0), Some(1), Some(2), Some(3), Some(4), Some(2), Some(6), Some(7), Some(2),
        Some(1), Some(10), Some(11), Some(1), Some(13), Some(14),
    ];
    let names = NamedJoints {
        right_hand: Some(5),
        left_hand: Some(8),
        head: Some(9),
        pelvis: Some(1),
        left_foot: Some(12),
        right_foot: Some(15),
    };
    let rig = Rig::resolve(&parents, names).unwrap();
    assert_eq!(rig.arm, Chain { root: 3, mid: 4, end: 5 });
    assert_eq!(rig.chest, 2);
    assert_eq!(rig.left_leg, Chain { root: 10, mid: 11, end: 12 });
    assert_eq!(rig.right_leg, Chain { root: 13, mid: 14, end: 15 });
    let upper: Vec<usize> = (0..16).filter(|j| rig.upper_body[*j]).collect();
    assert_eq!(upper, vec![2, 3, 4, 5, 6, 7, 8, 9]);
    assert!(Rig::resolve(&parents, NamedJoints { head: None, ..names }).is_none());
    assert!(Rig::resolve(&parents, NamedJoints { right_hand: Some(1), ..names }).is_none());
    let two_roots = vec![None, Some(0), Some(1), None, Some(3), Some(4)];
    let split = NamedJoints {
        right_hand: Some(2),
        left_hand: Some(5),
        head: Some(0),
        pelvis: Some(0),
        left_foot: Some(2),
        right_foot: Some(5),
    };
    assert!(Rig::resolve(&two_roots, split).is_none());
}

#[test]
fn a_clip_set_is_whole_or_nothing() {
    assert_eq!(load_anim_template(&vec![Some(4), Some(9)]), Some(vec![4, 9]));
    assert_eq!(load_anim_template(&vec![Some(4), None, Some(9)]), None);
    assert_eq!(load_anim_template(&vec![]), Some(vec![]));
}

#[test]
fn a_barrel_points_where_its_author_says() {
    assert_eq!(resolve_barrel_axis(Some(true), true), BarrelSource::Authored);
    assert_eq!(resolve_barrel_axis(Some(false), true), BarrelSource::PdConvention);
    assert_eq!(resolve_barrel_axis(None, true), BarrelSource::Measured);
    assert_eq!(resolve_barrel_axis(None, false), BarrelSource::Convention);
}
