use hunt_world::nav_issues::{NavClimb, NavGap, NavLine, NavMetrics, NavPinch, NavSeverity};
use hunt_world::nav_survey::{
    cluster, nav_overlay, partition_pads, NavColor, NavPanel, NavSurvey, OverlayMark, PadProbe, PickupProbe,
    Probe,
};
use hunt_world::space::Point;

fn at(x: i32, y: i32, z: i32) -> Point {
    Point { x, y, z }
}

fn metrics() -> NavMetrics {
    NavMetrics { cell: 250, max_step: 250, jump_apex: 760 }
}

fn big_room() -> NavSurvey {
    NavSurvey {
        sizes: vec![(0, 25_600)],
        gaps: vec![None],
        main: Some(0),
        pads: vec![],
        pickups: vec![],
        turrets: vec![],
        doors: vec![],
        door_cells: vec![],
        pinches: vec![],
        climbs: vec![],
        metrics: metrics(),
    }
}

/// A 40 m room with a slab whose top sits half a metre above the floor: walkable, and cut off.
fn room_with_a_severed_ledge() -> NavSurvey {
    let mut s = big_room();
    s.sizes = vec![(0, 24_000), (1, 1_600)];
    s.gaps = vec![
        Some((1, NavGap { from: at(9_875, 0, 10_125), flat: 250, rise: 500 })),
        Some((0, NavGap { from: at(10_125, 500, 10_125), flat: 250, rise: -500 })),
    ];
    s.climbs = vec![NavClimb { from: at(9_875, 0, 10_125), rise: 500, joins: Some((0, 1)) }];
    s
}

fn cells(s: &NavSurvey) -> Vec<(Point, u32)> {
    let mut out = Vec::new();
    for (id, n) in &s.sizes {
        for k in 0..*n {
            out.push((at(k as i32 * 250, 0, *id as i32), *id));
        }
    }
    out
}

fn joined(lines: &[NavLine]) -> String {
    lines.iter().map(|l| l.text.clone()).collect::<Vec<_>>().join("\n")
}

fn pad(x: i32, y: i32, z: i32, comp: Option<u32>) -> PadProbe {
    PadProbe { pos: at(x, y, z), comp, snapped: at(x, y, z), snapped_comp: comp }
}

#[test]
fn a_severed_ledge_is_reported_with_the_height_that_severed_it() {
    let issues = room_with_a_severed_ledge().collect_nav_issues();
    assert_eq!(issues.components, 2, "the floor and the ledge");
    assert!(!issues.is_connected());
    let isl = issues.islands.first().expect("one island");
    let gap = isl.gap.expect("the ledge is right beside the floor");
    assert_eq!(gap.rise.abs(), 500);
    assert!(gap.flat <= 260);
    assert!(issues.joining_climbs > 0);
    let text = joined(&issues.lines());
    assert!(text.contains("0.50 m above the level"), "got:\n{text}");
}

#[test]
fn a_chained_island_is_measured_against_its_neighbour_not_the_main_component() {
    let mut s = big_room();
    s.sizes = vec![(0, 1_024), (1, 432), (2, 144)];
    s.gaps = vec![
        None,
        Some((0, NavGap { from: at(2_125, 500, 2_125), flat: 250, rise: -500 })),
        Some((1, NavGap { from: at(3_625, 1_250, 3_625), flat: 250, rise: -750 })),
    ];
    let issues = s.collect_nav_issues();
    assert_eq!(issues.components, 3, "floor + two tiers");
    let lower = &issues.islands[0];
    let upper = &issues.islands[1];
    assert_eq!(lower.gap_to, issues.main);
    assert_eq!(upper.gap_to, Some(lower.id));
    let g = upper.gap.expect("a gap");
    assert_eq!(g.rise, -750);
    let text = joined(&issues.lines());
    assert!(text.contains("above island comp"), "got:\n{text}");
}

#[test]
fn a_clean_level_states_its_verdict() {
    let issues = big_room().collect_nav_issues();
    assert_eq!(issues.components, 1);
    assert!(issues.is_connected());
    assert!(issues.orphans.is_empty());
    let lines = issues.lines();
    assert!(lines.iter().any(|l| l.sev == NavSeverity::Clean && l.text.contains("1 walkable")));
    assert!(!lines.iter().any(|l| l.sev == NavSeverity::Error), "an open room has no errors");
}

#[test]
fn a_pad_on_an_island_is_reported_as_an_orphan_and_as_an_exclusion() {
    let mut s = room_with_a_severed_ledge();
    s.pads = vec![
        pad(4_000, 0, 4_000, Some(0)),
        pad(36_000, 0, 4_000, Some(0)),
        pad(4_000, 0, 36_000, Some(0)),
        pad(15_000, 500, 15_000, Some(1)),
    ];
    let issues = s.collect_nav_issues();
    assert_eq!(issues.orphans.len(), 1);
    assert_eq!(issues.orphans[0].kind, "spawn pad");
    assert_eq!(issues.excluded_pads.len(), 1);
    assert_eq!(issues.excluded_pads[0], (3, at(15_000, 500, 15_000)));
}

#[test]
fn the_overlay_is_opt_in_and_revisioned() {
    let s = room_with_a_severed_ledge();
    let mut panel = NavPanel::new();
    assert!(panel.nav_overlay_mesh().is_none(), "nothing before Calculate");

    let rev0 = panel.overlay_rev;
    panel.calculate_nav_issues(Some(s.nav_pass(&cells(&s))), 500, metrics());
    assert!(panel.overlay_rev > rev0);
    assert!(panel.nav_overlay_mesh().is_none());

    let rev1 = panel.overlay_rev;
    panel.toggle_nav_overlay();
    assert!(panel.overlay_rev > rev1);
    let mesh = panel.nav_overlay_mesh().expect("an overlay to draw");
    assert!(mesh.len() > 1000, "a 40 m room's worth of cells, got {}", mesh.len());
    assert_eq!(mesh[0], OverlayMark { pos: at(0, 0, 0), color: NavColor::Main });
    assert_eq!(mesh[24_000].color, NavColor::Island(0));
    assert_eq!(mesh[25_600].color, NavColor::Join);
}

#[test]
fn the_report_reads_word_for_word() {
    let mut s = room_with_a_severed_ledge();
    s.pads = vec![pad(1_250, 0, -3_750, Some(0)), pad(15_000, 500, 15_000, Some(1)), pad(0, 0, 0, Some(0))];
    s.pickups = vec![PickupProbe { weapon: "PP7".to_string(), pos: at(15_150, 500, 15_000), comp: Some(1) }];
    s.turrets = vec![Probe { pos: at(0, 0, 0), comp: Some(0) }, Probe { pos: at(1, 2, 3), comp: None }];
    s.doors = vec![Probe { pos: at(10_000, 0, 0), comp: Some(1) }];
    s.door_cells = vec![0, 4, 0];
    s.pinches = vec![
        NavPinch { pos: at(0, 0, 0), width: 700 },
        NavPinch { pos: at(100, 0, 0), width: 400 },
        NavPinch { pos: at(9_000, 0, 0), width: 500 },
    ];
    let mut issues = s.collect_nav_issues();
    issues.calc_ms = 512;
    let lines = issues.lines();
    let want = [
        "2 walkable components — 6% of the floor is cut off from the rest",
        "main: 24000 cells (94%)",
        "island comp 1: 1600 cells (6.2%) — 0.50 m above the level at (10.1, 0.5, 10.1) — one step too tall for a hunter",
        "4 authored object(s) nobody can walk to:",
        "  spawn pad pad 1 at (15.0, 0.5, 15.0)",
        "  pickup PP7 at (15.2, 0.5, 15.0)",
        "  sentry gun turret at (0.0, 0.0, 0.0)",
        "  door door at (10.0, 0.0, 0.0)",
        "G will IGNORE pad 1 at (15.0, 0.5, 15.0) — on an island, so anyone spawning there is stranded",
        "2 door(s) mark NO nav cells and are invisible to pathing — hunters                      walk through them: [0, 2]",
        "3 cell(s) in corridors under 0.73 m — narrowest 0.40 m (a hunter's body is 0.48 m across)",
        "  0.40 m wide at (0.1, 0.0, 0.0)",
        "  0.50 m wide at (9.0, 0.0, 0.0)",
        "1 player-only climb(s) 0.50–0.76 m: the player walks or jumps these, hunters cannot",
        "1 of them would RECONNECT a cut-off area — these are the ones to fix",
        "  0.50 m step at (9.9, 0.0, 10.1) → joins comp 1",
        "calculated in 512 ms",
    ];
    let got: Vec<&str> = lines.iter().map(|l| l.text.as_str()).collect();
    assert_eq!(got, want);
    assert_eq!(lines[0].sev, NavSeverity::Error);
    assert_eq!(lines[1].sev, NavSeverity::Info);
    assert_eq!(lines[8].sev, NavSeverity::Warn);
    assert_eq!(lines[10].sev, NavSeverity::Error);
    assert_eq!(hunt_world::nav_survey::fault_count(&lines), 13);
}

#[test]
fn the_three_readings_of_a_gap() {
    let read = |flat: i32, rise: i32| {
        let mut s = room_with_a_severed_ledge();
        s.gaps[1] = Some((0, NavGap { from: at(0, 0, 0), flat, rise }));
        joined(&s.collect_nav_issues().lines())
    };
    assert!(read(501, 3_000).contains("0.5 m from the level (+3.00 m rise) at (0.0, 0.0, 0.0) — a distance, not a step"));
    assert!(read(500, 501).contains("0.50 m below the level at (0.0, 0.0, 0.0) — one step too tall"));
    assert!(read(250, -502).contains("0.50 m above the level at (0.0, 0.0, 0.0) — you jump this"));
    assert!(read(250, 762).contains("0.76 m below the level at (0.0, 0.0, 0.0) — a drop, not a step: it needs stairs"));
}

#[test]
fn a_level_without_floor_is_reported() {
    let mut panel = NavPanel::new();
    let empty = "!! no walkable floor at all — nothing baked";
    assert_eq!(panel.nav_issue_report(None, 3, metrics()), empty);
    assert_eq!((panel.overlay_rev, panel.issues.as_ref().unwrap().calc_ms), (1, 3));
    let s = big_room();
    assert_eq!(
        panel.nav_issue_report(Some(s.nav_pass(&vec![])), 7, metrics()),
        empty,
        "what is cached is reported"
    );
    assert_eq!(panel.overlay_rev, 1);
}

#[test]
fn the_block_report_is_tagged() {
    let mut panel = NavPanel::new();
    let s = big_room();
    panel.calculate_nav_issues(Some(s.nav_pass(&vec![])), 7, metrics());
    assert_eq!(
        panel.nav_issue_report(None, 9, metrics()),
        "   1 walkable component — all 25600 cells of floor connect\n   \
         0 orphaned objects — everything authored is reachable\n   \
         no corridor narrower than 0.73 m\n   calculated in 7 ms"
    );
}

#[test]
fn the_first_report_calculates() {
    let mut panel = NavPanel::new();
    let s = room_with_a_severed_ledge();
    let text = panel.nav_issue_report(Some(s.nav_pass(&cells(&s))), 7, metrics());
    assert!(text.starts_with("!! 2 walkable components"));
    assert_eq!(panel.overlay.as_ref().map(|o| o.len()), Some(25_601));
}

#[test]
fn islands_are_reported_largest_first() {
    let mut s = big_room();
    s.sizes = vec![(4, 100), (9, 30), (2, 30), (7, 5)];
    s.main = Some(4);
    s.gaps = vec![None; 4];
    let issues = s.collect_nav_issues();
    let got: Vec<(u32, usize)> = issues.islands.iter().map(|i| (i.id, i.cells)).collect();
    assert_eq!(got, vec![(9, 30), (2, 30), (7, 5)]);
    assert_eq!((issues.total_cells, issues.main_cells), (165, 100));
    assert!(issues.islands.iter().all(|i| Some(i.id) != issues.main));
    let marks = nav_overlay(&cells(&s), &issues);
    let painted = |c: NavColor| marks.iter().filter(|m| m.color == c).count();
    assert_eq!(painted(NavColor::Main), 100);
    assert_eq!(painted(NavColor::Island(0)), 30);
}

#[test]
fn more_islands_than_lines_are_counted() {
    let mut s = big_room();
    s.sizes = vec![(0, 100)];
    s.gaps = vec![None];
    for k in 1..11u32 {
        s.sizes.push((k, 10));
        s.gaps.push(None);
    }
    let issues = s.collect_nav_issues();
    assert_eq!(issues.islands.len(), 10);
    let text = joined(&issues.lines());
    assert!(text.contains("… and 2 more islands"));
    assert!(text.contains("island comp 8: 10 cells (5.0%) — no measurable gap"));
    assert!(!text.contains("island comp 9:"));
    let (_, overlay) = s.nav_pass(&vec![(at(0, 0, 0), 6), (at(0, 0, 0), 7), (at(0, 0, 0), 99)]);
    assert_eq!(overlay[0].color, NavColor::Island(5));
    assert_eq!(overlay[1].color, NavColor::Tail);
    assert_eq!(overlay[2].color, NavColor::Tail);
}

#[test]
fn doors_that_all_mark_cells_are_said_to_be_visible() {
    let mut s = big_room();
    s.door_cells = vec![5, 2, 9];
    let issues = s.collect_nav_issues();
    assert_eq!(issues.thinnest_door, 2);
    assert!(joined(&issues.lines())
        .contains("3 door(s) on the grid, thinnest marks 2 cell(s) — all visible to pathing"));
}

#[test]
fn one_representative_per_cube() {
    let p = |x: i32| NavPinch { pos: at(x, 0, 0), width: 1 };
    let items = vec![p(-1), p(-1999), p(0), p(1999), p(2000), p(-2001)];
    let kept: Vec<i32> = cluster(&items, 6).iter().map(|k| k.pos.x).collect();
    assert_eq!(kept, vec![-1, 0, 2000, -2001]);
    let two: Vec<i32> = cluster(&items, 2).iter().map(|k| k.pos.x).collect();
    assert_eq!(two, vec![-1, 0]);
    assert_eq!(cluster(&items, 0).len(), 1);
    assert_eq!(cluster(&Vec::<NavPinch>::new(), 3).len(), 0);
}

#[test]
fn narrow_corridors_come_narrowest_first() {
    let mut s = big_room();
    s.pinches = vec![
        NavPinch { pos: at(0, 0, 0), width: 500 },
        NavPinch { pos: at(5_000, 0, 0), width: 490 },
        NavPinch { pos: at(10_000, 0, 0), width: 500 },
    ];
    let issues = s.collect_nav_issues();
    let w: Vec<(i32, i32)> = issues.pinches.iter().map(|p| (p.width, p.pos.x)).collect();
    assert_eq!(w, vec![(490, 5_000), (500, 0), (500, 10_000)]);
    assert_eq!(issues.narrowest, Some(490));
    assert!(issues.lines().iter().any(|l| l.sev == NavSeverity::Warn && l.text.contains("corridors")));
}

#[test]
fn the_largest_group_of_pads_stays() {
    assert_eq!(partition_pads(&vec![]), (None, vec![]));
    assert_eq!(partition_pads(&vec![Some(4)]), (Some(4), vec![]));
    assert_eq!(partition_pads(&vec![Some(1), Some(2), Some(1), None]), (Some(1), vec![1, 3]));
    assert_eq!(partition_pads(&vec![Some(1), Some(2)]), (Some(2), vec![0]));
    assert_eq!(partition_pads(&vec![None, Some(0)]), (Some(0), vec![0]));
}

#[test]
fn climbs_that_reconnect_come_first() {
    let mut s = big_room();
    s.climbs = vec![
        NavClimb { from: at(0, 0, 0), rise: 600, joins: None },
        NavClimb { from: at(9_000, 0, 0), rise: 700, joins: Some((0, 5)) },
    ];
    let issues = s.collect_nav_issues();
    assert_eq!(issues.climb_edges, 2);
    assert_eq!(issues.joining_climbs, 1);
    assert_eq!(issues.climbs[0].rise, 700);
    assert_eq!(issues.climbs[1].rise, 600);
}
