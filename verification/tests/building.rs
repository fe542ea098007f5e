use hunt_world::arms::Gun;
use hunt_world::brush::{
    brushes_touching, find_room_brushes, make_stair_void, make_wall_brush, Axis, Brush, CellRect,
    DrawFace, Op, Side,
};
use hunt_world::combat::ClipTables;
use hunt_world::editing::{Bounds, FaceInfo, FaceTarget, Selection};
use hunt_world::history::MAX_HISTORY;
use hunt_world::hunter::AiMode;
use hunt_world::level::Stair;
use hunt_world::settings::Bodies;
use hunt_world::space::floor_div;
use hunt_world::world::{Assets, Mode, World};

fn world() -> World {
    World::new(Assets {
        bodies: Bodies::none(),
        tables: ClipTables {
            injuries: vec![],
            deaths: vec![],
            torso: 0,
            head_flinches: 1,
            torso_flinches: 1,
            leg_flinches: 1,
            death_clips: 1,
        },
        guns: vec![Gun { magazine: 0, reserve: 0, magazine_size: 0, price: 0, ammo_price: 0, reloading: false, unarmed: true }],
        own_all: true,
        bounty: 5,
        ammo_mags: 2,
        ai_mode: AiMode::Ours,
        unarmed_hunters: false,
        anim_debug: false,
    })
}

fn hollow(id: u32, x: i32, y: i32, z: i32, w: i32, h: i32, d: i32) -> Brush {
    Brush::new(id, Op::Subtract, x, y, z, w, h, d)
}

fn face(id: u32, axis: Axis, side: Side) -> Selection {
    Selection { region_id: 0, brush_id: id, axis, side }
}

fn wall_info() -> FaceInfo {
    FaceInfo {
        u_axis: Axis::Z,
        v_axis: Axis::Y,
        u_min: 0,
        u_max: 24,
        v_min: 0,
        v_max: 16,
        position: 24,
        scheme: 3,
    }
}

#[test]
fn boxes_touch_through_a_shared_face_only() {
    let a = hollow(1, 0, 0, 0, 10, 10, 10);
    assert!(brushes_touching(&a, &hollow(2, 10, 0, 0, 5, 5, 5)));
    assert!(brushes_touching(&hollow(2, 10, 0, 0, 5, 5, 5), &a));
    assert!(brushes_touching(&a, &hollow(2, 3, 10, 3, 2, 2, 2)));
    assert!(!brushes_touching(&a, &hollow(2, 10, 10, 0, 5, 5, 5)), "an edge is not a face");
    assert!(!brushes_touching(&a, &hollow(2, 10, 10, 10, 5, 5, 5)), "a corner is not a face");
    assert!(!brushes_touching(&a, &hollow(2, 11, 0, 0, 5, 5, 5)), "a gap");
    assert!(!brushes_touching(&a, &hollow(2, 5, 5, 5, 10, 10, 10)), "an overlap");
}

#[test]
fn a_room_grows_through_hollows_and_stops_at_frames_and_solids() {
    let mut frame = hollow(3, 20, 0, 0, 1, 10, 10);
    frame.frame = true;
    let boxes = vec![
        hollow(1, 0, 0, 0, 10, 10, 10),
        hollow(2, 10, 0, 0, 10, 10, 10),
        frame,
        hollow(4, 21, 0, 0, 10, 10, 10),
        Brush::new(5, Op::Add, 0, 10, 0, 10, 2, 10),
        hollow(6, 0, 12, 0, 10, 5, 10),
    ];
    let mut room = find_room_brushes(&boxes[0], &boxes);
    room.sort();
    assert_eq!(room, vec![1, 2]);
    let mut other = find_room_brushes(&boxes[1], &boxes);
    other.sort();
    assert_eq!(other, room, "the same room from either part of it");
    let mut from_frame = find_room_brushes(&boxes[2], &boxes);
    from_frame.sort();
    assert_eq!(from_frame, vec![1, 2, 3, 4]);
}

#[test]
fn walls_and_stair_voids_are_laid_out_by_axis() {
    let b = make_wall_brush(9, Axis::X, 24, 4, Axis::Z, 5, 6, Axis::Y, 1, 7);
    assert_eq!(b, hollow(9, 24, 1, 5, 4, 7, 6));
    let s = make_stair_void(3, Axis::Z, 10, 14, 0, 8, Axis::X, 2, 6);
    assert_eq!(s, hollow(3, 2, 0, 10, 4, 8, 4));
}

#[test]
fn a_drawing_surface_is_its_rectangles_not_the_box_around_them() {
    let f = DrawFace {
        rects: vec![
            CellRect { u0: 0, u1: 4, v0: 0, v1: 4 },
            CellRect { u0: 4, u1: 8, v0: 0, v1: 2 },
        ],
    };
    assert!(f.covers_cell(0, 3));
    assert!(f.covers_cell(7, 1));
    assert!(!f.covers_cell(7, 2));
    assert!(!f.covers_cell(8, 0));
    assert!(!f.covers_cell(-1, 0));
}

#[test]
fn pushing_and_pulling_a_face_cancel_out() {
    let start = hollow(1, 0, 0, 0, 24, 16, 24);
    for axis in [Axis::X, Axis::Y, Axis::Z] {
        for side in [Side::Min, Side::Max] {
            let mut b = start;
            b.push_face(axis, side, 4);
            assert_ne!(b, start);
            b.pull_face(axis, side, 4);
            assert_eq!(b, start);
        }
    }
    let mut b = start;
    b.push_face(Axis::X, Side::Min, 4);
    assert_eq!((b.x, b.w), (-4, 28));
    b.push_face(Axis::Y, Side::Max, 4);
    assert_eq!((b.y, b.h), (0, 20));
}

#[test]
fn a_full_face_push_moves_the_patch() {
    let mut w = world();
    w.level.brushes.push(hollow(2, 0, 0, 24, 24, 16, 10));
    w.level.next_brush_id = 3;
    let t = FaceTarget {
        sel: face(1, Axis::X, Side::Max),
        full_face: true,
        members: vec![1, 2],
        info: Some(wall_info()),
    };
    assert_eq!(w.push(4, Some(t)), vec![1, 2]);
    assert_eq!(w.level.brushes[0].w, 28);
    assert_eq!(w.level.brushes[1].w, 28);
    let gone = FaceTarget {
        sel: face(9, Axis::X, Side::Max),
        full_face: true,
        members: vec![9],
        info: None,
    };
    assert!(w.push(4, Some(gone)).is_empty());
    assert!(w.push(4, None).is_empty());
}

#[test]
fn a_pull_is_refused_whole_when_one_member_is_too_thin() {
    let mut w = world();
    w.level.brushes.push(hollow(2, 0, 0, 24, 4, 16, 10));
    w.level.next_brush_id = 3;
    let t = |members: Vec<u32>| FaceTarget {
        sel: face(1, Axis::X, Side::Max),
        full_face: true,
        members,
        info: None,
    };
    assert!(w.pull(4, Some(t(vec![1, 2]))).is_empty());
    assert_eq!(w.level.brushes[0].w, 24);
    assert_eq!(w.pull(4, Some(t(vec![1]))), vec![1]);
    assert_eq!(w.level.brushes[0].w, 20);
}

#[test]
fn a_carve_spawns_a_box_that_further_presses_deepen() {
    let mut w = world();
    let t = |brush: u32| FaceTarget {
        sel: face(brush, Axis::X, Side::Max),
        full_face: false,
        members: vec![],
        info: Some(wall_info()),
    };
    w.edit.sel_size_u = 6;
    w.edit.sel_size_v = 5;
    assert_eq!(w.push(4, Some(t(1))), vec![2]);
    let carved = w.level.brushes[1];
    assert_eq!((carved.x, carved.w), (24, 4));
    assert_eq!((carved.z, carved.d), (9, 6));
    assert_eq!((carved.y, carved.h), (6, 5));
    assert_eq!(carved.op, Op::Subtract);
    assert_eq!(carved.scheme, 3);
    assert_eq!(w.level.next_brush_id, 3);
    assert_eq!(w.edit.selected, Some(face(2, Axis::X, Side::Max)));
    assert_eq!(w.push(4, Some(t(2))), vec![2]);
    assert_eq!(w.level.brushes.len(), 2);
    assert_eq!(w.level.brushes[1].w, 8);
}

#[test]
fn an_extension_grows_a_solid_inward() {
    let mut w = world();
    let t = || FaceTarget {
        sel: face(1, Axis::X, Side::Max),
        full_face: false,
        members: vec![],
        info: Some(wall_info()),
    };
    assert_eq!(w.pull(4, Some(t())), vec![2]);
    let solid = w.level.brushes[1];
    assert_eq!((solid.x, solid.w), (20, 4));
    assert_eq!(solid.op, Op::Add);
    assert_eq!(w.edit.selected, Some(face(2, Axis::X, Side::Min)));
    assert_eq!(w.pull(4, Some(t())), vec![2]);
    assert_eq!((w.level.brushes[1].x, w.level.brushes[1].w), (16, 8));
}

#[test]
fn the_selection_starts_full_and_stays_on_the_face() {
    let mut w = world();
    w.adjust_selection_size(-4, 0, Some(wall_info()));
    assert_eq!((w.edit.sel_size_u, w.edit.sel_size_v), (20, 0));
    w.adjust_selection_size(100, -100, Some(wall_info()));
    assert_eq!((w.edit.sel_size_u, w.edit.sel_size_v), (24, 1));
    w.adjust_selection_size(1, 1, None);
    assert_eq!((w.edit.sel_size_u, w.edit.sel_size_v), (24, 1));
    w.edit.sel_size_u = 5;
    let b = w.ensure_selection_bounds(Some(wall_info()));
    assert_eq!(b, Some(Bounds { u0: 10, u1: 15, v0: 8, v1: 9 }));
}

#[test]
fn the_selection_follows_the_crosshair() {
    let mut w = world();
    let sel = face(1, Axis::X, Side::Max);
    w.edit.selected = Some(sel);
    w.edit.sel_size_u = 4;
    w.edit.sel_size_v = 4;
    let b = w.update_selection_preview(Some(sel), 10_500, 1_000, &vec![], Some(wall_info()));
    assert_eq!(b, Some(Bounds { u0: 9, u1: 13, v0: 0, v1: 4 }));
    assert_eq!(w.edit.sel_bounds, b);
    let other = face(2, Axis::X, Side::Max);
    assert_eq!(w.update_selection_preview(Some(other), 0, 0, &vec![2], Some(wall_info())), None);
    w.edit.patch_scope = true;
    assert!(w.update_selection_preview(Some(other), 0, 0, &vec![2], Some(wall_info())).is_some());
    w.mode = Mode::Hunt;
    assert_eq!(w.update_selection_preview(Some(sel), 0, 0, &vec![], Some(wall_info())), None);
}

#[test]
fn a_room_is_retextured_with_its_stairs() {
    let mut w = world();
    w.level.brushes.push(hollow(2, 24, 0, 0, 10, 16, 24));
    w.level.brushes.push(hollow(3, 100, 0, 0, 10, 16, 24));
    let mut frame = hollow(4, 34, 0, 0, 1, 8, 8);
    frame.frame = true;
    w.level.brushes.push(frame);
    w.level.next_brush_id = 5;
    w.level.stairs.push(Stair { void_ids: vec![7, 2], scheme: 0 });
    w.level.stairs.push(Stair { void_ids: vec![3], scheme: 0 });
    assert_eq!(w.set_scheme_along(Some(1), 6), Some(1));
    let schemes: Vec<usize> = w.level.brushes.iter().map(|b| b.scheme).collect();
    assert_eq!(schemes, vec![6, 6, 0, 0]);
    assert_eq!(w.level.stairs[0].scheme, 6);
    assert_eq!(w.level.stairs[1].scheme, 0);
    assert_eq!(w.set_scheme_along(Some(4), 2), None, "a frame is not a room");
    assert_eq!(w.set_scheme_along(Some(99), 2), None);
    assert_eq!(w.set_scheme_at_crosshair(None, 2), None);
    w.mode = Mode::Hunt;
    assert_eq!(w.set_scheme_along(Some(1), 2), None);
}

#[test]
fn theme_hotkeys_hold_for_the_digits() {
    let mut w = world();
    let themes = vec!["stone".to_string(), "brick".to_string()];
    assert_eq!(w.scheme_for_key('1', &themes, Some(7)), Some(7));
    w.set_theme_hotkey('1', Some("brick".to_string()));
    w.set_theme_hotkey('2', Some("lost".to_string()));
    assert_eq!(w.revision, 2);
    assert_eq!(w.scheme_for_key('1', &themes, Some(7)), Some(1));
    assert_eq!(w.scheme_for_key('2', &themes, None), None, "an unknown theme falls back");
    w.set_theme_hotkey('0', Some("stone".to_string()));
    w.set_theme_hotkey('x', Some("stone".to_string()));
    assert_eq!(w.revision, 2);
    w.set_theme_hotkey('1', Some("stone".to_string()));
    assert_eq!(w.scheme_for_key('1', &themes, None), Some(0));
    w.set_theme_hotkey('1', None);
    assert_eq!(w.scheme_for_key('1', &themes, Some(7)), Some(7));
    assert_eq!(w.theme_hotkeys().len(), 1);
}

#[test]
fn hotkeys_are_kept_in_the_order_of_their_keys() {
    let mut w = world();
    for (key, theme) in [('7', "a"), ('2', "b"), ('9', "c"), ('2', "d"), ('5', "e")] {
        w.set_theme_hotkey(key, Some(theme.to_string()));
    }
    let keys: Vec<(char, &str)> =
        w.theme_hotkeys().iter().map(|(k, t)| (*k, t.as_str())).collect();
    assert_eq!(keys, vec![('2', "d"), ('5', "e"), ('7', "a"), ('9', "c")]);
    w.revision = u64::MAX;
    w.set_theme_hotkey('7', None);
    assert_eq!(w.revision, 0);
    let keys: Vec<char> = w.theme_hotkeys().iter().map(|(k, _)| *k).collect();
    assert_eq!(keys, vec!['2', '5', '9']);
}

#[test]
fn stepping_back_and_forth_names_the_objects_to_load_again() {
    let mut w = world();
    w.save_objects(vec![1, 2]);
    w.record_undo();
    w.save_objects(vec![3]);
    let back = w.undo().unwrap();
    assert_eq!(back.extras, vec![1, 2]);
    assert_eq!(w.level.extras, vec![1, 2]);
    assert_eq!((w.undo_stack.len(), w.redo_stack.len()), (0, 1));
    let forth = w.redo().unwrap();
    assert_eq!(forth.extras, vec![3]);
    assert_eq!((w.undo_stack.len(), w.redo_stack.len()), (1, 0));
}

#[test]
fn undo_and_redo_step_through_whole_levels() {
    let mut w = world();
    let before = w.level.snapshot();
    w.level.brushes[0].w = 40;
    w.level.level_name = "renamed".to_string();
    w.with_undo(before, true);
    assert_eq!(w.revision, 1);
    assert!(w.undo().is_some());
    assert_eq!(w.level.brushes[0].w, 24);
    assert_eq!(w.level.level_name, "");
    assert!(w.undo().is_none());
    assert!(w.redo().is_some());
    assert_eq!(w.level.brushes[0].w, 40);
    assert_eq!(w.level.level_name, "renamed");
    assert!(w.redo().is_none());
    assert!(w.undo().is_some());
    w.record_undo();
    assert_eq!(w.redo_stack.len(), 0, "a new edit forgets what was stepped back");
    let unchanged = w.level.snapshot();
    let depth = w.undo_stack.len();
    w.with_undo(unchanged, false);
    assert_eq!(w.undo_stack.len(), depth);
    w.mode = Mode::Hunt;
    assert!(w.undo().is_none() && w.redo().is_none());
}

#[test]
fn the_history_forgets_the_oldest_edits() {
    let mut w = world();
    for k in 0..130 {
        w.record_undo();
        w.level.brushes[0].w = 100 + k;
    }
    assert_eq!(w.undo_stack.len(), MAX_HISTORY);
    let mut steps = 0;
    while w.undo().is_some() {
        steps += 1;
    }
    assert_eq!(steps, MAX_HISTORY);
    assert_eq!(w.level.brushes[0].w, 129);
}

#[test]
fn division_rounds_down() {
    assert_eq!(floor_div(7, 2), 3);
    assert_eq!(floor_div(-7, 2), -4);
    assert_eq!(floor_div(-8, 2), -4);
    assert_eq!(floor_div(i32::MIN, 1), i32::MIN);
    assert_eq!(floor_div(0, 5), 0);
}

#[test]
fn the_drawn_rectangle_is_the_selection_or_the_whole_face() {
    let mut w = world();
    assert_eq!(w.selection_face_mesh(Some(wall_info())), None);
    w.edit.selected = Some(face(1, Axis::X, Side::Max));
    assert_eq!(w.selection_face_mesh(None), None);
    let whole = Bounds { u0: 0, u1: 24, v0: 0, v1: 16 };
    assert_eq!(w.selection_face_mesh(Some(wall_info())), Some(whole));
    let part = Bounds { u0: 2, u1: 6, v0: 1, v1: 5 };
    w.edit.sel_bounds = Some(part);
    assert_eq!(w.selection_face_mesh(Some(wall_info())), Some(part));
}

#[test]
fn the_readings_of_a_new_game() {
    let mut w = world();
    assert_eq!((w.weapon_count(), w.player_armor()), (1, 0));
    assert_eq!((w.arms.bounty, w.arms.ammo_mags), (5, 2));
    assert_eq!((w.player_score.kills, w.player_score.deaths, w.hunter_scores.len()), (0, 0, 0));
    assert_eq!(w.level.level_name, "");
    assert!(w.nav.overlay.is_none() && w.nav.overlay_rev == 0);
    assert!(!w.nav_overlay_on());
    w.toggle_nav_overlay();
    assert!(w.nav_overlay_on());
}
